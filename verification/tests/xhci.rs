use kernel_core::bootinfo::{BootInfo, MemoryMapEntry};
use kernel_core::pmm;
use kernel_core::vga::Console;
use kernel_core::xhci::driver::{
    handle_event, init_controller, parse_config_descriptor_header, parse_hid_keyboard_endpoint,
    endpoint_id_from_addr, ControllerState, Doorbell,
};
use kernel_core::xhci::hid::decode_hid_report;
use kernel_core::xhci::regs::{inspect, port_needs_reset, port_reset_step, PortResetStep, XhciInfo};
use kernel_core::xhci::ring::{TransferRing, Trb};

fn test_allocator() -> pmm::PhysAllocator {
    let entries = vec![MemoryMapEntry {
        base_addr: 0x100000,
        length: 0x400000,
        region_type: 1,
        attributes: 0,
    }];
    let boot = BootInfo::new(entries, Vec::new());
    pmm::init(&boot)
}

fn test_info() -> XhciInfo {
    // CAPLENGTH 0x20, version 1.0.0; 8 slots, 4 ports; 32-byte contexts.
    let caps = vec![0x01000020u32, (4 << 24) | 8, 0, 0, 0, 0x1000, 0x2000];
    inspect(0xF000_0000, &caps).unwrap()
}

fn controller_with_keyboard() -> ControllerState {
    let mut alloc = test_allocator();
    let mut cs = init_controller(test_info(), &mut alloc).unwrap();
    cs.intr_ep_addr = 0x81;
    cs.intr_ep_id = 3;
    cs.intr_ring_phys = 0x30000;
    cs.intr_ring = TransferRing::new(128, 0x30000);
    cs.hid_buf_phys = 0x40000;
    cs.hid_buf_len = 8;
    cs.active_slot = Some(1);
    cs
}

#[test]
fn hid_decode_shifted_letter_and_enter() {
    let mut con = Console::new();
    // LShift held, usage 0x04 = 'a': the console receives 'A'.
    let report = vec![0x02u8, 0x00, 0x04, 0, 0, 0, 0, 0];
    decode_hid_report(&report, &mut con);
    assert_eq!(con.cells[0] & 0xFF, u16::from(b'A'));
    assert_eq!(con.column_position, 1);

    // Enter: the console receives a line feed.
    let report = vec![0x00u8, 0x00, 0x28, 0, 0, 0, 0, 0];
    decode_hid_report(&report, &mut con);
    assert_eq!(con.row_position, 1);
    assert_eq!(con.column_position, 0);
}

#[test]
fn hid_event_reposts_a_normal_trb() {
    let mut cs = controller_with_keyboard();
    let mut con = Console::new();
    let report = vec![0x02u8, 0x00, 0x04, 0, 0, 0, 0, 0];
    let old_enqueue = cs.intr_ring.enqueue;
    let old_cycle = cs.intr_ring.cycle;

    // A successful transfer event on the interrupt endpoint (code 1,
    // endpoint id 3, 8 bytes).
    let trb = Trb { parameter: 0, status: (1 << 24) | 8, control: (0x20 << 10) | (3 << 16) };
    handle_event(&mut cs, &mut con, &report, 0x20, &trb);

    assert_eq!(cs.last_transfer_code, Some(1));
    assert_eq!(cs.last_transfer_len, Some(8));
    assert_eq!(cs.last_transfer_ep, Some(3));
    // The console got the decoded glyph.
    assert_eq!(con.cells[0] & 0xFF, u16::from(b'A'));
    // A fresh Normal TRB went onto the interrupt ring with the previous
    // cycle bit, and the enqueue index advanced by one.
    assert_eq!(cs.intr_ring.enqueue, old_enqueue + 1);
    let posted = cs.intr_ring.trbs[old_enqueue];
    assert_eq!(posted.parameter, 0x40000);
    assert_eq!(posted.status, 8);
    assert_eq!(posted.control & 1, u32::from(old_cycle));
    assert_eq!((posted.control >> 10) & 0x3F, 1);
    // The endpoint's doorbell is asked for.
    assert_eq!(cs.pending_doorbells.last(), Some(&Doorbell { slot: 1, target: 3 }));
}

#[test]
fn command_completion_is_recorded() {
    let mut cs = controller_with_keyboard();
    let mut con = Console::new();
    let report: Vec<u8> = Vec::new();
    let trb = Trb { parameter: 5, status: 1 << 24, control: 0x21 << 10 };
    handle_event(&mut cs, &mut con, &report, 0x21, &trb);
    assert_eq!(cs.last_completion_code, Some(1));
    assert_eq!(cs.last_completed_slot, Some(5));
}

#[test]
fn enable_slot_round_trip_through_the_event_ring() {
    let mut cs = controller_with_keyboard();
    let mut con = Console::new();
    let report: Vec<u8> = Vec::new();
    // The controller will answer with a successful completion for slot 2.
    cs.event_ring.trbs[0] = Trb { parameter: 2, status: 1 << 24, control: (0x21 << 10) | 1 };

    let slot = kernel_core::xhci::driver::enable_slot(&mut cs, &mut con, &report);
    assert_eq!(slot, Some(2));
    // The Enable Slot command TRB sits at slot 0 with cycle bit 1.
    let cmd = cs.command_ring.trbs[0];
    assert_eq!((cmd.control >> 10) & 0x3F, 9);
    assert_eq!(cmd.control & 1, 1);
    assert_eq!(cs.pending_doorbells[0], Doorbell { slot: 0, target: 0 });
}

#[test]
fn config_descriptor_header_parses() {
    let bytes = vec![9u8, 2, 0x22, 0x00, 1, 1, 0, 0x80, 50];
    assert_eq!(parse_config_descriptor_header(&bytes), Some((0x22, 1)));
    assert_eq!(parse_config_descriptor_header(&vec![9u8, 2]), None);
}

#[test]
fn keyboard_endpoint_is_found_in_a_config_walk() {
    // Configuration descriptor, then an interface (class 3, subclass 1,
    // protocol 1), then an interrupt IN endpoint 0x81 with maxp 8.
    let cfg = vec![
        9u8, 2, 34, 0, 1, 1, 0, 0x80, 50,
        9, 4, 0, 0, 1, 3, 1, 1, 0,
        7, 5, 0x81, 3, 8, 0, 10,
    ];
    assert_eq!(parse_hid_keyboard_endpoint(&cfg), Some((0x81, 8, 10)));

    // A bulk endpoint in the same interface does not count.
    let cfg_bulk = vec![
        9u8, 2, 34, 0, 1, 1, 0, 0x80, 50,
        9, 4, 0, 0, 1, 3, 1, 1, 0,
        7, 5, 0x81, 2, 8, 0, 10,
    ];
    assert_eq!(parse_hid_keyboard_endpoint(&cfg_bulk), None);

    // The right endpoint under the wrong interface class does not count.
    let cfg_other = vec![
        9u8, 4, 0, 0, 1, 8, 6, 80, 0,
        7, 5, 0x81, 3, 8, 0, 10,
    ];
    assert_eq!(parse_hid_keyboard_endpoint(&cfg_other), None);
}

#[test]
fn endpoint_ids_follow_the_xhci_encoding() {
    assert_eq!(endpoint_id_from_addr(0x81), 3);
    assert_eq!(endpoint_id_from_addr(0x01), 2);
    assert_eq!(endpoint_id_from_addr(0x82), 5);
}

#[test]
fn capability_decode_reads_slots_ports_and_context_size() {
    let info = test_info();
    assert_eq!(info.cap_length, 0x20);
    assert_eq!(info.hci_version, 0x0100);
    assert_eq!(info.max_slots(), 8);
    assert_eq!(info.max_ports(), 4);
    assert_eq!(info.context_size(), 32);
    let caps64 = vec![0x01000020u32, 8, 0, 0, 4, 0x1000, 0x2000];
    let info64 = inspect(0xF000_0000, &caps64).unwrap();
    assert_eq!(info64.context_size(), 64);
    assert!(inspect(0, &caps64).is_none());
}

#[test]
fn control_transfer_queues_setup_data_status() {
    let mut cs = controller_with_keyboard();
    let mut con = Console::new();
    let report: Vec<u8> = Vec::new();
    cs.ep0_ring_phys = 0x20000;
    cs.ep0_ring = TransferRing::new(64, 0x20000);
    // A transfer event so the wait returns success.
    cs.event_ring.trbs[0] = Trb { parameter: 0, status: 1 << 24, control: (0x20 << 10) | 1 };

    let ok = kernel_core::xhci::driver::control_in(
        &mut cs, &mut con, &report, 1, 0x80, 6, 0x100, 0, 18, 0x50000,
    );
    assert!(ok);
    // Setup stage: the packed request in the parameter, 8 bytes, type 2.
    let setup = cs.ep0_ring.trbs[0];
    assert_eq!(setup.parameter, 0x80 | (6 << 8) | (0x100u64 << 16) | (18u64 << 48));
    assert_eq!(setup.status, 8);
    assert_eq!((setup.control >> 10) & 0x3F, 2);
    // Data stage: the buffer, the length, type 3, direction IN.
    let data = cs.ep0_ring.trbs[1];
    assert_eq!(data.parameter, 0x50000);
    assert_eq!(data.status, 18);
    assert_eq!((data.control >> 10) & 0x3F, 3);
    assert_eq!((data.control >> 16) & 1, 1);
    // Status stage: empty, type 4, direction OUT.
    let status = cs.ep0_ring.trbs[2];
    assert_eq!(status.parameter, 0);
    assert_eq!((status.control >> 10) & 0x3F, 4);
    assert_eq!((status.control >> 16) & 1, 0);
    // EP0's doorbell target is 1.
    assert_eq!(cs.pending_doorbells[0], Doorbell { slot: 1, target: 1 });
}

#[test]
fn hid_punctuation_honors_shift() {
    let mut con = Console::new();
    // Usage 0x2d is '-' plain and '_' shifted.
    decode_hid_report(&vec![0x00, 0, 0x2d, 0, 0, 0, 0, 0], &mut con);
    decode_hid_report(&vec![0x20, 0, 0x2d, 0, 0, 0, 0, 0], &mut con);
    assert_eq!(con.cells[0] & 0xFF, u16::from(b'-'));
    assert_eq!(con.cells[1] & 0xFF, u16::from(b'_'));
    // Backspace erases the last glyph.
    decode_hid_report(&vec![0x00, 0, 0x2a, 0, 0, 0, 0, 0], &mut con);
    assert_eq!(con.cells[1] & 0xFF, u16::from(b' '));
    assert_eq!(con.column_position, 1);
}

#[test]
fn wait_for_command_completion_hands_back_the_record() {
    let mut cs = controller_with_keyboard();
    let mut con = Console::new();
    let report: Vec<u8> = Vec::new();
    cs.last_completion_code = Some(1);
    cs.last_completed_slot = Some(4);
    let r = kernel_core::xhci::driver::wait_for_command_completion(
        &mut cs, &mut con, &report, 10,
    );
    assert_eq!(r, Some((1, 4)));
    assert_eq!(cs.last_completion_code, None);
    // With nothing recorded and no events, the budget runs out.
    let r2 = kernel_core::xhci::driver::wait_for_command_completion(
        &mut cs, &mut con, &report, 10,
    );
    assert_eq!(r2, None);
}

#[test]
fn port_reset_walks_the_documented_sequence() {
    // Connected but not enabled: CCS set, PED clear.
    assert!(port_needs_reset(0x1));
    assert!(!port_needs_reset(0x3));
    // Asserting the reset writes PORTSC back with PR (bit 4) set.
    let (s1, w) = port_reset_step(PortResetStep::AssertReset, 0x1);
    assert_eq!(s1, PortResetStep::AwaitResetClear);
    assert_eq!(w, Some(0x11));
    // Hold while PR still reads set.
    let (s2, w2) = port_reset_step(s1, 0x11);
    assert_eq!(s2, PortResetStep::AwaitResetClear);
    assert_eq!(w2, None);
    // PR cleared: wait for the port to come up enabled.
    let (s3, _) = port_reset_step(s2, 0x1);
    assert_eq!(s3, PortResetStep::AwaitEnabled);
    let (s4, _) = port_reset_step(s3, 0x3);
    assert_eq!(s4, PortResetStep::Enabled);
}
