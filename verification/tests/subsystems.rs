use kernel_core::counters::{
    irq_count, page_faults, record_irq, record_page_fault, record_timer_tick, timer_ticks,
    Counters,
};
use kernel_core::pci::{
    bar, class_code, config_address, device_id, find_usb_controllers, has_function, header_type,
    is_multifunction, prog_if, read_u16, read_u8, subclass, vendor_id, Bar, PciAddress,
    PciFunctionInfo,
};
use kernel_core::shell::{parse_u64, split1, start};
use kernel_core::action::Action;
use kernel_core::engine::{apply_action_atomic, set_system_ready, EngineState};
use kernel_core::journal::Journal;
use kernel_core::task::{register, run_once, runqueue_len, TaskRegistry};
use kernel_core::vga::{put_char, set_style, write_line, write_str, Console};
use kernel_core::xhci::regs::{crcr_value, erdp_value, split64};

#[test]
fn counters_advance_monotonically() {
    let mut c = Counters::new();
    record_timer_tick(&mut c);
    record_timer_tick(&mut c);
    record_irq(&mut c);
    record_page_fault(&mut c);
    assert_eq!(timer_ticks(&c), 2);
    assert_eq!(irq_count(&c), 3);
    assert_eq!(page_faults(&c), 1);
}

#[test]
fn pci_fields_come_out_of_the_right_bytes() {
    let addr = PciAddress { bus: 1, device: 2, function: 3 };
    assert_eq!(config_address(addr, 0x0B), 0x80000000 | (1 << 16) | (2 << 11) | (3 << 8) | 0x08);
    let reg0 = 0x1234_8086u32;
    assert_eq!(vendor_id(reg0), 0x8086);
    assert_eq!(device_id(reg0), 0x1234);
    assert!(has_function(reg0));
    assert!(!has_function(0xABCD_FFFF));
    let reg8 = 0x0C03_3000u32;
    assert_eq!(class_code(reg8), 0x0C);
    assert_eq!(subclass(reg8), 0x03);
    assert_eq!(prog_if(reg8), 0x30);
    let reg_c = 0x0080_0000u32;
    assert_eq!(header_type(reg_c), 0x80);
    assert!(is_multifunction(0x80));
    assert_eq!(read_u16(0xAABB_CCDD, 0x02), 0xAABB);
    assert_eq!(read_u16(0xAABB_CCDD, 0x00), 0xCCDD);
    assert_eq!(read_u8(0xAABB_CCDD, 0x01), 0xCC);
    assert_eq!(read_u8(0xAABB_CCDD, 0x03), 0xAA);
}

#[test]
fn bars_decode_memory_io_and_64bit() {
    // 32-bit memory BAR.
    assert_eq!(
        bar(0, 0xFEB0_0000, 0),
        Some(Bar { base: 0xFEB0_0000, is_memory: true, is_64bit: false, prefetchable: false })
    );
    // 64-bit prefetchable memory BAR.
    let b = bar(0, 0xFEB0_000C, 0x1).unwrap();
    assert!(b.is_memory && b.is_64bit && b.prefetchable);
    assert_eq!(b.base, 0x1_FEB0_0000);
    // I/O BAR.
    let io = bar(1, 0xC001, 0).unwrap();
    assert!(!io.is_memory);
    assert_eq!(io.base, 0xC000);
    // Unimplemented or out of range.
    assert_eq!(bar(2, 0, 0), None);
    assert_eq!(bar(6, 0xFEB0_0000, 0), None);
}

#[test]
fn usb_controllers_are_filtered_by_class() {
    let f = |bus: u8, class: u8, sub: u8| PciFunctionInfo {
        addr: PciAddress { bus, device: 0, function: 0 },
        class,
        subclass: sub,
        prog_if: 0x30,
    };
    let funcs = vec![f(0, 0x0C, 0x03), f(1, 0x03, 0x00), f(2, 0x0C, 0x03), f(3, 0x0C, 0x05)];
    let found = find_usb_controllers(&funcs);
    assert_eq!(found.len(), 2);
    assert_eq!(found[0].bus, 0);
    assert_eq!(found[1].bus, 2);
}

#[test]
fn task_registry_round_robins_and_counts() {
    let mut t = TaskRegistry::new();
    assert_eq!(runqueue_len(&t), 0);
    assert_eq!(run_once(&mut t), None);
    assert!(register(&mut t, 11));
    assert!(register(&mut t, 22));
    assert_eq!(runqueue_len(&t), 2);
    assert_eq!(run_once(&mut t), Some(11));
    assert_eq!(run_once(&mut t), Some(22));
    assert_eq!(run_once(&mut t), Some(11));
    for k in 0..6 {
        assert!(register(&mut t, 100 + k));
    }
    // All eight slots taken now.
    assert!(!register(&mut t, 999));
    assert_eq!(runqueue_len(&t), 8);
}

#[test]
fn shell_split_and_parse() {
    let line = b"cat boot/config ".to_vec();
    let s = split1(&line);
    assert_eq!(s.cmd, b"cat".to_vec());
    assert_eq!(s.arg, b"boot/config".to_vec());
    let only = split1(&b"mem".to_vec());
    assert_eq!(only.cmd, b"mem".to_vec());
    assert_eq!(only.arg, Vec::<u8>::new());

    assert_eq!(parse_u64(&b"1234".to_vec()), Some(1234));
    assert_eq!(parse_u64(&b"12x".to_vec()), None);
    assert_eq!(parse_u64(&b"99999999999999999999999".to_vec()), Some(u64::MAX));
}

#[test]
fn console_prints_wraps_and_scrolls() {
    let mut con = Console::new();
    write_str(&mut con, "hi");
    assert_eq!(con.cells[0] & 0xFF, u16::from(b'h'));
    assert_eq!(con.cells[1] & 0xFF, u16::from(b'i'));
    assert_eq!(con.column_position, 2);

    // Carriage return rewinds, newline feeds.
    write_str(&mut con, "\rX\n");
    assert_eq!(con.cells[0] & 0xFF, u16::from(b'X'));
    assert_eq!(con.row_position, 1);

    set_style(&mut con, 0x1F);
    write_line(&mut con, "top");
    assert_eq!(con.cells[80] >> 8, 0x1F);
    assert_eq!(con.row_position, 2);

    // Fill to the last row; one more line feed scrolls everything up.
    let mut c2 = Console::new();
    for _ in 0..24 {
        put_char(&mut c2, '\n');
    }
    write_str(&mut c2, "bottom");
    assert_eq!(c2.row_position, 24);
    put_char(&mut c2, '\n');
    assert_eq!(c2.row_position, 24);
    // "bottom" moved up one row.
    assert_eq!(c2.cells[23 * 80] & 0xFF, u16::from(b'b'));
    // The freed last row is blank.
    assert_eq!(c2.cells[24 * 80] & 0xFF, u16::from(b' '));
}

#[test]
fn shell_prompt_reaches_the_console() {
    let mut con = Console::new();
    start(&mut con);
    assert_eq!(con.cells[0] & 0xFF, u16::from(b'$'));
    assert_eq!(con.cells[1] & 0xFF, u16::from(b' '));
}

#[test]
fn register_values_split_and_combine() {
    assert_eq!(split64(0x1122_3344_5566_7788), (0x5566_7788, 0x1122_3344));
    assert_eq!(crcr_value(0x7FF00), 0x7FF01);
    assert_eq!(erdp_value(0x8000, 3), 0x8000 + 48 + 8);
}

#[test]
fn console_wraps_a_full_row() {
    let mut con = Console::new();
    for _ in 0..80 {
        put_char(&mut con, 'x');
    }
    assert_eq!(con.column_position, 80);
    // The 81st byte wraps to the next row first.
    put_char(&mut con, 'y');
    assert_eq!(con.row_position, 1);
    assert_eq!(con.column_position, 1);
    assert_eq!(con.cells[80] & 0xFF, u16::from(b'y'));
}

#[test]
fn journal_renders_multi_digit_numbers() {
    let mut state = EngineState::new();
    let mut j = Journal::new();
    set_system_ready(&mut state);
    let a = Action::new(4, 1, 4096, 0, 0);
    let _ = apply_action_atomic(&mut state, &mut j, 105, &a, true);
    assert_eq!(j.bytes, b"seq=105 INTENT kind=4\nseq=105 APPLY_OK kind=4\n".to_vec());
}
