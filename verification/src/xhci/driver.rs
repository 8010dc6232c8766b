//! Controller bring-up, command submission, USB enumeration and HID polling.
//!
//! All controller state lives in one `ControllerState` value. Rings, the
//! DCBAA and the input context are modeled as plain vectors whose contents
//! the binary mirrors into the DMA memory it allocated at the recorded
//! physical addresses, before it rings the doorbells collected in
//! `pending_doorbells`. Events arrive the opposite way: the binary copies
//! the event ring segment and the HID input buffer out of DMA memory into
//! the model before polling. The register writes of the bring-up sequence
//! and every wait on a status bit stay in the binary; the values it writes
//! are computed here.

use vstd::prelude::*;

use crate::pmm::{alloc_aligned, spec_alloc, PhysAllocator};
use crate::vga::{console_wf, Console};
use crate::xhci::hid::{decode_hid_report, spec_hid_console, spec_hid_shift};
use crate::xhci::regs::XhciInfo;
use crate::xhci::ring::{
    event_ring_wf, lemma_drain_bounded, lemma_drained_props, ring_fresh, ring_wf,
    spec_drain_events, spec_drained,
    spec_enqueue_all, spec_event_advance, spec_event_pending, spec_ring_enqueue,
    spec_work_trb, EventRing, TransferRing, Trb, TRB_TYPE_ADDRESS_DEVICE,
    TRB_TYPE_COMMAND_COMPLETION, TRB_TYPE_CONFIGURE_ENDPOINT, TRB_TYPE_ENABLE_SLOT,
    TRB_TYPE_NO_OP_COMMAND, TRB_TYPE_NORMAL, TRB_TYPE_SETUP_STAGE, TRB_TYPE_DATA_STAGE,
    TRB_TYPE_STATUS_STAGE, TRB_TYPE_TRANSFER_EVENT, TRB_TYPE_PORT_STATUS_CHANGE,
};

verus! {

pub const CMD_RING_TRBS: usize = 256;
pub const EVENT_RING_TRBS: usize = 256;

/// A doorbell write the binary still has to perform: 4-byte register
/// `slot`, value `target`.
#[derive(Clone, Copy, Debug, PartialEq, Eq, Structural)]
pub struct Doorbell {
    pub slot: u8,
    pub target: u32,
}

/// One event ring segment table entry.
#[derive(Clone, Copy, Debug, PartialEq, Eq, Structural)]
pub struct ErstEntry {
    pub segment_base: u64,
    pub segment_size: u32,
    pub reserved: u32,
}

impl ErstEntry {
    /// The single-segment table the driver uses.
    pub fn new_single(event_ring_phys: u64, size: u32) -> (r: ErstEntry)
        ensures
            r.segment_base == event_ring_phys,
            r.segment_size == size,
            r.reserved == 0,
    {
        ErstEntry { segment_base: event_ring_phys, segment_size: size, reserved: 0 }
    }
}

/// Everything the driver knows about the one controller it runs.
pub struct ControllerState {
    pub info: XhciInfo,
    pub command_ring_phys: u64,
    pub command_ring: TransferRing,
    pub event_ring_phys: u64,
    pub event_ring: EventRing,
    pub dcbaa_phys: u64,
    pub dcbaa_slots: Vec<u64>,
    pub erst_phys: u64,
    pub erst_entry: ErstEntry,
    pub last_completion_code: Option<u8>,
    pub last_completed_slot: Option<u8>,
    pub last_transfer_code: Option<u8>,
    pub last_transfer_len: Option<u32>,
    pub last_transfer_ep: Option<u8>,
    pub last_transfer_slot: Option<u8>,
    pub active_slot: Option<u8>,
    pub ep0_ring_phys: u64,
    pub ep0_ring: TransferRing,
    pub input_ctx_phys: u64,
    pub input_ctx: Vec<u32>,
    pub intr_ep_addr: u8,
    pub intr_ep_id: u8,
    pub intr_ring_phys: u64,
    pub intr_ring: TransferRing,
    pub hid_buf_phys: u64,
    pub hid_buf_len: usize,
    pub pending_doorbells: Vec<Doorbell>,
}

/// The rings that exist are well formed; EP0 and interrupt rings may not
/// be set up yet.
pub open spec fn cs_wf(cs: ControllerState) -> bool {
    &&& ring_wf(cs.command_ring@)
    &&& event_ring_wf(cs.event_ring@)
    &&& (cs.ep0_ring@.trbs.len() == 0 || ring_wf(cs.ep0_ring@))
    &&& (cs.intr_ring@.trbs.len() == 0 || ring_wf(cs.intr_ring@))
}

/// Where controller bring-up places its four structures: command ring,
/// DCBAA, event ring segment, segment table — each 64-byte aligned, in
/// that order — and the allocator cursor afterwards; `None` as soon as
/// one does not fit.
pub open spec fn spec_init_layout(next: u64, limit: u64, slots: int) -> Option<
    (int, int, int, int, int),
> {
    match spec_alloc(next, limit, 4096, 64) {
        Some(p1) => match spec_alloc(p1.1 as u64, limit, (slots * 8) as u64, 64) {
            Some(p2) => match spec_alloc(p2.1 as u64, limit, 4096, 64) {
                Some(p3) => match spec_alloc(p3.1 as u64, limit, 16, 64) {
                    Some(p4) => Some((p1.0, p2.0, p3.0, p4.0, p4.1)),
                    None => None,
                },
                None => None,
            },
            None => None,
        },
        None => None,
    }
}

/// Where Address Device places its structures: device context, EP0
/// transfer ring, input context, and the cursor afterwards.
pub open spec fn spec_address_layout(next: u64, limit: u64, ctx: int) -> Option<
    (int, int, int, int),
> {
    match spec_alloc(next, limit, (ctx * 32) as u64, 64) {
        Some(p1) => match spec_alloc(p1.1 as u64, limit, 1024, 64) {
            Some(p2) => match spec_alloc(p2.1 as u64, limit, (ctx * 3) as u64, 64) {
                Some(p3) => Some((p1.0, p2.0, p3.0, p3.1)),
                None => None,
            },
            None => None,
        },
        None => None,
    }
}

/// Where Configure Endpoint places its structures: interrupt ring, input
/// context, and the cursor afterwards.
pub open spec fn spec_configure_layout(next: u64, limit: u64, ctx: int, ep_id: u8) -> Option<
    (int, int, int),
> {
    match spec_alloc(next, limit, 2048, 64) {
        Some(p1) => match spec_alloc(p1.1 as u64, limit, (ctx * (2 + ep_id)) as u64, 64) {
            Some(p2) => Some((p1.0, p2.0, p2.1)),
            None => None,
        },
        None => None,
    }
}

/// Allocate and build the command ring, DCBAA, event ring and segment
/// table. The binary mirrors them to the recorded addresses, programs
/// DCBAAP, CRCR, CONFIG and interrupter 0 from these values, and performs
/// the halt/reset/run sequence on the operational registers; `None` only
/// when the allocator runs dry.
pub fn init_controller(info: XhciInfo, alloc: &mut PhysAllocator) -> (r: Option<
    ControllerState,
>)
    ensures
        match r {
            Some(cs) => {
                &&& cs_wf(cs)
                &&& cs.info == info
                &&& cs.command_ring@.trbs.len() == CMD_RING_TRBS
                &&& ring_fresh(cs.command_ring@, cs.command_ring_phys)
                &&& cs.event_ring@.trbs.len() == EVENT_RING_TRBS
                &&& cs.event_ring@.dequeue == 0
                &&& cs.event_ring@.cycle
                &&& forall|i: int|
                    0 <= i < EVENT_RING_TRBS ==> cs.event_ring@.trbs[i] == (Trb {
                        parameter: 0,
                        status: 0,
                        control: 0,
                    })
                &&& cs.dcbaa_slots@.len() == info.hcsparams1 % 256 + 1
                &&& (forall|i: int|
                    0 <= i < cs.dcbaa_slots@.len() ==> cs.dcbaa_slots@[i] == 0)
                &&& cs.erst_entry == (ErstEntry {
                    segment_base: cs.event_ring_phys,
                    segment_size: EVENT_RING_TRBS as u32,
                    reserved: 0,
                })
                &&& cs.command_ring_phys % 64 == 0
                &&& cs.event_ring_phys % 64 == 0
                &&& cs.dcbaa_phys % 64 == 0
                &&& cs.erst_phys % 64 == 0
                &&& cs.last_completion_code is None
                &&& cs.last_transfer_code is None
                &&& cs.active_slot is None
                &&& cs.ep0_ring@.trbs.len() == 0
                &&& cs.intr_ring@.trbs.len() == 0
                &&& cs.hid_buf_phys == 0
                &&& cs.pending_doorbells@.len() == 0
            },
            None => true,
        },
        final(alloc).limit == old(alloc).limit,
        old(alloc).next_free <= final(alloc).next_free,
        ({
            let lay = spec_init_layout(
                old(alloc).next_free,
                old(alloc).limit,
                info.hcsparams1 % 256 + 1,
            );
            &&& (r is Some <==> lay is Some)
            &&& lay is Some ==> {
                &&& r->Some_0.command_ring_phys == lay->Some_0.0
                &&& r->Some_0.dcbaa_phys == lay->Some_0.1
                &&& r->Some_0.event_ring_phys == lay->Some_0.2
                &&& r->Some_0.erst_phys == lay->Some_0.3
                &&& final(alloc).next_free == lay->Some_0.4
                &&& final(alloc).limit == old(alloc).limit
            }
        }),
{
    let cmd_ring_phys: u64 = match alloc_aligned(alloc, 4096, 64) {
        Some(p) => p,
        None => {
            return None;
        },
    };
    let command_ring = TransferRing::new(CMD_RING_TRBS, cmd_ring_phys);

    let slots: usize = (info.max_slots() as usize) + 1;
    let dcbaa_phys: u64 = match alloc_aligned(alloc, (slots as u64) * 8, 64) {
        Some(p) => p,
        None => {
            return None;
        },
    };
    let mut dcbaa_slots: Vec<u64> = Vec::new();
    let mut i: usize = 0;
    while i < slots
        invariant
            i <= slots,
            dcbaa_slots@.len() == i,
            forall|k: int| 0 <= k < i ==> dcbaa_slots@[k] == 0,
        decreases slots - i,
    {
        dcbaa_slots.push(0);
        i = i + 1;
    }

    let event_ring_phys: u64 = match alloc_aligned(alloc, 4096, 64) {
        Some(p) => p,
        None => {
            return None;
        },
    };
    let event_ring = EventRing::new(EVENT_RING_TRBS);

    let erst_phys: u64 = match alloc_aligned(alloc, 16, 64) {
        Some(p) => p,
        None => {
            return None;
        },
    };
    let erst_entry = ErstEntry::new_single(event_ring_phys, EVENT_RING_TRBS as u32);

    Some(
        ControllerState {
            info,
            command_ring_phys: cmd_ring_phys,
            command_ring,
            event_ring_phys,
            event_ring,
            dcbaa_phys,
            dcbaa_slots,
            erst_phys,
            erst_entry,
            last_completion_code: None,
            last_completed_slot: None,
            last_transfer_code: None,
            last_transfer_len: None,
            last_transfer_ep: None,
            last_transfer_slot: None,
            active_slot: None,
            ep0_ring_phys: 0,
            ep0_ring: TransferRing::unset(),
            input_ctx_phys: 0,
            input_ctx: Vec::new(),
            intr_ep_addr: 0,
            intr_ep_id: 0,
            intr_ring_phys: 0,
            intr_ring: TransferRing::unset(),
            hid_buf_phys: 0,
            hid_buf_len: 0,
            pending_doorbells: Vec::new(),
        },
    )
}

/// Record a doorbell for the binary to ring once ring memory is mirrored.
pub fn ring_doorbell(cs: &mut ControllerState, slot_id: u8, target: u32)
    ensures
        final(cs).pending_doorbells@ == old(cs).pending_doorbells@.push(
            Doorbell { slot: slot_id, target },
        ),
        cs_config_unchanged(*old(cs), *final(cs)),
        final(cs).event_ring == old(cs).event_ring,
        final(cs).intr_ring == old(cs).intr_ring,
        spec_records_of(*final(cs)) == spec_records_of(*old(cs)),
{
    cs.pending_doorbells.push(Doorbell { slot: slot_id, target });
}

/// Queue a No-Op command with the producer's cycle bit.
pub fn enqueue_noop_command(cs: &mut ControllerState)
    requires
        ring_wf(old(cs).command_ring@),
    ensures
        ring_wf(final(cs).command_ring@),
        final(cs).command_ring@ == spec_ring_enqueue(
            old(cs).command_ring@,
            spec_work_trb((0u64, 0u32, (TRB_TYPE_NO_OP_COMMAND * 1024 + 32) as u32), old(
                cs,
            ).command_ring@.cycle),
        ),
        final(cs).event_ring == old(cs).event_ring,
        final(cs).ep0_ring == old(cs).ep0_ring,
        final(cs).intr_ring == old(cs).intr_ring,
        final(cs).pending_doorbells == old(cs).pending_doorbells,
        spec_records_of(*final(cs)) == spec_records_of(*old(cs)),
        final(cs).active_slot == old(cs).active_slot,
        final(cs).dcbaa_slots == old(cs).dcbaa_slots,
        final(cs).input_ctx == old(cs).input_ctx,
        final(cs).input_ctx_phys == old(cs).input_ctx_phys,
        final(cs).intr_ep_id == old(cs).intr_ep_id,
        final(cs).hid_buf_phys == old(cs).hid_buf_phys,
        final(cs).hid_buf_len == old(cs).hid_buf_len,
        final(cs).info == old(cs).info,
{
    cs.command_ring.enqueue_work(0, 0, TRB_TYPE_NO_OP_COMMAND * 1024 + 32);
}

/// Queue one command TRB: type in bits 10..16, interrupt on completion.
pub fn enqueue_command_trb(cs: &mut ControllerState, trb_type: u32, parameter: u64, status: u32)
    requires
        ring_wf(old(cs).command_ring@),
        trb_type < 64,
    ensures
        ring_wf(final(cs).command_ring@),
        final(cs).command_ring@ == spec_ring_enqueue(
            old(cs).command_ring@,
            spec_work_trb((parameter, status, (trb_type * 1024 + 32) as u32), old(
                cs,
            ).command_ring@.cycle),
        ),
        final(cs).event_ring == old(cs).event_ring,
        final(cs).ep0_ring == old(cs).ep0_ring,
        final(cs).intr_ring == old(cs).intr_ring,
        final(cs).pending_doorbells == old(cs).pending_doorbells,
        spec_records_of(*final(cs)) == spec_records_of(*old(cs)),
        final(cs).active_slot == old(cs).active_slot,
        final(cs).dcbaa_slots == old(cs).dcbaa_slots,
        final(cs).input_ctx == old(cs).input_ctx,
        final(cs).input_ctx_phys == old(cs).input_ctx_phys,
        final(cs).intr_ep_id == old(cs).intr_ep_id,
        final(cs).hid_buf_phys == old(cs).hid_buf_phys,
        final(cs).hid_buf_len == old(cs).hid_buf_len,
        final(cs).info == old(cs).info,
{
    cs.command_ring.enqueue_work(parameter, status, trb_type * 1024 + 32);
}

/// Queue one command TRB addressed to a device slot: the slot id rides in
/// bits 16..24 of the control word.
pub fn enqueue_command_trb_slot(
    cs: &mut ControllerState,
    trb_type: u32,
    parameter: u64,
    status: u32,
    slot_id: u8,
)
    requires
        ring_wf(old(cs).command_ring@),
        trb_type < 64,
    ensures
        ring_wf(final(cs).command_ring@),
        final(cs).command_ring@ == spec_ring_enqueue(
            old(cs).command_ring@,
            spec_work_trb(
                (parameter, status, (trb_type * 1024 + 32 + slot_id * 0x10000) as u32),
                old(cs).command_ring@.cycle,
            ),
        ),
        final(cs).event_ring == old(cs).event_ring,
        final(cs).ep0_ring == old(cs).ep0_ring,
        final(cs).intr_ring == old(cs).intr_ring,
        final(cs).pending_doorbells == old(cs).pending_doorbells,
        spec_records_of(*final(cs)) == spec_records_of(*old(cs)),
        final(cs).active_slot == old(cs).active_slot,
        final(cs).dcbaa_slots == old(cs).dcbaa_slots,
        final(cs).input_ctx == old(cs).input_ctx,
        final(cs).input_ctx_phys == old(cs).input_ctx_phys,
        final(cs).intr_ep_id == old(cs).intr_ep_id,
        final(cs).hid_buf_phys == old(cs).hid_buf_phys,
        final(cs).hid_buf_len == old(cs).hid_buf_len,
        final(cs).info == old(cs).info,
{
    let control_base: u32 = trb_type * 1024 + 32 + (slot_id as u32) * 0x10000;
    cs.command_ring.enqueue_work(parameter, status, control_base);
}

/// The completion and transfer bookkeeping the event dispatcher keeps.
pub struct EventRecords {
    pub completion_code: Option<u8>,
    pub completed_slot: Option<u8>,
    pub transfer_code: Option<u8>,
    pub transfer_len: Option<u32>,
    pub transfer_ep: Option<u8>,
    pub transfer_slot: Option<u8>,
}

/// The bookkeeping a controller state currently holds.
pub open spec fn spec_records_of(cs: ControllerState) -> EventRecords {
    EventRecords {
        completion_code: cs.last_completion_code,
        completed_slot: cs.last_completed_slot,
        transfer_code: cs.last_transfer_code,
        transfer_len: cs.last_transfer_len,
        transfer_ep: cs.last_transfer_ep,
        transfer_slot: cs.last_transfer_slot,
    }
}

/// What dispatching one event does to the bookkeeping: a command
/// completion overwrites the completion pair, a transfer event the
/// transfer fields, anything else nothing.
pub open spec fn spec_record_step(b: EventRecords, active: Option<u8>, t: Trb) -> EventRecords {
    let ty = (t.control / 1024) % 64;
    if ty == TRB_TYPE_COMMAND_COMPLETION {
        EventRecords {
            completion_code: Some((t.status / 0x1000000) as u8),
            completed_slot: Some((t.parameter % 256) as u8),
            ..b
        }
    } else if ty == TRB_TYPE_TRANSFER_EVENT {
        EventRecords {
            transfer_code: Some((t.status / 0x1000000) as u8),
            transfer_len: Some((t.status % 0x1000000) as u32),
            transfer_ep: Some(((t.control / 0x10000) % 32) as u8),
            transfer_slot: active,
            ..b
        }
    } else {
        b
    }
}

/// The bookkeeping after dispatching a whole run of events, oldest first.
pub open spec fn spec_records_after(
    b: EventRecords,
    active: Option<u8>,
    evs: Seq<Trb>,
) -> EventRecords
    decreases evs.len(),
{
    if evs.len() == 0 {
        b
    } else {
        spec_records_after(spec_record_step(b, active, evs[0]), active, evs.drop_first())
    }
}

/// Dispatching one more event steps the bookkeeping once more.
pub proof fn lemma_records_after_push(
    b: EventRecords,
    active: Option<u8>,
    evs: Seq<Trb>,
    t: Trb,
)
    ensures
        spec_records_after(b, active, evs.push(t)) == spec_record_step(
            spec_records_after(b, active, evs),
            active,
            t,
        ),
    decreases evs.len(),
{
    reveal_with_fuel(spec_records_after, 3);
    if evs.len() == 0 {
        assert(evs.push(t).drop_first() =~= Seq::<Trb>::empty());
        assert(evs.push(t)[0] == t);
    } else {
        assert(evs.push(t).drop_first() =~= evs.drop_first().push(t));
        assert(evs.push(t)[0] == evs[0]);
        lemma_records_after_push(spec_record_step(b, active, evs[0]), active, evs.drop_first(), t);
    }
}

/// Everything event dispatch leaves alone: the work rings, the device
/// bookkeeping, the allocated addresses, and the event ring's contents.
pub open spec fn cs_config_unchanged(a: ControllerState, b: ControllerState) -> bool {
    &&& b.command_ring == a.command_ring
    &&& b.ep0_ring == a.ep0_ring
    &&& b.active_slot == a.active_slot
    &&& b.intr_ep_id == a.intr_ep_id
    &&& b.intr_ep_addr == a.intr_ep_addr
    &&& b.hid_buf_phys == a.hid_buf_phys
    &&& b.hid_buf_len == a.hid_buf_len
    &&& b.dcbaa_slots == a.dcbaa_slots
    &&& b.dcbaa_phys == a.dcbaa_phys
    &&& b.input_ctx == a.input_ctx
    &&& b.input_ctx_phys == a.input_ctx_phys
    &&& b.info == a.info
    &&& b.command_ring_phys == a.command_ring_phys
    &&& b.event_ring_phys == a.event_ring_phys
    &&& b.erst_phys == a.erst_phys
    &&& b.erst_entry == a.erst_entry
    &&& b.ep0_ring_phys == a.ep0_ring_phys
    &&& b.intr_ring_phys == a.intr_ring_phys
    &&& b.event_ring@.trbs == a.event_ring@.trbs
}

/// How many consumption steps one poll may take: enough to cross the
/// whole segment twice and once more, clipped to the address space.
pub open spec fn spec_poll_fuel(len: int) -> nat {
    if 2 * len + 1 <= usize::MAX {
        (2 * len + 1) as nat
    } else {
        usize::MAX as nat
    }
}

/// Does the poll budget escape the address-space clip? It does for any
/// ring that physically fits in memory, and then one poll provably
/// drains every pending event (`lemma_drain_bounded`).
pub open spec fn spec_poll_budget_fits(len: int) -> bool {
    2 * len + 1 <= usize::MAX
}

/// Under the structural budget condition the drain always stops short of
/// its fuel, so every clause below conditioned on it applies.
pub proof fn lemma_poll_drains_fully(v: crate::xhci::ring::EventRingView)
    requires
        event_ring_wf(v),
        spec_poll_budget_fits(v.trbs.len() as int),
    ensures
        spec_drain_events(v, spec_poll_fuel(v.trbs.len() as int)).len() < spec_poll_fuel(
            v.trbs.len() as int,
        ),
{
    lemma_drain_bounded(v, spec_poll_fuel(v.trbs.len() as int));
}

/// Does this transfer event make the dispatcher decode a report and
/// re-post the interrupt ring: a successful completion on the configured
/// interrupt endpoint while the input buffer exists.
pub open spec fn spec_hid_repost(cs: ControllerState, trb: Trb) -> bool {
    &&& trb.status / 0x1000000 == 1
    &&& cs.intr_ring@.trbs.len() > 0
    &&& (trb.control / 0x10000) % 32 == cs.intr_ep_id
    &&& cs.hid_buf_phys != 0
}

/// Dispatch one event TRB. A command completion records its code and slot;
/// a transfer event records code, length and endpoint, and — when it is a
/// successful poll of the interrupt endpoint — decodes the HID report the
/// binary copied out of the input buffer, re-posts a fresh Normal TRB on
/// the interrupt ring, and asks for the endpoint's doorbell.
pub fn handle_event(
    cs: &mut ControllerState,
    con: &mut Console,
    hid_report: &Vec<u8>,
    trb_type: u8,
    trb: &Trb,
)
    requires
        cs_wf(*old(cs)),
        console_wf(old(con)@),
    ensures
        cs_wf(*final(cs)),
        console_wf(final(con)@),
        final(cs).command_ring == old(cs).command_ring,
        final(cs).ep0_ring == old(cs).ep0_ring,
        final(cs).event_ring == old(cs).event_ring,
        trb_type == TRB_TYPE_COMMAND_COMPLETION ==> {
            &&& final(cs).last_completion_code == Some((trb.status / 0x1000000) as u8)
            &&& final(cs).last_completed_slot == Some((trb.parameter % 256) as u8)
            &&& final(cs).intr_ring == old(cs).intr_ring
            &&& final(con)@ == old(con)@
        },
        trb_type == TRB_TYPE_TRANSFER_EVENT ==> {
            &&& final(cs).last_transfer_code == Some((trb.status / 0x1000000) as u8)
            &&& final(cs).last_transfer_len == Some((trb.status % 0x1000000) as u32)
            &&& final(cs).last_transfer_ep == Some(((trb.control / 0x10000) % 32) as u8)
            &&& final(cs).last_transfer_slot == old(cs).active_slot
        },
        trb_type == TRB_TYPE_TRANSFER_EVENT && spec_hid_repost(*old(cs), *trb) ==> {
            &&& final(con)@ == (if hid_report@.len() >= 3 {
                spec_hid_console(old(con)@, hid_report@[2], spec_hid_shift(hid_report@[0]))
            } else {
                old(con)@
            })
            &&& final(cs).intr_ring@ == spec_ring_enqueue(
                old(cs).intr_ring@,
                spec_work_trb(
                    (
                        old(cs).hid_buf_phys,
                        (if old(cs).hid_buf_len <= u32::MAX {
                            old(cs).hid_buf_len as int
                        } else {
                            u32::MAX as int
                        }) as u32,
                        (TRB_TYPE_NORMAL * 1024 + 32) as u32,
                    ),
                    old(cs).intr_ring@.cycle,
                ),
            )
            &&& match old(cs).active_slot {
                Some(slot) => final(cs).pending_doorbells@ == old(
                    cs,
                ).pending_doorbells@.push(
                    Doorbell { slot, target: old(cs).intr_ep_id as u32 },
                ),
                None => final(cs).pending_doorbells@ == old(cs).pending_doorbells@,
            }
        },
        trb_type == TRB_TYPE_TRANSFER_EVENT && !spec_hid_repost(*old(cs), *trb) ==> {
            &&& final(con)@ == old(con)@
            &&& final(cs).intr_ring == old(cs).intr_ring
            &&& final(cs).pending_doorbells == old(cs).pending_doorbells
        },
        trb_type != TRB_TYPE_COMMAND_COMPLETION && trb_type != TRB_TYPE_TRANSFER_EVENT ==> {
            &&& *final(cs) == *old(cs)
            &&& final(con)@ == old(con)@
        },
        cs_config_unchanged(*old(cs), *final(cs)),
        old(cs).pending_doorbells@.is_prefix_of(final(cs).pending_doorbells@),
        trb_type == TRB_TYPE_COMMAND_COMPLETION ==> {
            &&& final(cs).last_transfer_code == old(cs).last_transfer_code
            &&& final(cs).last_transfer_len == old(cs).last_transfer_len
            &&& final(cs).last_transfer_ep == old(cs).last_transfer_ep
            &&& final(cs).last_transfer_slot == old(cs).last_transfer_slot
            &&& final(cs).pending_doorbells == old(cs).pending_doorbells
        },
        trb_type == TRB_TYPE_TRANSFER_EVENT ==> {
            &&& final(cs).last_completion_code == old(cs).last_completion_code
            &&& final(cs).last_completed_slot == old(cs).last_completed_slot
        },
        trb_type == (trb.control / 1024) % 64 ==> spec_records_of(*final(cs))
            == spec_record_step(spec_records_of(*old(cs)), old(cs).active_slot, *trb),
{
    proof {
        assert(old(cs).pending_doorbells@.is_prefix_of(old(cs).pending_doorbells@)) by {
            assert(old(cs).pending_doorbells@.subrange(
                0,
                old(cs).pending_doorbells@.len() as int,
            ) =~= old(cs).pending_doorbells@);
        }
    }
    if trb_type == TRB_TYPE_COMMAND_COMPLETION {
        let completion_code: u8 = ((trb.status / 0x1000000) % 256) as u8;
        let slot_id: u8 = (trb.parameter % 256) as u8;
        cs.last_completion_code = Some(completion_code);
        cs.last_completed_slot = Some(slot_id);
        proof {
            assert(trb.status / 0x1000000 < 256);
        }
    } else if trb_type == TRB_TYPE_TRANSFER_EVENT {
        let completion_code: u8 = ((trb.status / 0x1000000) % 256) as u8;
        let trb_len: u32 = (trb.status % 0x1000000) as u32;
        let ep_id: u8 = ((trb.control / 0x10000) % 32) as u8;
        cs.last_transfer_code = Some(completion_code);
        cs.last_transfer_len = Some(trb_len);
        cs.last_transfer_ep = Some(ep_id);
        cs.last_transfer_slot = cs.active_slot;
        proof {
            assert(trb.status / 0x1000000 < 256);
        }

        // A successful poll of our interrupt endpoint: decode and re-post.
        if completion_code == 1 && cs.intr_ring.trbs.len() > 0 && ep_id == cs.intr_ep_id
            && cs.hid_buf_phys != 0 {
            if hid_report.len() >= 3 {
                decode_hid_report(hid_report, con);
            }
            let status: u32 = if cs.hid_buf_len <= u32::MAX as usize {
                cs.hid_buf_len as u32
            } else {
                u32::MAX
            };
            cs.intr_ring.enqueue_work(cs.hid_buf_phys, status, TRB_TYPE_NORMAL * 1024 + 32);
            let slot: u8 = match cs.active_slot {
                Some(s) => s,
                None => {
                    return;
                },
            };
            let target: u32 = cs.intr_ep_id as u32;
            cs.pending_doorbells.push(Doorbell { slot, target });
            proof {
                assert(old(cs).pending_doorbells@.is_prefix_of(cs.pending_doorbells@)) by {
                    assert(cs.pending_doorbells@.subrange(
                        0,
                        old(cs).pending_doorbells@.len() as int,
                    ) =~= old(cs).pending_doorbells@);
                }
            }
        }
    } else if trb_type == TRB_TYPE_PORT_STATUS_CHANGE {
        // Port changes are observed by the binary re-sampling PORTSC; the
        // driver state keeps nothing from them.
    } else {
        // Unknown event kinds are recorded nowhere and ignored.
    }
}

/// Drain every pending event from the event ring model, dispatching each
/// in consumption order. Returns whether anything was consumed. The final
/// consumer state is exactly the drained state; the bookkeeping fields
/// are the fold of the dispatched events over the old ones; and unless
/// the step budget ran out, no event is left pending. The binary copies
/// the DMA event segment into the model before calling and writes ERDP
/// back after.
#[verifier::rlimit(100)]
pub fn poll_events(cs: &mut ControllerState, con: &mut Console, hid_report: &Vec<u8>) -> (r:
    bool)
    requires
        cs_wf(*old(cs)),
        console_wf(old(con)@),
    ensures
        cs_wf(*final(cs)),
        console_wf(final(con)@),
        cs_config_unchanged(*old(cs), *final(cs)),
        old(cs).pending_doorbells@.is_prefix_of(final(cs).pending_doorbells@),
        old(cs).hid_buf_phys == 0 ==> final(cs).intr_ring == old(cs).intr_ring,
        r == spec_event_pending(old(cs).event_ring@),
        !r ==> *final(cs) == *old(cs) && final(con)@ == old(con)@,
        ({
            let fuel = spec_poll_fuel(old(cs).event_ring@.trbs.len() as int);
            let evs = spec_drain_events(old(cs).event_ring@, fuel);
            &&& final(cs).event_ring@ == spec_drained(old(cs).event_ring@, fuel)
            &&& spec_records_of(*final(cs)) == spec_records_after(
                spec_records_of(*old(cs)),
                old(cs).active_slot,
                evs,
            )
            &&& spec_poll_budget_fits(old(cs).event_ring@.trbs.len() as int)
                ==> !spec_event_pending(final(cs).event_ring@)
        }),
{
    let len: usize = cs.event_ring.trbs.len();
    let mut budget: usize = if len <= (usize::MAX - 1) / 2 {
        2 * len + 1
    } else {
        usize::MAX
    };
    let ghost fuel0 = spec_poll_fuel(len as int);
    proof {
        assert(budget == fuel0);
        if spec_poll_budget_fits(len as int) {
            lemma_poll_drains_fully(old(cs).event_ring@);
        }
        assert(old(cs).pending_doorbells@.is_prefix_of(old(cs).pending_doorbells@)) by {
            assert(old(cs).pending_doorbells@.subrange(
                0,
                old(cs).pending_doorbells@.len() as int,
            ) =~= old(cs).pending_doorbells@);
        }
    }
    let mut processed: bool = false;
    let ghost mut consumed: Seq<Trb> = Seq::empty();
    while budget > 0
        invariant
            cs_wf(*cs),
            console_wf(con@),
            cs_config_unchanged(*old(cs), *cs),
            old(cs).pending_doorbells@.is_prefix_of(cs.pending_doorbells@),
            old(cs).hid_buf_phys == 0 ==> cs.intr_ring == old(cs).intr_ring,
            fuel0 == spec_poll_fuel(old(cs).event_ring@.trbs.len() as int),
            budget <= fuel0,
            consumed.len() + budget == fuel0,
            spec_drained(old(cs).event_ring@, fuel0) == spec_drained(
                cs.event_ring@,
                budget as nat,
            ),
            spec_drain_events(old(cs).event_ring@, fuel0) == consumed + spec_drain_events(
                cs.event_ring@,
                budget as nat,
            ),
            spec_records_of(*cs) == spec_records_after(
                spec_records_of(*old(cs)),
                old(cs).active_slot,
                consumed,
            ),
            processed ==> spec_event_pending(old(cs).event_ring@) && consumed.len() > 0,
            !processed ==> budget == fuel0 && consumed =~= Seq::<Trb>::empty() && *cs == *old(
                cs,
            ) && con@ == old(con)@,
        decreases budget,
    {
        let ghost cur = cs.event_ring@;
        let ghost pd_before = cs.pending_doorbells@;
        let ghost rec_before = spec_records_of(*cs);
        let next: Option<Trb> = cs.event_ring.next_event();
        match next {
            Some(t) => {
                proof {
                    assert(cs.event_ring@ == spec_event_advance(cur)) by {
                        if cur.dequeue + 1 < cur.trbs.len() {
                            vstd::arithmetic::div_mod::lemma_small_mod(
                                (cur.dequeue + 1) as nat,
                                cur.trbs.len() as nat,
                            );
                        } else {
                            vstd::arithmetic::div_mod::lemma_mod_self_0(cur.trbs.len() as int);
                        }
                    }
                    assert(spec_drained(cur, budget as nat) == spec_drained(
                        spec_event_advance(cur),
                        (budget - 1) as nat,
                    ));
                    assert(spec_drain_events(cur, budget as nat) == seq![t]
                        + spec_drain_events(spec_event_advance(cur), (budget - 1) as nat));
                }
                let tt: u8 = ((t.control / 1024) % 64) as u8;
                handle_event(cs, con, hid_report, tt, &t);
                proof {
                    let cb = consumed;
                    consumed = consumed.push(t);
                    lemma_records_after_push(
                        spec_records_of(*old(cs)),
                        old(cs).active_slot,
                        cb,
                        t,
                    );
                    assert(spec_records_of(*cs) == spec_record_step(
                        rec_before,
                        old(cs).active_slot,
                        t,
                    ));
                    assert((cb + (seq![t] + spec_drain_events(
                        cs.event_ring@,
                        (budget - 1) as nat,
                    ))) =~= consumed + spec_drain_events(cs.event_ring@, (budget - 1) as nat));
                    assert(pd_before.is_prefix_of(cs.pending_doorbells@));
                    assert(old(cs).pending_doorbells@.is_prefix_of(cs.pending_doorbells@)) by {
                        assert(old(cs).pending_doorbells@ =~= cs.pending_doorbells@.subrange(
                            0,
                            old(cs).pending_doorbells@.len() as int,
                        ));
                    }
                }
                processed = true;
            },
            None => {
                proof {
                    assert(spec_drained(cur, budget as nat) == cur);
                    assert(spec_drain_events(cur, budget as nat) =~= Seq::<Trb>::empty());
                    assert(spec_drain_events(old(cs).event_ring@, fuel0) =~= consumed);
                }
                return processed;
            },
        }
        budget = budget - 1;
    }
    proof {
        assert(spec_drained(cs.event_ring@, 0) == cs.event_ring@);
        assert(spec_drain_events(cs.event_ring@, 0) =~= Seq::<Trb>::empty());
        assert(spec_drain_events(old(cs).event_ring@, fuel0) =~= consumed);
        assert(fuel0 >= 3);
    }
    processed
}

/// Poll until a command completion has been recorded, then take it;
/// `None` when the budget runs out first. Once the drain fits the poll
/// budget, the result is exactly the last command completion among the
/// consumed events (or the one already recorded).
pub fn wait_for_command_completion(
    cs: &mut ControllerState,
    con: &mut Console,
    hid_report: &Vec<u8>,
    iterations: usize,
) -> (r: Option<(u8, u8)>)
    requires
        cs_wf(*old(cs)),
        console_wf(old(con)@),
    ensures
        cs_wf(*final(cs)),
        console_wf(final(con)@),
        cs_config_unchanged(*old(cs), *final(cs)),
        old(cs).pending_doorbells@.is_prefix_of(final(cs).pending_doorbells@),
        old(cs).hid_buf_phys == 0 ==> final(cs).intr_ring == old(cs).intr_ring,
        r is Some ==> final(cs).last_completion_code is None,
        ({
            let fuel = spec_poll_fuel(old(cs).event_ring@.trbs.len() as int);
            let evs = spec_drain_events(old(cs).event_ring@, fuel);
            let b = spec_records_after(spec_records_of(*old(cs)), old(cs).active_slot, evs);
            iterations > 0 && spec_poll_budget_fits(old(cs).event_ring@.trbs.len() as int)
                ==> match b.completion_code {
                Some(code) => r == Some(
                    (
                        code,
                        match b.completed_slot {
                            Some(s) => s,
                            None => 0u8,
                        },
                    ),
                ),
                None => r is None,
            }
        }),
{
    let ghost fuel = spec_poll_fuel(old(cs).event_ring@.trbs.len() as int);
    let ghost evs = spec_drain_events(old(cs).event_ring@, fuel);
    let ghost b = spec_records_after(spec_records_of(*old(cs)), old(cs).active_slot, evs);
    let ghost hyp = spec_poll_budget_fits(old(cs).event_ring@.trbs.len() as int);
    proof {
        if spec_poll_budget_fits(old(cs).event_ring@.trbs.len() as int) {
            lemma_poll_drains_fully(old(cs).event_ring@);
        }
        assert(old(cs).pending_doorbells@.is_prefix_of(old(cs).pending_doorbells@)) by {
            assert(old(cs).pending_doorbells@.subrange(
                0,
                old(cs).pending_doorbells@.len() as int,
            ) =~= old(cs).pending_doorbells@);
        }
    }
    let mut i: usize = 0;
    while i < iterations
        invariant
            cs_wf(*cs),
            console_wf(con@),
            cs_config_unchanged(*old(cs), *cs),
            old(cs).pending_doorbells@.is_prefix_of(cs.pending_doorbells@),
            old(cs).hid_buf_phys == 0 ==> cs.intr_ring == old(cs).intr_ring,
            fuel == spec_poll_fuel(old(cs).event_ring@.trbs.len() as int),
            evs == spec_drain_events(old(cs).event_ring@, fuel),
            b == spec_records_after(spec_records_of(*old(cs)), old(cs).active_slot, evs),
            hyp == spec_poll_budget_fits(old(cs).event_ring@.trbs.len() as int),
            i == 0 ==> *cs == *old(cs) && con@ == old(con)@,
            i > 0 && hyp ==> spec_records_of(*cs) == b && b.completion_code is None
                && !spec_event_pending(cs.event_ring@),
        decreases iterations - i,
    {
        let _ = poll_events(cs, con, hid_report);
        proof {
            if i == 0 && hyp {
                assert(spec_records_of(*cs) == b);
                assert(!spec_event_pending(cs.event_ring@));
            }
            assert(old(cs).pending_doorbells@.is_prefix_of(cs.pending_doorbells@)) by {
                assert(old(cs).pending_doorbells@ =~= cs.pending_doorbells@.subrange(
                    0,
                    old(cs).pending_doorbells@.len() as int,
                ));
            }
        }
        match cs.last_completion_code {
            Some(code) => {
                cs.last_completion_code = None;
                let slot: u8 = match cs.last_completed_slot {
                    Some(s) => s,
                    None => 0,
                };
                cs.last_completed_slot = None;
                return Some((code, slot));
            },
            None => {},
        }
        i = i + 1;
    }
    None
}

/// Poll until a transfer event has been recorded, then take its code and
/// length; once the drain fits the budget, exactly the last transfer
/// event among the consumed events (or the one already recorded).
fn wait_for_transfer_event(
    cs: &mut ControllerState,
    con: &mut Console,
    hid_report: &Vec<u8>,
    iterations: usize,
) -> (r: Option<(u8, u32)>)
    requires
        cs_wf(*old(cs)),
        console_wf(old(con)@),
    ensures
        cs_wf(*final(cs)),
        console_wf(final(con)@),
        cs_config_unchanged(*old(cs), *final(cs)),
        old(cs).pending_doorbells@.is_prefix_of(final(cs).pending_doorbells@),
        old(cs).hid_buf_phys == 0 ==> final(cs).intr_ring == old(cs).intr_ring,
        ({
            let fuel = spec_poll_fuel(old(cs).event_ring@.trbs.len() as int);
            let evs = spec_drain_events(old(cs).event_ring@, fuel);
            let b = spec_records_after(spec_records_of(*old(cs)), old(cs).active_slot, evs);
            iterations > 0 && spec_poll_budget_fits(old(cs).event_ring@.trbs.len() as int)
                ==> match b.transfer_code {
                Some(code) => r == Some(
                    (
                        code,
                        match b.transfer_len {
                            Some(l) => l,
                            None => 0u32,
                        },
                    ),
                ),
                None => r is None,
            }
        }),
{
    let ghost fuel = spec_poll_fuel(old(cs).event_ring@.trbs.len() as int);
    let ghost evs = spec_drain_events(old(cs).event_ring@, fuel);
    let ghost b = spec_records_after(spec_records_of(*old(cs)), old(cs).active_slot, evs);
    let ghost hyp = spec_poll_budget_fits(old(cs).event_ring@.trbs.len() as int);
    proof {
        if spec_poll_budget_fits(old(cs).event_ring@.trbs.len() as int) {
            lemma_poll_drains_fully(old(cs).event_ring@);
        }
        assert(old(cs).pending_doorbells@.is_prefix_of(old(cs).pending_doorbells@)) by {
            assert(old(cs).pending_doorbells@.subrange(
                0,
                old(cs).pending_doorbells@.len() as int,
            ) =~= old(cs).pending_doorbells@);
        }
    }
    let mut i: usize = 0;
    while i < iterations
        invariant
            cs_wf(*cs),
            console_wf(con@),
            cs_config_unchanged(*old(cs), *cs),
            old(cs).pending_doorbells@.is_prefix_of(cs.pending_doorbells@),
            old(cs).hid_buf_phys == 0 ==> cs.intr_ring == old(cs).intr_ring,
            fuel == spec_poll_fuel(old(cs).event_ring@.trbs.len() as int),
            evs == spec_drain_events(old(cs).event_ring@, fuel),
            b == spec_records_after(spec_records_of(*old(cs)), old(cs).active_slot, evs),
            hyp == spec_poll_budget_fits(old(cs).event_ring@.trbs.len() as int),
            i == 0 ==> *cs == *old(cs) && con@ == old(con)@,
            i > 0 && hyp ==> spec_records_of(*cs) == b && b.transfer_code is None
                && !spec_event_pending(cs.event_ring@),
        decreases iterations - i,
    {
        let _ = poll_events(cs, con, hid_report);
        proof {
            if i == 0 && hyp {
                assert(spec_records_of(*cs) == b);
                assert(!spec_event_pending(cs.event_ring@));
            }
            assert(old(cs).pending_doorbells@.is_prefix_of(cs.pending_doorbells@)) by {
                assert(old(cs).pending_doorbells@ =~= cs.pending_doorbells@.subrange(
                    0,
                    old(cs).pending_doorbells@.len() as int,
                ));
            }
        }
        match cs.last_transfer_code {
            Some(code) => {
                cs.last_transfer_code = None;
                let len: u32 = match cs.last_transfer_len {
                    Some(l) => l,
                    None => 0,
                };
                cs.last_transfer_len = None;
                return Some((code, len));
            },
            None => {},
        }
        i = i + 1;
    }
    None
}

/// Enable Slot: queue the command, ring doorbell 0, and wait for a
/// successful completion carrying the new slot id. Once the drain fits
/// the poll budget, the slot comes back exactly when the last consumed
/// completion has code 1.
pub fn enable_slot(cs: &mut ControllerState, con: &mut Console, hid_report: &Vec<u8>) -> (r:
    Option<u8>)
    requires
        cs_wf(*old(cs)),
        console_wf(old(con)@),
    ensures
        cs_wf(*final(cs)),
        console_wf(final(con)@),
        final(cs).command_ring@ == spec_ring_enqueue(
            old(cs).command_ring@,
            spec_work_trb((0u64, 0u32, (TRB_TYPE_ENABLE_SLOT * 1024 + 32) as u32), old(
                cs,
            ).command_ring@.cycle),
        ),
        old(cs).pending_doorbells@.push(Doorbell { slot: 0, target: 0 }).is_prefix_of(
            final(cs).pending_doorbells@,
        ),
        ({
            let fuel = spec_poll_fuel(old(cs).event_ring@.trbs.len() as int);
            let evs = spec_drain_events(old(cs).event_ring@, fuel);
            let b = spec_records_after(spec_records_of(*old(cs)), old(cs).active_slot, evs);
            spec_poll_budget_fits(old(cs).event_ring@.trbs.len() as int)
                ==> match b.completion_code {
                Some(code) => {
                    if code == 1 {
                        r == Some(
                            match b.completed_slot {
                                Some(s) => s,
                                None => 0u8,
                            },
                        )
                    } else {
                        r is None
                    }
                },
                None => r is None,
            }
        }),
{
    enqueue_command_trb(cs, TRB_TYPE_ENABLE_SLOT, 0, 0);
    ring_doorbell(cs, 0, 0);
    match wait_for_command_completion(cs, con, hid_report, 1000000) {
        Some((code, slot)) => {
            if code == 1 {
                Some(slot)
            } else {
                None
            }
        },
        None => None,
    }
}

/// EP0's maximum packet size for a port speed code: SuperSpeed 512,
/// HighSpeed 64, Full/Low 8, anything else 64.
pub fn mps_for_speed(speed_code: u32) -> (r: u32)
    ensures
        r == if speed_code == 4 {
            512int
        } else if speed_code == 3 {
            64int
        } else if speed_code == 1 || speed_code == 2 {
            8int
        } else {
            64int
        },
{
    if speed_code == 4 {
        512
    } else if speed_code == 3 {
        64
    } else if speed_code == 1 || speed_code == 2 {
        8
    } else {
        64
    }
}

/// The dwords of the Address Device input context: add flags for slot
/// and EP0, the slot context with the port speed and one context entry,
/// and the EP0 context with the packet size for that speed and the ring's
/// dequeue pointer; zeros everywhere else.
pub open spec fn spec_ep0_input_context(
    ctx_size: int,
    speed_code: u32,
    ep0_ring_phys: u64,
) -> Seq<u32> {
    let dp = ctx_size / 4;
    Seq::new(
        (3 * dp) as nat,
        |i: int|
            (if i == 1 {
                3int
            } else if i == dp + 1 {
                speed_code * 0x100000
            } else if i == dp + 2 {
                0x08000000int
            } else if i == 2 * dp + 1 {
                (if speed_code == 4 {
                    512int
                } else if speed_code == 3 {
                    64int
                } else if speed_code == 1 || speed_code == 2 {
                    8int
                } else {
                    64int
                }) * 0x10000
            } else if i == 2 * dp + 2 {
                ep0_ring_phys as int % 0x100000000
            } else if i == 2 * dp + 3 {
                ep0_ring_phys as int / 0x100000000
            } else {
                0int
            }) as u32,
    )
}

/// The input context for Address Device: control context with add flags
/// for slot and EP0, a slot context carrying the port speed and one
/// context entry, and an EP0 context with the packet size for that speed
/// and the EP0 ring's dequeue pointer.
pub fn build_ep0_input_context(ctx_size: u16, speed_code: u32, ep0_ring_phys: u64) -> (r: Vec<
    u32,
>)
    requires
        ctx_size == 32 || ctx_size == 64,
        speed_code < 16,
        ep0_ring_phys % 16 == 0,
    ensures
        r@ == spec_ep0_input_context(ctx_size as int, speed_code, ep0_ring_phys),
{
    let dp: usize = (ctx_size as usize) / 4;
    let total: usize = 3 * dp;
    let mut dwords: Vec<u32> = Vec::new();
    let mut i: usize = 0;
    while i < total
        invariant
            i <= total,
            dwords@.len() == i,
            forall|k: int| 0 <= k < i ==> dwords@[k] == 0,
        decreases total - i,
    {
        dwords.push(0);
        i = i + 1;
    }
    // Control context: add slot and EP0.
    dwords.set(1, 3);
    // Slot context: route string 0, port speed, one context entry.
    dwords.set(dp, 0);
    dwords.set(dp + 1, speed_code * 0x100000);
    dwords.set(dp + 2, 0x08000000);
    // EP0 context: packet size and the transfer ring dequeue pointer.
    let mps: u32 = mps_for_speed(speed_code);
    dwords.set(2 * dp + 1, mps * 0x10000);
    dwords.set(2 * dp + 2, (ep0_ring_phys % 0x100000000) as u32);
    dwords.set(2 * dp + 3, (ep0_ring_phys / 0x100000000) as u32);
    proof {
        assert(dwords@ =~= spec_ep0_input_context(ctx_size as int, speed_code, ep0_ring_phys));
    }
    dwords
}

/// Address Device: allocate and install the device context, the EP0
/// transfer ring and the input context, queue the command for `slot_id`,
/// and wait for a successful completion naming that slot. On success the
/// slot becomes the active slot and EP0 is ready for control transfers.
pub fn address_device(
    cs: &mut ControllerState,
    con: &mut Console,
    hid_report: &Vec<u8>,
    alloc: &mut PhysAllocator,
    slot_id: u8,
    speed_code: u32,
) -> (r: bool)
    requires
        cs_wf(*old(cs)),
        console_wf(old(con)@),
        speed_code < 16,
        old(cs).info.hccparams1 < 0x100000000,
        slot_id < old(cs).dcbaa_slots@.len(),
    ensures
        cs_wf(*final(cs)),
        console_wf(final(con)@),
        r ==> final(cs).active_slot == Some(slot_id),
        r ==> ring_wf(final(cs).ep0_ring@),
        ({
            let ctx = if (old(cs).info.hccparams1 / 4) % 2 == 1 {
                64int
            } else {
                32int
            };
            let lay = spec_address_layout(old(alloc).next_free, old(alloc).limit, ctx);
            let fuel = spec_poll_fuel(old(cs).event_ring@.trbs.len() as int);
            let evs = spec_drain_events(old(cs).event_ring@, fuel);
            let b = spec_records_after(spec_records_of(*old(cs)), old(cs).active_slot, evs);
            &&& lay is None ==> r == false
            &&& lay is Some ==> {
                &&& final(cs).dcbaa_slots@ == old(cs).dcbaa_slots@.update(
                    slot_id as int,
                    lay->Some_0.0 as u64,
                )
                &&& final(cs).input_ctx_phys == lay->Some_0.2
                &&& final(cs).input_ctx@ == spec_ep0_input_context(
                    ctx,
                    speed_code,
                    lay->Some_0.1 as u64,
                )
                &&& final(cs).command_ring@ == spec_ring_enqueue(
                    old(cs).command_ring@,
                    spec_work_trb(
                        (
                            lay->Some_0.2 as u64,
                            0u32,
                            (TRB_TYPE_ADDRESS_DEVICE * 1024 + 32 + slot_id * 0x10000) as u32,
                        ),
                        old(cs).command_ring@.cycle,
                    ),
                )
                &&& old(cs).pending_doorbells@.push(
                    Doorbell { slot: 0, target: 0 },
                ).is_prefix_of(final(cs).pending_doorbells@)
                &&& final(alloc).next_free == lay->Some_0.3
                &&& spec_poll_budget_fits(old(cs).event_ring@.trbs.len() as int) ==> r
                    == (b.completion_code == Some(1u8) && (match b.completed_slot {
                    Some(s) => s,
                    None => 0u8,
                }) == slot_id)
                &&& r ==> final(cs).ep0_ring_phys == lay->Some_0.1 && ring_fresh(
                    final(cs).ep0_ring@,
                    lay->Some_0.1 as u64,
                ) && final(cs).ep0_ring@.trbs.len() == 64
            }
        }),
{
    let context_size: usize = cs.info.context_size() as usize;

    let dc_bytes: u64 = (context_size as u64) * 32;
    let dc_phys: u64 = match alloc_aligned(alloc, dc_bytes, 64) {
        Some(p) => p,
        None => {
            return false;
        },
    };
    cs.dcbaa_slots.set(slot_id as usize, dc_phys);

    let ep0_ring_phys: u64 = match alloc_aligned(alloc, 64 * 16, 64) {
        Some(p) => p,
        None => {
            return false;
        },
    };
    let ep0_ring = TransferRing::new(64, ep0_ring_phys);

    let ic_bytes: u64 = (context_size as u64) * 3;
    let ic_phys: u64 = match alloc_aligned(alloc, ic_bytes, 64) {
        Some(p) => p,
        None => {
            return false;
        },
    };
    proof {
        assert(ep0_ring_phys % 16 == 0) by {
            assert(ep0_ring_phys % 64 == 0);
            vstd::arithmetic::div_mod::lemma_mod_breakdown(ep0_ring_phys as int, 16, 4);
        }
    }
    let input_ctx: Vec<u32> = build_ep0_input_context(
        context_size as u16,
        speed_code,
        ep0_ring_phys,
    );
    cs.input_ctx_phys = ic_phys;
    cs.input_ctx = input_ctx;

    enqueue_command_trb_slot(cs, TRB_TYPE_ADDRESS_DEVICE, ic_phys, 0, slot_id);
    ring_doorbell(cs, 0, 0);
    match wait_for_command_completion(cs, con, hid_report, 1000000) {
        Some((code, slot)) => {
            if code == 1 && slot == slot_id {
                cs.active_slot = Some(slot_id);
                cs.ep0_ring_phys = ep0_ring_phys;
                cs.ep0_ring = ep0_ring;
                true
            } else {
                false
            }
        },
        None => false,
    }
}

/// The little-endian image of a setup packet, as the Setup Stage TRB's
/// parameter carries it.
pub open spec fn spec_setup_parameter(
    request_type: u8,
    request: u8,
    value: u16,
    index: u16,
    length: u16,
) -> int {
    request_type + request * 0x100 + value * 0x10000 + index * 0x100000000
        + length * 0x1000000000000
}

/// The three EP0 work items of a control IN transfer: Setup, Data (IN),
/// Status (OUT), each eight bytes of setup, buffer, or nothing.
pub open spec fn spec_control_in_items(
    request_type: u8,
    request: u8,
    value: u16,
    index: u16,
    length: u16,
    data_phys: u64,
) -> Seq<(u64, u32, u32)> {
    seq![
        (
            spec_setup_parameter(request_type, request, value, index, length) as u64,
            8u32,
            (TRB_TYPE_SETUP_STAGE * 1024 + 32) as u32,
        ),
        (data_phys, length as u32, (TRB_TYPE_DATA_STAGE * 1024 + 32 + 0x10000) as u32),
        (0u64, 0u32, (TRB_TYPE_STATUS_STAGE * 1024 + 32) as u32),
    ]
}

/// The two EP0 work items of a control transfer without data: Setup, then
/// Status with IN direction.
pub open spec fn spec_control_no_data_items(
    request_type: u8,
    request: u8,
    value: u16,
    index: u16,
) -> Seq<(u64, u32, u32)> {
    seq![
        (
            spec_setup_parameter(request_type, request, value, index, 0) as u64,
            8u32,
            (TRB_TYPE_SETUP_STAGE * 1024 + 32) as u32,
        ),
        (0u64, 0u32, (TRB_TYPE_STATUS_STAGE * 1024 + 32 + 0x10000) as u32),
    ]
}

fn setup_parameter(request_type: u8, request: u8, value: u16, index: u16, length: u16) -> (r:
    u64)
    ensures
        r == spec_setup_parameter(request_type, request, value, index, length),
{
    (request_type as u64) + (request as u64) * 0x100 + (value as u64) * 0x10000 + (index as u64)
        * 0x100000000 + (length as u64) * 0x1000000000000
}

/// A control IN transfer on EP0: Setup, Data and Status stages queued with
/// the ring's running cycle bit, the slot's EP0 doorbell rung, success when
/// the transfer event completes with code 1.
pub fn control_in(
    cs: &mut ControllerState,
    con: &mut Console,
    hid_report: &Vec<u8>,
    slot_id: u8,
    request_type: u8,
    request: u8,
    value: u16,
    index: u16,
    length: u16,
    data_phys: u64,
) -> (r: bool)
    requires
        cs_wf(*old(cs)),
        console_wf(old(con)@),
    ensures
        cs_wf(*final(cs)),
        console_wf(final(con)@),
        old(cs).ep0_ring@.trbs.len() >= 2 ==> final(cs).ep0_ring@ == spec_enqueue_all(
            old(cs).ep0_ring@,
            spec_control_in_items(request_type, request, value, index, length, data_phys),
        ),
        final(cs).command_ring == old(cs).command_ring,
        old(cs).ep0_ring@.trbs.len() < 2 ==> {
            &&& r == false
            &&& *final(cs) == *old(cs)
            &&& final(con)@ == old(con)@
        },
        old(cs).ep0_ring@.trbs.len() >= 2 ==> old(cs).pending_doorbells@.push(
            Doorbell { slot: slot_id, target: 1 },
        ).is_prefix_of(final(cs).pending_doorbells@),
        ({
            let fuel = spec_poll_fuel(old(cs).event_ring@.trbs.len() as int);
            let evs = spec_drain_events(old(cs).event_ring@, fuel);
            let b = spec_records_after(spec_records_of(*old(cs)), old(cs).active_slot, evs);
            old(cs).ep0_ring@.trbs.len() >= 2 && spec_poll_budget_fits(
                old(cs).event_ring@.trbs.len() as int,
            ) ==> r == (b.transfer_code == Some(1u8))
        }),
{
    if cs.ep0_ring.trbs.len() < 2 {
        return false;
    }
    let setup_param: u64 = setup_parameter(request_type, request, value, index, length);
    let ghost items = spec_control_in_items(
        request_type,
        request,
        value,
        index,
        length,
        data_phys,
    );
    let ghost e0 = cs.ep0_ring@;
    cs.ep0_ring.enqueue_work(setup_param, 8, TRB_TYPE_SETUP_STAGE * 1024 + 32);
    cs.ep0_ring.enqueue_work(data_phys, length as u32, TRB_TYPE_DATA_STAGE * 1024 + 32 + 0x10000);
    cs.ep0_ring.enqueue_work(0, 0, TRB_TYPE_STATUS_STAGE * 1024 + 32);
    proof {
        reveal_with_fuel(spec_enqueue_all, 4);
        assert(items.drop_first() =~= items.subrange(1, 3));
        assert(items.drop_first().drop_first() =~= items.subrange(2, 3));
        assert(items.drop_first().drop_first().drop_first()
            =~= Seq::<(u64, u32, u32)>::empty());
        assert(cs.ep0_ring@ == spec_enqueue_all(e0, items));
    }
    ring_doorbell(cs, slot_id, 1);

    match wait_for_transfer_event(cs, con, hid_report, 1000000) {
        Some((code, _len)) => code == 1,
        None => false,
    }
}

/// A control transfer without a data stage: Setup then Status (IN).
pub fn control_no_data(
    cs: &mut ControllerState,
    con: &mut Console,
    hid_report: &Vec<u8>,
    slot_id: u8,
    request_type: u8,
    request: u8,
    value: u16,
    index: u16,
) -> (r: bool)
    requires
        cs_wf(*old(cs)),
        console_wf(old(con)@),
    ensures
        cs_wf(*final(cs)),
        console_wf(final(con)@),
        old(cs).ep0_ring@.trbs.len() >= 2 ==> final(cs).ep0_ring@ == spec_enqueue_all(
            old(cs).ep0_ring@,
            spec_control_no_data_items(request_type, request, value, index),
        ),
        final(cs).command_ring == old(cs).command_ring,
        old(cs).ep0_ring@.trbs.len() < 2 ==> {
            &&& r == false
            &&& *final(cs) == *old(cs)
            &&& final(con)@ == old(con)@
        },
        old(cs).ep0_ring@.trbs.len() >= 2 ==> old(cs).pending_doorbells@.push(
            Doorbell { slot: slot_id, target: 1 },
        ).is_prefix_of(final(cs).pending_doorbells@),
        ({
            let fuel = spec_poll_fuel(old(cs).event_ring@.trbs.len() as int);
            let evs = spec_drain_events(old(cs).event_ring@, fuel);
            let b = spec_records_after(spec_records_of(*old(cs)), old(cs).active_slot, evs);
            old(cs).ep0_ring@.trbs.len() >= 2 && spec_poll_budget_fits(
                old(cs).event_ring@.trbs.len() as int,
            ) ==> r == (b.transfer_code == Some(1u8))
        }),
{
    if cs.ep0_ring.trbs.len() < 2 {
        return false;
    }
    let setup_param: u64 = setup_parameter(request_type, request, value, index, 0);
    let ghost items = spec_control_no_data_items(request_type, request, value, index);
    let ghost e0 = cs.ep0_ring@;
    cs.ep0_ring.enqueue_work(setup_param, 8, TRB_TYPE_SETUP_STAGE * 1024 + 32);
    cs.ep0_ring.enqueue_work(0, 0, TRB_TYPE_STATUS_STAGE * 1024 + 32 + 0x10000);
    proof {
        reveal_with_fuel(spec_enqueue_all, 3);
        assert(items.drop_first() =~= items.subrange(1, 2));
        assert(items.drop_first().drop_first() =~= Seq::<(u64, u32, u32)>::empty());
        assert(cs.ep0_ring@ == spec_enqueue_all(e0, items));
    }
    ring_doorbell(cs, slot_id, 1);

    match wait_for_transfer_event(cs, con, hid_report, 1000000) {
        Some((code, _len)) => code == 1,
        None => false,
    }
}

/// GET_DESCRIPTOR(DEVICE, 18 bytes) into a fresh buffer; its address on
/// success. The binary reads the descriptor out of that buffer.
pub fn get_device_descriptor(
    cs: &mut ControllerState,
    con: &mut Console,
    hid_report: &Vec<u8>,
    alloc: &mut PhysAllocator,
    slot_id: u8,
) -> (r: Option<u64>)
    requires
        cs_wf(*old(cs)),
        console_wf(old(con)@),
    ensures
        cs_wf(*final(cs)),
        console_wf(final(con)@),
        final(cs).command_ring == old(cs).command_ring,
        match r {
            Some(p) => p % 64 == 0,
            None => true,
        },
        ({
            let al = spec_alloc(old(alloc).next_free, old(alloc).limit, 256, 64);
            let fuel = spec_poll_fuel(old(cs).event_ring@.trbs.len() as int);
            let evs = spec_drain_events(old(cs).event_ring@, fuel);
            let b = spec_records_after(spec_records_of(*old(cs)), old(cs).active_slot, evs);
            &&& al is None ==> r is None && *final(cs) == *old(cs)
            &&& al is Some && old(cs).ep0_ring@.trbs.len() < 2 ==> r is None
            &&& al is Some && old(cs).ep0_ring@.trbs.len() >= 2 ==> {
                &&& final(cs).ep0_ring@ == spec_enqueue_all(
                    old(cs).ep0_ring@,
                    spec_control_in_items(0x80, 6, 0x100, 0, 18, al->Some_0.0 as u64),
                )
                &&& old(cs).pending_doorbells@.push(
                    Doorbell { slot: slot_id, target: 1 },
                ).is_prefix_of(final(cs).pending_doorbells@)
                &&& r is Some ==> r->Some_0 == al->Some_0.0
                &&& spec_poll_budget_fits(old(cs).event_ring@.trbs.len() as int) ==> (
                r is Some <==> b.transfer_code == Some(1u8))
            }
        }),
{
    let buf_phys: u64 = match alloc_aligned(alloc, 256, 64) {
        Some(p) => p,
        None => {
            return None;
        },
    };
    let ok: bool = control_in(cs, con, hid_report, slot_id, 0x80, 6, 0x100, 0, 18, buf_phys);
    if ok {
        Some(buf_phys)
    } else {
        None
    }
}

/// GET_DESCRIPTOR(CONFIGURATION, 9 bytes) into a fresh buffer, to learn
/// the total length and the configuration value.
pub fn get_configuration_descriptor_header(
    cs: &mut ControllerState,
    con: &mut Console,
    hid_report: &Vec<u8>,
    alloc: &mut PhysAllocator,
    slot_id: u8,
) -> (r: Option<u64>)
    requires
        cs_wf(*old(cs)),
        console_wf(old(con)@),
    ensures
        cs_wf(*final(cs)),
        console_wf(final(con)@),
        final(cs).command_ring == old(cs).command_ring,
        match r {
            Some(p) => p % 64 == 0,
            None => true,
        },
        ({
            let al = spec_alloc(old(alloc).next_free, old(alloc).limit, 64, 64);
            let fuel = spec_poll_fuel(old(cs).event_ring@.trbs.len() as int);
            let evs = spec_drain_events(old(cs).event_ring@, fuel);
            let b = spec_records_after(spec_records_of(*old(cs)), old(cs).active_slot, evs);
            &&& al is None ==> r is None && *final(cs) == *old(cs)
            &&& al is Some && old(cs).ep0_ring@.trbs.len() < 2 ==> r is None
            &&& al is Some && old(cs).ep0_ring@.trbs.len() >= 2 ==> {
                &&& final(cs).ep0_ring@ == spec_enqueue_all(
                    old(cs).ep0_ring@,
                    spec_control_in_items(0x80, 6, 0x200, 0, 9, al->Some_0.0 as u64),
                )
                &&& old(cs).pending_doorbells@.push(
                    Doorbell { slot: slot_id, target: 1 },
                ).is_prefix_of(final(cs).pending_doorbells@)
                &&& r is Some ==> r->Some_0 == al->Some_0.0
                &&& spec_poll_budget_fits(old(cs).event_ring@.trbs.len() as int) ==> (
                r is Some <==> b.transfer_code == Some(1u8))
            }
        }),
{
    let buf_phys: u64 = match alloc_aligned(alloc, 64, 64) {
        Some(p) => p,
        None => {
            return None;
        },
    };
    let ok: bool = control_in(cs, con, hid_report, slot_id, 0x80, 6, 0x200, 0, 9, buf_phys);
    if ok {
        Some(buf_phys)
    } else {
        None
    }
}

/// The interesting fields of the 9-byte configuration descriptor header:
/// wTotalLength (little-endian at 2..4) and bConfigurationValue (at 5).
pub fn parse_config_descriptor_header(bytes: &Vec<u8>) -> (r: Option<(u16, u8)>)
    ensures
        match r {
            Some(p) => {
                &&& bytes@.len() >= 9
                &&& p.0 == bytes@[2] + 256 * bytes@[3]
                &&& p.1 == bytes@[5]
            },
            None => bytes@.len() < 9,
        },
{
    if bytes.len() < 9 {
        return None;
    }
    let total: u16 = (bytes[2] as u16) + 256 * (bytes[3] as u16);
    Some((total, bytes[5]))
}

/// GET_DESCRIPTOR(CONFIGURATION, wTotalLength) into a fresh buffer.
pub fn get_configuration_descriptor(
    cs: &mut ControllerState,
    con: &mut Console,
    hid_report: &Vec<u8>,
    alloc: &mut PhysAllocator,
    slot_id: u8,
    total_len: u16,
) -> (r: Option<u64>)
    requires
        cs_wf(*old(cs)),
        console_wf(old(con)@),
    ensures
        cs_wf(*final(cs)),
        console_wf(final(con)@),
        final(cs).command_ring == old(cs).command_ring,
        match r {
            Some(p) => p % 64 == 0,
            None => true,
        },
        ({
            let al = spec_alloc(old(alloc).next_free, old(alloc).limit, total_len as u64, 64);
            let fuel = spec_poll_fuel(old(cs).event_ring@.trbs.len() as int);
            let evs = spec_drain_events(old(cs).event_ring@, fuel);
            let b = spec_records_after(spec_records_of(*old(cs)), old(cs).active_slot, evs);
            &&& al is None ==> r is None && *final(cs) == *old(cs)
            &&& al is Some && old(cs).ep0_ring@.trbs.len() < 2 ==> r is None
            &&& al is Some && old(cs).ep0_ring@.trbs.len() >= 2 ==> {
                &&& final(cs).ep0_ring@ == spec_enqueue_all(
                    old(cs).ep0_ring@,
                    spec_control_in_items(0x80, 6, 0x200, 0, total_len, al->Some_0.0 as u64),
                )
                &&& old(cs).pending_doorbells@.push(
                    Doorbell { slot: slot_id, target: 1 },
                ).is_prefix_of(final(cs).pending_doorbells@)
                &&& r is Some ==> r->Some_0 == al->Some_0.0
                &&& spec_poll_budget_fits(old(cs).event_ring@.trbs.len() as int) ==> (
                r is Some <==> b.transfer_code == Some(1u8))
            }
        }),
{
    let buf_phys: u64 = match alloc_aligned(alloc, total_len as u64, 64) {
        Some(p) => p,
        None => {
            return None;
        },
    };
    let ok: bool = control_in(
        cs,
        con,
        hid_report,
        slot_id,
        0x80,
        6,
        0x200,
        0,
        total_len,
        buf_phys,
    );
    if ok {
        Some(buf_phys)
    } else {
        None
    }
}

/// SET_CONFIGURATION via a control transfer without data.
pub fn set_configuration(
    cs: &mut ControllerState,
    con: &mut Console,
    hid_report: &Vec<u8>,
    slot_id: u8,
    cfg_value: u8,
) -> (r: bool)
    requires
        cs_wf(*old(cs)),
        console_wf(old(con)@),
    ensures
        cs_wf(*final(cs)),
        console_wf(final(con)@),
        final(cs).command_ring == old(cs).command_ring,
        old(cs).ep0_ring@.trbs.len() < 2 ==> {
            &&& r == false
            &&& *final(cs) == *old(cs)
        },
        old(cs).ep0_ring@.trbs.len() >= 2 ==> {
            &&& final(cs).ep0_ring@ == spec_enqueue_all(
                old(cs).ep0_ring@,
                spec_control_no_data_items(0x00, 9, cfg_value as u16, 0),
            )
            &&& old(cs).pending_doorbells@.push(
                Doorbell { slot: slot_id, target: 1 },
            ).is_prefix_of(final(cs).pending_doorbells@)
        },
        ({
            let fuel = spec_poll_fuel(old(cs).event_ring@.trbs.len() as int);
            let evs = spec_drain_events(old(cs).event_ring@, fuel);
            let b = spec_records_after(spec_records_of(*old(cs)), old(cs).active_slot, evs);
            old(cs).ep0_ring@.trbs.len() >= 2 && spec_poll_budget_fits(
                old(cs).event_ring@.trbs.len() as int,
            ) ==> r == (b.transfer_code == Some(1u8))
        }),
{
    control_no_data(cs, con, hid_report, slot_id, 0x00, 9, cfg_value as u16, 0)
}

/// Walk a configuration descriptor looking for the interrupt IN endpoint
/// of a HID boot keyboard interface, from byte `i`, knowing whether the
/// walk currently stands inside such an interface.
pub open spec fn spec_find_kbd_ep(s: Seq<u8>, i: int, in_hid: bool) -> Option<(u8, u16, u8)>
    decreases s.len() - i,
{
    if i < 0 || i + 2 > s.len() {
        None
    } else if s[i] == 0 {
        None
    } else if i + s[i] > s.len() {
        None
    } else if s[i + 1] == 4 && s[i] >= 9 {
        spec_find_kbd_ep(s, i + s[i], s[i + 5] == 3 && s[i + 6] == 1 && s[i + 7] == 1)
    } else if s[i + 1] == 5 && in_hid && s[i] >= 7 && s[i + 2] >= 0x80 && s[i + 3] % 4 == 3 {
        Some((s[i + 2], (s[i + 4] + 256 * s[i + 5]) as u16, s[i + 6]))
    } else {
        spec_find_kbd_ep(s, i + s[i], in_hid)
    }
}

/// Find the boot keyboard's interrupt IN endpoint in a configuration
/// descriptor: an interface with class 3, subclass 1, protocol 1 opens the
/// scope; inside it, an endpoint whose address has the IN bit and whose
/// attributes say interrupt yields `(address, max packet size, interval)`.
pub fn parse_hid_keyboard_endpoint(bytes: &Vec<u8>) -> (r: Option<(u8, u16, u8)>)
    ensures
        r == spec_find_kbd_ep(bytes@, 0, false),
{
    let n: usize = bytes.len();
    let mut i: usize = 0;
    let mut in_hid_iface: bool = false;
    while i < n && n - i >= 2
        invariant
            n == bytes@.len(),
            i <= n,
            spec_find_kbd_ep(bytes@, 0, false) == spec_find_kbd_ep(bytes@, i as int, in_hid_iface),
        decreases n - i,
    {
        let b_len: usize = bytes[i] as usize;
        if b_len == 0 {
            return None;
        }
        if b_len > n - i {
            return None;
        }
        let dtype: u8 = bytes[i + 1];
        if dtype == 4 {
            if b_len >= 9 {
                let class: u8 = bytes[i + 5];
                let subclass: u8 = bytes[i + 6];
                let proto: u8 = bytes[i + 7];
                in_hid_iface = class == 3 && subclass == 1 && proto == 1;
            }
        } else if dtype == 5 {
            if in_hid_iface && b_len >= 7 {
                let addr: u8 = bytes[i + 2];
                let attrs: u8 = bytes[i + 3] % 4;
                let maxp: u16 = (bytes[i + 4] as u16) + 256 * (bytes[i + 5] as u16);
                let interval: u8 = bytes[i + 6];
                if addr >= 0x80 && attrs == 3 {
                    return Some((addr, maxp, interval));
                }
            }
        }
        i = i + b_len;
    }
    None
}

/// xHCI endpoint ids: `number * 2`, plus one for the IN direction; EP0 is
/// id 1.
pub fn endpoint_id_from_addr(addr: u8) -> (r: u8)
    ensures
        r == (addr % 16) * 2 + if addr >= 0x80 {
            1int
        } else {
            0int
        },
{
    let ep: u8 = addr % 16;
    let dir_in: bool = addr >= 0x80;
    ep * 2 + if dir_in {
        1
    } else {
        0
    }
}

/// Powers of two up to `1 << 31`, for add-context flags.
fn pow2_u32(k: u8) -> (r: u32)
    requires
        k < 32,
    ensures
        r == vstd::arithmetic::power2::pow2(k as nat),
{
    let mut r: u32 = 1;
    let mut i: u8 = 0;
    proof {
        vstd::arithmetic::power2::lemma2_to64();
    }
    while i < k
        invariant
            i <= k < 32,
            r == vstd::arithmetic::power2::pow2(i as nat),
        decreases k - i,
    {
        proof {
            vstd::arithmetic::power2::lemma_pow2_unfold((i + 1) as nat);
            vstd::arithmetic::power2::lemma_pow2_strictly_increases((i + 1) as nat, 32);
            vstd::arithmetic::power2::lemma2_to64();
        }
        r = r * 2;
        i = i + 1;
    }
    r
}

/// The dwords of the Configure Endpoint input context: add flags for the
/// slot and the target endpoint, the slot's context-entries raised to the
/// endpoint id, and an endpoint context with the packet size and the
/// interrupt ring's dequeue pointer; zeros everywhere else.
pub open spec fn spec_configure_ep_input_context(
    ctx_size: int,
    ep_id: u8,
    maxp: u16,
    ring_phys: u64,
) -> Seq<u32> {
    let dp = ctx_size / 4;
    Seq::new(
        (dp * (2 + ep_id)) as nat,
        |i: int|
            (if i == 1 {
                1 + vstd::arithmetic::power2::pow2(ep_id as nat) as int
            } else if i == dp + 2 {
                ep_id * 0x08000000
            } else if i == dp * (1 + ep_id) + 1 {
                maxp * 0x10000
            } else if i == dp * (1 + ep_id) + 2 {
                ring_phys as int % 0x100000000
            } else if i == dp * (1 + ep_id) + 3 {
                ring_phys as int / 0x100000000
            } else {
                0int
            }) as u32,
    )
}

/// The input context for Configure Endpoint: add flags for the slot and
/// the target endpoint, the slot's context-entries raised to the endpoint
/// id, and an endpoint context with the packet size and the interrupt
/// ring's dequeue pointer.
#[verifier::rlimit(100)]
#[verifier::spinoff_prover]
pub fn build_configure_ep_input_context(
    ctx_size: u16,
    ep_id: u8,
    maxp: u16,
    ring_phys: u64,
) -> (r: Vec<u32>)
    requires
        ctx_size == 32 || ctx_size == 64,
        1 <= ep_id < 32,
        ring_phys % 16 == 0,
    ensures
        r@ == spec_configure_ep_input_context(ctx_size as int, ep_id, maxp, ring_phys),
{
    let dp: usize = (ctx_size as usize) / 4;
    proof {
        assert(dp * (2 + ep_id as int) <= 16 * 34 && dp * (1 + ep_id as int) + 4 <= dp * (2
            + ep_id as int) && dp + 3 <= dp * (2 + ep_id as int) && 2 * dp <= dp * (1
            + ep_id as int)) by (nonlinear_arith)
            requires
                0 <= dp <= 16,
                4 <= dp,
                1 <= ep_id < 32,
        ;
    }
    let total: usize = dp * (2 + ep_id as usize);
    let mut dwords: Vec<u32> = Vec::new();
    let mut i: usize = 0;
    while i < total
        invariant
            i <= total,
            dwords@.len() == i,
            forall|k: int| 0 <= k < i ==> dwords@[k] == 0,
        decreases total - i,
    {
        dwords.push(0);
        i = i + 1;
    }
    let flag: u32 = pow2_u32(ep_id);
    proof {
        vstd::arithmetic::power2::lemma_pow2_strictly_increases(ep_id as nat, 32);
        vstd::arithmetic::power2::lemma2_to64();
    }
    dwords.set(1, 1 + flag);
    dwords.set(dp + 2, (ep_id as u32) * 0x08000000);
    let ep_base: usize = dp * (1 + ep_id as usize);
    dwords.set(ep_base + 1, (maxp as u32) * 0x10000);
    dwords.set(ep_base + 2, (ring_phys % 0x100000000) as u32);
    dwords.set(ep_base + 3, (ring_phys / 0x100000000) as u32);
    proof {
        let dpg = ctx_size as int / 4;
        assert(dpg * (1 + ep_id) >= 2 * dpg && dpg * (1 + ep_id) + 4 <= dpg * (2 + ep_id))
            by (nonlinear_arith)
            requires
                dpg >= 4,
                1 <= ep_id,
        ;
        assert(dwords@ =~= spec_configure_ep_input_context(
            ctx_size as int,
            ep_id,
            maxp,
            ring_phys,
        ));
    }
    dwords
}

/// Configure Endpoint for the keyboard's interrupt IN endpoint: allocate
/// its 128-TRB ring and input context, queue the command, and on a
/// successful completion remember the endpoint and its ring.
pub fn configure_interrupt_in_endpoint(
    cs: &mut ControllerState,
    con: &mut Console,
    hid_report: &Vec<u8>,
    alloc: &mut PhysAllocator,
    slot_id: u8,
    ep_addr: u8,
    maxp: u16,
    interval: u8,
) -> (r: bool)
    requires
        cs_wf(*old(cs)),
        console_wf(old(con)@),
        ep_addr >= 0x80,
    ensures
        cs_wf(*final(cs)),
        console_wf(final(con)@),
        r ==> ring_wf(final(cs).intr_ring@) && final(cs).intr_ep_addr == ep_addr,
        ({
            let ctx = if (old(cs).info.hccparams1 / 4) % 2 == 1 {
                64int
            } else {
                32int
            };
            let ep_id = ((ep_addr % 16) * 2 + 1) as u8;
            let lay = spec_configure_layout(old(alloc).next_free, old(alloc).limit, ctx, ep_id);
            let fuel = spec_poll_fuel(old(cs).event_ring@.trbs.len() as int);
            let evs = spec_drain_events(old(cs).event_ring@, fuel);
            let b = spec_records_after(spec_records_of(*old(cs)), old(cs).active_slot, evs);
            &&& lay is None ==> r == false
            &&& lay is Some ==> {
                &&& final(cs).input_ctx_phys == lay->Some_0.1
                &&& final(cs).input_ctx@ == spec_configure_ep_input_context(
                    ctx,
                    ep_id,
                    maxp,
                    lay->Some_0.0 as u64,
                )
                &&& final(cs).command_ring@ == spec_ring_enqueue(
                    old(cs).command_ring@,
                    spec_work_trb(
                        (
                            lay->Some_0.1 as u64,
                            0u32,
                            (TRB_TYPE_CONFIGURE_ENDPOINT * 1024 + 32 + slot_id
                                * 0x10000) as u32,
                        ),
                        old(cs).command_ring@.cycle,
                    ),
                )
                &&& old(cs).pending_doorbells@.push(
                    Doorbell { slot: 0, target: 0 },
                ).is_prefix_of(final(cs).pending_doorbells@)
                &&& final(alloc).next_free == lay->Some_0.2
                &&& spec_poll_budget_fits(old(cs).event_ring@.trbs.len() as int) ==> r
                    == (b.completion_code == Some(1u8) && (match b.completed_slot {
                    Some(s) => s,
                    None => 0u8,
                }) == slot_id)
                &&& r ==> final(cs).intr_ep_id == ep_id && final(cs).intr_ring_phys
                    == lay->Some_0.0 && ring_fresh(final(cs).intr_ring@, lay->Some_0.0 as u64)
                    && final(cs).intr_ring@.trbs.len() == 128
            }
        }),
{
    let _ = interval;
    let ep_id: u8 = endpoint_id_from_addr(ep_addr);
    let ctx_size: usize = cs.info.context_size() as usize;

    let ring_phys: u64 = match alloc_aligned(alloc, 128 * 16, 64) {
        Some(p) => p,
        None => {
            return false;
        },
    };
    let ring = TransferRing::new(128, ring_phys);

    let ic_entries: u64 = 2 + (ep_id as u64);
    proof {
        assert((ctx_size as u64) * ic_entries <= 64 * 33) by (nonlinear_arith)
            requires
                0 <= ctx_size <= 64,
                0 <= ic_entries <= 33,
        ;
    }
    let ic_bytes: u64 = (ctx_size as u64) * ic_entries;
    let ic_phys: u64 = match alloc_aligned(alloc, ic_bytes, 64) {
        Some(p) => p,
        None => {
            return false;
        },
    };
    proof {
        assert(ring_phys % 16 == 0) by {
            assert(ring_phys % 64 == 0);
            vstd::arithmetic::div_mod::lemma_mod_breakdown(ring_phys as int, 16, 4);
        }
    }
    let input_ctx: Vec<u32> = build_configure_ep_input_context(
        ctx_size as u16,
        ep_id,
        maxp,
        ring_phys,
    );
    cs.input_ctx_phys = ic_phys;
    cs.input_ctx = input_ctx;

    enqueue_command_trb_slot(cs, TRB_TYPE_CONFIGURE_ENDPOINT, ic_phys, 0, slot_id);
    ring_doorbell(cs, 0, 0);
    match wait_for_command_completion(cs, con, hid_report, 1000000) {
        Some((code, slot)) => {
            if code == 1 && slot == slot_id {
                cs.intr_ep_addr = ep_addr;
                cs.intr_ep_id = ep_id;
                cs.intr_ring_phys = ring_phys;
                cs.intr_ring = ring;
                true
            } else {
                false
            }
        },
        None => false,
    }
}

/// Post one Normal TRB on the interrupt ring into a fresh buffer and wait
/// for its transfer event; the buffer address on success.
pub fn request_hid_report_once(
    cs: &mut ControllerState,
    con: &mut Console,
    hid_report: &Vec<u8>,
    alloc: &mut PhysAllocator,
    slot_id: u8,
    ep_addr: u8,
    maxp: u16,
) -> (r: Option<u64>)
    requires
        cs_wf(*old(cs)),
        console_wf(old(con)@),
    ensures
        cs_wf(*final(cs)),
        console_wf(final(con)@),
        final(cs).command_ring == old(cs).command_ring,
        match r {
            Some(p) => p % 64 == 0,
            None => true,
        },
        ({
            let al = spec_alloc(old(alloc).next_free, old(alloc).limit, maxp as u64, 64);
            let fuel = spec_poll_fuel(old(cs).event_ring@.trbs.len() as int);
            let evs = spec_drain_events(old(cs).event_ring@, fuel);
            let b = spec_records_after(spec_records_of(*old(cs)), old(cs).active_slot, evs);
            &&& al is None ==> r is None && *final(cs) == *old(cs)
            &&& al is Some && old(cs).intr_ring@.trbs.len() < 2 ==> r is None
            &&& al is Some && old(cs).intr_ring@.trbs.len() >= 2 ==> {
                &&& old(cs).hid_buf_phys == 0 ==> final(cs).intr_ring@ == spec_ring_enqueue(
                    old(cs).intr_ring@,
                    spec_work_trb(
                        (
                            al->Some_0.0 as u64,
                            maxp as u32,
                            (TRB_TYPE_NORMAL * 1024 + 32) as u32,
                        ),
                        old(cs).intr_ring@.cycle,
                    ),
                )
                &&& old(cs).pending_doorbells@.push(
                    Doorbell {
                        slot: slot_id,
                        target: ((ep_addr % 16) * 2 + if ep_addr >= 0x80 {
                            1u32
                        } else {
                            0u32
                        }) as u32,
                    },
                ).is_prefix_of(final(cs).pending_doorbells@)
                &&& r is Some ==> r->Some_0 == al->Some_0.0
                &&& spec_poll_budget_fits(old(cs).event_ring@.trbs.len() as int) ==> (
                r is Some <==> b.transfer_code == Some(1u8))
            }
        }),
{
    let ep_id: u8 = endpoint_id_from_addr(ep_addr);
    let buf_phys: u64 = match alloc_aligned(alloc, maxp as u64, 64) {
        Some(p) => p,
        None => {
            return None;
        },
    };
    if cs.intr_ring.trbs.len() < 2 {
        return None;
    }
    cs.intr_ring.enqueue_work(buf_phys, maxp as u32, TRB_TYPE_NORMAL * 1024 + 32);
    ring_doorbell(cs, slot_id, ep_id as u32);

    match wait_for_transfer_event(cs, con, hid_report, 1000000) {
        Some((code, _len)) => {
            if code == 1 {
                Some(buf_phys)
            } else {
                None
            }
        },
        None => None,
    }
}

/// Start continuous polling: allocate the shared input buffer once, post
/// the first Normal TRB with the ring's cycle bit, and ring the endpoint's
/// doorbell. Later reports re-post from the event dispatcher.
pub fn start_hid_polling(
    cs: &mut ControllerState,
    alloc: &mut PhysAllocator,
    slot_id: u8,
    ep_addr: u8,
    maxp: u16,
) -> (r: bool)
    requires
        cs_wf(*old(cs)),
    ensures
        cs_wf(*final(cs)),
        r == (old(cs).intr_ring@.trbs.len() >= 2 && (old(cs).hid_buf_phys != 0 || spec_alloc(
            old(alloc).next_free,
            old(alloc).limit,
            maxp as u64,
            64,
        ) is Some)),
        !r ==> *final(cs) == *old(cs),
        r && old(cs).hid_buf_phys != 0 ==> final(cs).hid_buf_phys == old(cs).hid_buf_phys
            && final(cs).hid_buf_len == old(cs).hid_buf_len && *final(alloc) == *old(alloc),
        r && old(cs).hid_buf_phys == 0 ==> ({
            let al = spec_alloc(old(alloc).next_free, old(alloc).limit, maxp as u64, 64);
            &&& al is Some
            &&& final(cs).hid_buf_phys == al->Some_0.0
            &&& final(cs).hid_buf_len == maxp
            &&& final(alloc).next_free == al->Some_0.1
        }),
        r ==> old(cs).intr_ring@.trbs.len() >= 2 && final(cs).intr_ring@ == spec_ring_enqueue(
            old(cs).intr_ring@,
            spec_work_trb(
                (final(cs).hid_buf_phys, maxp as u32, (TRB_TYPE_NORMAL * 1024 + 32) as u32),
                old(cs).intr_ring@.cycle,
            ),
        ) && final(cs).pending_doorbells@ == old(cs).pending_doorbells@.push(
            Doorbell {
                slot: slot_id,
                target: ((ep_addr % 16) * 2 + if ep_addr >= 0x80 {
                    1u32
                } else {
                    0u32
                }) as u32,
            },
        ),
{
    if cs.intr_ring.trbs.len() < 2 {
        return false;
    }
    if cs.hid_buf_phys == 0 {
        let buf_phys: u64 = match alloc_aligned(alloc, maxp as u64, 64) {
            Some(p) => p,
            None => {
                return false;
            },
        };
        cs.hid_buf_phys = buf_phys;
        cs.hid_buf_len = maxp as usize;
    }
    let param: u64 = cs.hid_buf_phys;
    cs.intr_ring.enqueue_work(param, maxp as u32, TRB_TYPE_NORMAL * 1024 + 32);
    let ep_id: u8 = endpoint_id_from_addr(ep_addr);
    cs.pending_doorbells.push(Doorbell { slot: slot_id, target: ep_id as u32 });
    true
}

} // verus!
