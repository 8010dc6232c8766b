//! TRB rings with cycle-bit discipline.
//!
//! A producer ring's last slot holds a Link TRB back to slot 0 with the
//! toggle-cycle bit set, so `len - 1` slots carry work. The producer writes
//! a TRB with its current cycle bit, advances, and flips its cycle state
//! exactly when it crosses the link. The consumer side (the event ring) reads
//! an entry only while the entry's cycle bit equals its own, and flips its
//! state exactly when it wraps. The binary mirrors `trbs` into the DMA
//! memory the controller reads; every value is decided here.

use vstd::prelude::*;

verus! {

pub const TRB_TYPE_NORMAL: u32 = 1;
pub const TRB_TYPE_SETUP_STAGE: u32 = 2;
pub const TRB_TYPE_DATA_STAGE: u32 = 3;
pub const TRB_TYPE_STATUS_STAGE: u32 = 4;
pub const TRB_TYPE_LINK: u32 = 6;
pub const TRB_TYPE_ENABLE_SLOT: u32 = 9;
pub const TRB_TYPE_ADDRESS_DEVICE: u32 = 11;
pub const TRB_TYPE_CONFIGURE_ENDPOINT: u32 = 12;
pub const TRB_TYPE_NO_OP_COMMAND: u32 = 23;

pub const TRB_TYPE_TRANSFER_EVENT: u8 = 0x20;
pub const TRB_TYPE_COMMAND_COMPLETION: u8 = 0x21;
pub const TRB_TYPE_PORT_STATUS_CHANGE: u8 = 0x22;

/// One 16-byte Transfer Request Block.
#[derive(Clone, Copy, Debug, PartialEq, Eq, Structural)]
pub struct Trb {
    pub parameter: u64,
    pub status: u32,
    pub control: u32,
}

impl Trb {
    pub fn zeroed() -> (r: Trb)
        ensures
            r == (Trb { parameter: 0, status: 0, control: 0 }),
    {
        Trb { parameter: 0, status: 0, control: 0 }
    }
}

/// The cycle bit placed into an even control word.
pub open spec fn spec_with_cycle(control_base: u32, cycle: bool) -> u32 {
    if cycle {
        (control_base + 1) as u32
    } else {
        control_base
    }
}

/// The cycle bit of a TRB as the consumer reads it.
pub open spec fn spec_trb_cycle(t: Trb) -> bool {
    t.control % 2 == 1
}

/// The Link TRB that closes a ring: it points at the ring base and carries
/// the toggle-cycle bit (and, as written at initialization, cycle 1).
pub open spec fn spec_link_trb(base_phys: u64) -> Trb {
    Trb { parameter: base_phys, status: 0, control: (6u32 * 1024 + 1 + 2) as u32 }
}

/// A producer ring.
pub struct TransferRing {
    pub trbs: Vec<Trb>,
    pub enqueue: usize,
    pub cycle: bool,
}

/// The ring as a mathematical value.
pub struct RingView {
    pub trbs: Seq<Trb>,
    pub enqueue: int,
    pub cycle: bool,
}

impl View for TransferRing {
    type V = RingView;

    open spec fn view(&self) -> RingView {
        RingView { trbs: self.trbs@, enqueue: self.enqueue as int, cycle: self.cycle }
    }
}

/// At least one work slot plus the link slot; the producer index stays on
/// the work slots.
pub open spec fn ring_wf(v: RingView) -> bool {
    &&& v.trbs.len() >= 2
    &&& 0 <= v.enqueue < v.trbs.len() - 1
}

/// A ring as it leaves initialization: zeroed work slots, the link in the
/// last slot, the producer at slot 0 with cycle 1.
pub open spec fn ring_fresh(v: RingView, base_phys: u64) -> bool {
    &&& v.trbs.len() >= 2
    &&& v.enqueue == 0
    &&& v.cycle
    &&& forall|i: int|
        0 <= i < v.trbs.len() - 1 ==> v.trbs[i] == (Trb { parameter: 0, status: 0, control: 0 })
    &&& v.trbs[v.trbs.len() - 1] == spec_link_trb(base_phys)
}

/// What one enqueue does: the TRB lands at the producer index, the index
/// advances over the work slots, and the cycle state flips exactly when the
/// index wraps past the link.
pub open spec fn spec_ring_enqueue(v: RingView, t: Trb) -> RingView {
    let usable = v.trbs.len() - 1;
    let next = (v.enqueue + 1) % usable;
    RingView {
        trbs: v.trbs.update(v.enqueue, t),
        enqueue: next,
        cycle: if next == 0 {
            !v.cycle
        } else {
            v.cycle
        },
    }
}

/// One queued work item: parameter, status, and the control word without
/// its cycle bit.
pub open spec fn spec_work_trb(item: (u64, u32, u32), cycle: bool) -> Trb {
    Trb { parameter: item.0, status: item.1, control: spec_with_cycle(item.2, cycle) }
}

/// A whole sequence of enqueues, each picking up the producer's cycle state
/// at its own moment.
pub open spec fn spec_enqueue_all(v: RingView, items: Seq<(u64, u32, u32)>) -> RingView
    decreases items.len(),
{
    if items.len() == 0 {
        v
    } else {
        spec_enqueue_all(
            spec_ring_enqueue(v, spec_work_trb(items[0], v.cycle)),
            items.drop_first(),
        )
    }
}

impl TransferRing {
    /// An empty placeholder for a ring that is not set up yet.
    pub fn unset() -> (r: TransferRing)
        ensures
            r@.trbs.len() == 0,
            r@.enqueue == 0,
            r@.cycle,
    {
        TransferRing { trbs: Vec::new(), enqueue: 0, cycle: true }
    }

    /// A fresh ring of `len` slots whose DMA image sits at `base_phys`:
    /// zeroed, with the link TRB in the last slot.
    pub fn new(len: usize, base_phys: u64) -> (r: TransferRing)
        requires
            2 <= len,
        ensures
            r@.trbs.len() == len,
            ring_wf(r@),
            ring_fresh(r@, base_phys),
    {
        let mut trbs: Vec<Trb> = Vec::new();
        let mut i: usize = 0;
        while i < len
            invariant
                i <= len,
                trbs@.len() == i,
                forall|k: int|
                    0 <= k < i ==> trbs@[k] == (Trb { parameter: 0, status: 0, control: 0 }),
            decreases len - i,
        {
            trbs.push(Trb::zeroed());
            i = i + 1;
        }
        let link = Trb { parameter: base_phys, status: 0, control: 6 * 1024 + 1 + 2 };
        trbs.set(len - 1, link);
        TransferRing { trbs, enqueue: 0, cycle: true }
    }

    pub fn cycle_bit(&self) -> (r: u32)
        ensures
            r == if self@.cycle {
                1u32
            } else {
                0u32
            },
    {
        if self.cycle {
            1
        } else {
            0
        }
    }

    /// Write one complete TRB at the producer index and advance.
    pub fn enqueue_raw(&mut self, t: Trb)
        requires
            ring_wf(old(self)@),
        ensures
            ring_wf(final(self)@),
            final(self)@ == spec_ring_enqueue(old(self)@, t),
            final(self)@.trbs.len() == old(self)@.trbs.len(),
    {
        let usable: usize = self.trbs.len() - 1;
        let index: usize = self.enqueue;
        self.trbs.set(index, t);
        let next: usize = (index + 1) % usable;
        self.enqueue = next;
        if next == 0 {
            self.cycle = !self.cycle;
        }
        proof {
            vstd::arithmetic::div_mod::lemma_mod_division_less_than_divisor(
                (index + 1) as int,
                usable as int,
            );
        }
    }

    /// Queue a work item: the control word receives the producer's current
    /// cycle bit.
    pub fn enqueue_work(&mut self, parameter: u64, status: u32, control_base: u32)
        requires
            ring_wf(old(self)@),
            control_base % 2 == 0,
            control_base < u32::MAX,
        ensures
            ring_wf(final(self)@),
            final(self)@ == spec_ring_enqueue(
                old(self)@,
                spec_work_trb((parameter, status, control_base), old(self)@.cycle),
            ),
            final(self)@.trbs.len() == old(self)@.trbs.len(),
    {
        let cycle_bit: u32 = if self.cycle {
            1
        } else {
            0
        };
        let t = Trb { parameter, status, control: control_base + cycle_bit };
        self.enqueue_raw(t);
    }
}

/// The producer's cycle state flips exactly when an enqueue crosses the
/// Link TRB back to slot 0, and never otherwise.
pub proof fn lemma_cycle_toggles_at_link(v: RingView, t: Trb)
    requires
        ring_wf(v),
    ensures
        spec_ring_enqueue(v, t).cycle != v.cycle <==> v.enqueue == v.trbs.len() - 2,
        ring_wf(spec_ring_enqueue(v, t)),
{
    let usable = v.trbs.len() - 1;
    vstd::arithmetic::div_mod::lemma_mod_division_less_than_divisor(v.enqueue + 1, usable);
    if v.enqueue + 1 < usable {
        vstd::arithmetic::div_mod::lemma_small_mod((v.enqueue + 1) as nat, usable as nat);
    } else {
        assert(v.enqueue + 1 == usable);
        vstd::arithmetic::div_mod::lemma_mod_self_0(usable);
    }
}

/// Enqueues that do not reach the link land in order at consecutive slots,
/// each carrying the cycle bit the producer held when it was queued, and
/// leave every other slot alone.
pub proof fn lemma_enqueue_run(v: RingView, items: Seq<(u64, u32, u32)>)
    requires
        ring_wf(v),
        v.enqueue + items.len() < v.trbs.len() - 1,
    ensures
        ring_wf(spec_enqueue_all(v, items)),
        spec_enqueue_all(v, items).trbs.len() == v.trbs.len(),
        spec_enqueue_all(v, items).enqueue == v.enqueue + items.len(),
        spec_enqueue_all(v, items).cycle == v.cycle,
        forall|i: int|
            0 <= i < items.len() ==> spec_enqueue_all(v, items).trbs[v.enqueue + i]
                == spec_work_trb(#[trigger] items[i], v.cycle),
        forall|i: int|
            0 <= i < v.trbs.len() && !(v.enqueue <= i < v.enqueue + items.len())
                ==> spec_enqueue_all(v, items).trbs[i] == v.trbs[i],
    decreases items.len(),
{
    if items.len() > 0 {
        let usable = v.trbs.len() - 1;
        vstd::arithmetic::div_mod::lemma_small_mod((v.enqueue + 1) as nat, usable as nat);
        let v1 = spec_ring_enqueue(v, spec_work_trb(items[0], v.cycle));
        lemma_enqueue_run(v1, items.drop_first());
        assert(spec_enqueue_all(v, items) == spec_enqueue_all(v1, items.drop_first()));
        assert forall|i: int| 0 <= i < items.len() implies spec_enqueue_all(
            v,
            items,
        ).trbs[v.enqueue + i] == spec_work_trb(#[trigger] items[i], v.cycle) by {
            if i == 0 {
                assert(spec_enqueue_all(v1, items.drop_first()).trbs[v.enqueue as int]
                    == v1.trbs[v.enqueue as int]);
            } else {
                assert(items.drop_first()[i - 1] == items[i]);
            }
        }
        assert forall|i: int|
            0 <= i < v.trbs.len() && !(v.enqueue <= i < v.enqueue + items.len()) implies
            spec_enqueue_all(v, items).trbs[i] == v.trbs[i] by {
            assert(spec_enqueue_all(v1, items.drop_first()).trbs[i] == v1.trbs[i]);
            assert(v1.trbs[i] == v.trbs[i]);
        }
    }
}

/// A run of `n` enqueues on a fresh ring, with `n` below the ring's
/// work capacity, is observed by the consumer exactly in order: slots
/// `0..n` hold the items with the producer's cycle bit 1, and every later
/// work slot still carries cycle bit 0, so a consumer starting at slot 0
/// with cycle state 1 sees the items one by one and then stops.
pub proof fn lemma_ring_fifo(v: RingView, items: Seq<(u64, u32, u32)>, base_phys: u64)
    requires
        ring_fresh(v, base_phys),
        items.len() < v.trbs.len() - 1,
        forall|i: int| 0 <= i < items.len() ==> (#[trigger] items[i]).2 % 2 == 0,
    ensures
        spec_enqueue_all(v, items).enqueue == items.len(),
        spec_enqueue_all(v, items).cycle,
        forall|i: int|
            0 <= i < items.len() ==> spec_enqueue_all(v, items).trbs[i] == spec_work_trb(
                #[trigger] items[i],
                true,
            ),
        forall|i: int|
            0 <= i < items.len() ==> spec_trb_cycle(spec_enqueue_all(v, items).trbs[i]),
        forall|i: int|
            items.len() <= i < v.trbs.len() - 1 ==> !spec_trb_cycle(
                spec_enqueue_all(v, items).trbs[i],
            ),
{
    lemma_enqueue_run(v, items);
    let r = spec_enqueue_all(v, items);
    assert forall|i: int| 0 <= i < items.len() implies spec_trb_cycle(r.trbs[i]) by {
        assert(r.trbs[i] == spec_work_trb(items[i], true));
        assert(r.trbs[i].control == items[i].2 + 1);
    }
    assert forall|i: int| items.len() <= i < v.trbs.len() - 1 implies !spec_trb_cycle(
        r.trbs[i],
    ) by {
        assert(r.trbs[i] == v.trbs[i]);
        assert(v.trbs[i] == (Trb { parameter: 0, status: 0, control: 0 }));
    }
}

/// A bare command ring over a caller-provided buffer whose last slot is
/// the Link TRB: `len - 1` slots carry work, the producer wraps from the
/// slot before the link back to slot 0 and flips its cycle state there,
/// and the link slot itself is never written.
pub struct CommandRing {
    pub trbs: Vec<Trb>,
    pub enqueue: usize,
    pub cycle_state: bool,
}

impl CommandRing {
    pub fn new(buffer: Vec<Trb>) -> (r: CommandRing)
        ensures
            r.trbs@ == buffer@,
            r.enqueue == 0,
            r.cycle_state,
    {
        CommandRing { trbs: buffer, enqueue: 0, cycle_state: true }
    }

    pub fn cycle_state(&self) -> (r: bool)
        ensures
            r == self.cycle_state,
    {
        self.cycle_state
    }

    /// Store the TRB at the producer index and advance over the work
    /// slots; crossing the Link TRB wraps to slot 0 and flips the cycle
    /// state, and the link slot stays as it is.
    pub fn enqueue_slot(&mut self, trb: Trb)
        requires
            old(self).trbs@.len() >= 2,
            old(self).enqueue < old(self).trbs@.len() - 1,
        ensures
            final(self).trbs@ == old(self).trbs@.update(old(self).enqueue as int, trb),
            final(self).trbs@[old(self).trbs@.len() - 1] == old(self).trbs@[old(
                self,
            ).trbs@.len() - 1],
            final(self).enqueue == (old(self).enqueue + 1) % (old(self).trbs@.len() - 1),
            final(self).enqueue < old(self).trbs@.len() - 1,
            final(self).cycle_state == if old(self).enqueue == old(self).trbs@.len() - 2 {
                !old(self).cycle_state
            } else {
                old(self).cycle_state
            },
    {
        let usable: usize = self.trbs.len() - 1;
        let index: usize = self.enqueue;
        self.trbs.set(index, trb);
        let next: usize = (index + 1) % usable;
        proof {
            vstd::arithmetic::div_mod::lemma_mod_division_less_than_divisor(
                (index + 1) as int,
                usable as int,
            );
            if index + 1 < usable {
                vstd::arithmetic::div_mod::lemma_small_mod((index + 1) as nat, usable as nat);
            } else {
                vstd::arithmetic::div_mod::lemma_mod_self_0(usable as int);
            }
        }
        self.enqueue = next;
        if next == 0 {
            self.cycle_state = !self.cycle_state;
        }
    }
}

/// One event ring segment handed to the controller.
pub struct EventRingSegment {
    pub trbs: Vec<Trb>,
}

impl EventRingSegment {
    pub fn new(trbs: Vec<Trb>) -> (r: EventRingSegment)
        ensures
            r.trbs@ == trbs@,
    {
        EventRingSegment { trbs }
    }
}

/// The controller-written event ring, consumed by the driver.
pub struct EventRing {
    pub trbs: Vec<Trb>,
    pub dequeue: usize,
    pub cycle: bool,
}

pub struct EventRingView {
    pub trbs: Seq<Trb>,
    pub dequeue: int,
    pub cycle: bool,
}

impl View for EventRing {
    type V = EventRingView;

    open spec fn view(&self) -> EventRingView {
        EventRingView { trbs: self.trbs@, dequeue: self.dequeue as int, cycle: self.cycle }
    }
}

pub open spec fn event_ring_wf(v: EventRingView) -> bool {
    &&& v.trbs.len() >= 1
    &&& 0 <= v.dequeue < v.trbs.len()
}

/// An event is pending exactly while the entry at the dequeue index carries
/// the consumer's cycle state.
pub open spec fn spec_event_pending(v: EventRingView) -> bool {
    spec_trb_cycle(v.trbs[v.dequeue]) == v.cycle
}

/// The consumer state one step further: past the current slot, with the
/// cycle state flipped when the step wrapped to slot 0.
pub open spec fn spec_event_advance(v: EventRingView) -> EventRingView {
    let next = (v.dequeue + 1) % (v.trbs.len() as int);
    EventRingView {
        dequeue: next,
        cycle: if next == 0 {
            !v.cycle
        } else {
            v.cycle
        },
        ..v
    }
}

/// The consumer state after draining: advance while an event is pending,
/// at most `fuel` steps.
pub open spec fn spec_drained(v: EventRingView, fuel: nat) -> EventRingView
    decreases fuel,
{
    if fuel == 0 || !spec_event_pending(v) {
        v
    } else {
        spec_drained(spec_event_advance(v), (fuel - 1) as nat)
    }
}

/// The events a drain consumes, in consumption order.
pub open spec fn spec_drain_events(v: EventRingView, fuel: nat) -> Seq<Trb>
    decreases fuel,
{
    if fuel == 0 || !spec_event_pending(v) {
        Seq::empty()
    } else {
        seq![v.trbs[v.dequeue]] + spec_drain_events(spec_event_advance(v), (fuel - 1) as nat)
    }
}

/// Draining touches only the consumer cursor, keeps it on the ring, and —
/// whenever it stopped before its fuel ran out — leaves no event pending.
pub proof fn lemma_drained_props(v: EventRingView, fuel: nat)
    requires
        event_ring_wf(v),
    ensures
        event_ring_wf(spec_drained(v, fuel)),
        spec_drained(v, fuel).trbs == v.trbs,
        spec_drain_events(v, fuel).len() < fuel ==> !spec_event_pending(spec_drained(v, fuel)),
        spec_drain_events(v, fuel).len() <= fuel,
    decreases fuel,
{
    if fuel > 0 && spec_event_pending(v) {
        let w = spec_event_advance(v);
        vstd::arithmetic::div_mod::lemma_mod_division_less_than_divisor(
            v.dequeue + 1,
            v.trbs.len() as int,
        );
        lemma_drained_props(w, (fuel - 1) as nat);
    }
}

/// A drain that goes on past step `j` was pending at every step up to
/// `j`, and takes exactly `j` events when given `j` steps of fuel.
proof fn lemma_drain_prefix(v: EventRingView, j: nat, f: nat)
    requires
        event_ring_wf(v),
        j <= f,
        spec_drain_events(v, f).len() > j,
    ensures
        spec_drain_events(v, j).len() == j,
        spec_event_pending(spec_drained(v, j)),
    decreases j,
{
    lemma_drained_props(v, f);
    if j == 0 {
    } else {
        let w = spec_event_advance(v);
        vstd::arithmetic::div_mod::lemma_mod_division_less_than_divisor(
            v.dequeue + 1,
            v.trbs.len() as int,
        );
        lemma_drain_prefix(w, (j - 1) as nat, (f - 1) as nat);
    }
}

/// The consumer state after a run of exactly `j` consumptions, `j` at
/// most one lap: the cursor moved `j` slots; the cycle flipped exactly
/// when the lap wrapped; and the slot the run started at matched the
/// starting cycle.
proof fn lemma_drain_state(v: EventRingView, j: nat)
    requires
        event_ring_wf(v),
        j <= v.trbs.len(),
        spec_drain_events(v, j).len() == j,
    ensures
        spec_drained(v, j).trbs == v.trbs,
        spec_drained(v, j).dequeue == (v.dequeue + j) % (v.trbs.len() as int),
        spec_drained(v, j).cycle == (if v.dequeue + j < v.trbs.len() {
            v.cycle
        } else {
            !v.cycle
        }),
        j >= 1 ==> spec_trb_cycle(v.trbs[v.dequeue]) == v.cycle,
    decreases j,
{
    let len = v.trbs.len() as int;
    lemma_drained_props(v, j);
    if j == 0 {
        vstd::arithmetic::div_mod::lemma_small_mod(v.dequeue as nat, len as nat);
    } else {
        let w = spec_event_advance(v);
        vstd::arithmetic::div_mod::lemma_mod_division_less_than_divisor(v.dequeue + 1, len);
        assert(spec_drain_events(v, j) == seq![v.trbs[v.dequeue]] + spec_drain_events(
            w,
            (j - 1) as nat,
        ));
        assert(spec_drain_events(w, (j - 1) as nat).len() == j - 1);
        lemma_drain_state(w, (j - 1) as nat);
        // Compose the cursor move of the first step with the rest of the
        // run.
        vstd::arithmetic::div_mod::lemma_small_mod((j - 1) as nat, len as nat);
        vstd::arithmetic::div_mod::lemma_add_mod_noop(v.dequeue + 1, j - 1, len);
        if v.dequeue + 1 < len {
            vstd::arithmetic::div_mod::lemma_small_mod((v.dequeue + 1) as nat, len as nat);
            assert(w.dequeue == v.dequeue + 1 && w.cycle == v.cycle);
            assert((w.dequeue + (j - 1)) % len == (v.dequeue + j) % len);
        } else {
            assert(v.dequeue + 1 == len);
            vstd::arithmetic::div_mod::lemma_mod_self_0(len);
            assert(w.dequeue == 0 && w.cycle == !v.cycle);
            assert((w.dequeue + (j - 1)) % len == (v.dequeue + j) % len);
            assert(w.dequeue + (j - 1) < len);
        }
    }
}

/// A drain can never consume more events than the ring has slots: after
/// one full lap the consumer's cycle state has flipped, so the slot the
/// run started at no longer looks pending.
pub proof fn lemma_drain_bounded(v: EventRingView, f: nat)
    requires
        event_ring_wf(v),
    ensures
        spec_drain_events(v, f).len() <= v.trbs.len(),
{
    let len = v.trbs.len();
    lemma_drained_props(v, f);
    if spec_drain_events(v, f).len() > len {
        lemma_drain_prefix(v, len, f);
        lemma_drain_state(v, len);
        let s = spec_drained(v, len);
        vstd::arithmetic::div_mod::lemma_mod_add_multiples_vanish(
            v.dequeue as int,
            len as int,
        );
        vstd::arithmetic::div_mod::lemma_small_mod(v.dequeue as nat, len as nat);
        assert(s.dequeue == v.dequeue);
        assert(s.cycle == !v.cycle);
        assert(spec_event_pending(s));
        assert(spec_trb_cycle(v.trbs[v.dequeue]) == v.cycle);
        assert(false);
    }
}

/// One poll's budget always covers the whole drain: the drain consumes at
/// most one ring of events, and the budget holds two rings and one more
/// step. So the conditions phrased as "once the drain fits the poll
/// budget" hold of every ring whose slot count leaves the budget room in
/// the address space.
pub proof fn lemma_poll_budget_suffices(v: EventRingView, fuel: nat)
    requires
        event_ring_wf(v),
        fuel > v.trbs.len(),
    ensures
        spec_drain_events(v, fuel).len() < fuel,
{
    lemma_drain_bounded(v, fuel);
}

impl EventRing {
    /// A zeroed event ring; the consumer starts at slot 0 with cycle 1.
    pub fn new(len: usize) -> (r: EventRing)
        requires
            len >= 1,
        ensures
            event_ring_wf(r@),
            r@.trbs.len() == len,
            r@.dequeue == 0,
            r@.cycle,
            forall|i: int|
                0 <= i < len ==> r@.trbs[i] == (Trb { parameter: 0, status: 0, control: 0 }),
    {
        let mut trbs: Vec<Trb> = Vec::new();
        let mut i: usize = 0;
        while i < len
            invariant
                i <= len,
                trbs@.len() == i,
                forall|k: int|
                    0 <= k < i ==> trbs@[k] == (Trb { parameter: 0, status: 0, control: 0 }),
            decreases len - i,
        {
            trbs.push(Trb::zeroed());
            i = i + 1;
        }
        EventRing { trbs, dequeue: 0, cycle: true }
    }

    pub fn pending(&self) -> (r: bool)
        requires
            event_ring_wf(self@),
        ensures
            r == spec_event_pending(self@),
    {
        let t: Trb = self.trbs[self.dequeue];
        let cycle_set: bool = t.control % 2 == 1;
        cycle_set == self.cycle
    }

    /// Take the pending event and advance; the consumer's cycle state flips
    /// exactly when the dequeue index wraps back to slot 0.
    pub fn next_event(&mut self) -> (r: Option<Trb>)
        requires
            event_ring_wf(old(self)@),
        ensures
            event_ring_wf(final(self)@),
            final(self)@.trbs == old(self)@.trbs,
            match r {
                Some(t) => {
                    &&& spec_event_pending(old(self)@)
                    &&& t == old(self)@.trbs[old(self)@.dequeue]
                    &&& final(self)@.dequeue == (old(self)@.dequeue + 1) % (
                    old(self)@.trbs.len() as int)
                    &&& (final(self)@.cycle != old(self)@.cycle <==> old(self)@.dequeue == old(
                        self,
                    )@.trbs.len() - 1)
                },
                None => {
                    &&& !spec_event_pending(old(self)@)
                    &&& *final(self) == *old(self)
                },
            },
    {
        if !self.pending() {
            return None;
        }
        let t: Trb = self.trbs[self.dequeue];
        let len: usize = self.trbs.len();
        let next: usize = (self.dequeue + 1) % len;
        proof {
            vstd::arithmetic::div_mod::lemma_mod_division_less_than_divisor(
                (self.dequeue + 1) as int,
                len as int,
            );
            if self.dequeue + 1 < len {
                vstd::arithmetic::div_mod::lemma_small_mod((self.dequeue + 1) as nat, len as nat);
            } else {
                vstd::arithmetic::div_mod::lemma_mod_self_0(len as int);
            }
        }
        self.dequeue = next;
        if next == 0 {
            self.cycle = !self.cycle;
        }
        Some(t)
    }
}

} // verus!
