//! Time and fault counters.
//!
//! Three monotonic 64-bit counters advanced by the interrupt handlers and
//! read at arbitrary times. The handlers live outside; they record each
//! event here, and every reader sees plain values.

use vstd::prelude::*;

verus! {

pub struct Counters {
    pub timer_ticks: u64,
    pub irq_count: u64,
    pub page_faults: u64,
}

impl Counters {
    pub fn new() -> (r: Counters)
        ensures
            r.timer_ticks == 0,
            r.irq_count == 0,
            r.page_faults == 0,
    {
        Counters { timer_ticks: 0, irq_count: 0, page_faults: 0 }
    }
}

pub fn timer_ticks(c: &Counters) -> (r: u64)
    ensures
        r == c.timer_ticks,
{
    c.timer_ticks
}

pub fn irq_count(c: &Counters) -> (r: u64)
    ensures
        r == c.irq_count,
{
    c.irq_count
}

pub fn page_faults(c: &Counters) -> (r: u64)
    ensures
        r == c.page_faults,
{
    c.page_faults
}

/// One timer interrupt; also counts as an interrupt.
pub fn record_timer_tick(c: &mut Counters)
    ensures
        final(c).timer_ticks == old(c).timer_ticks.wrapping_add(1),
        final(c).irq_count == old(c).irq_count.wrapping_add(1),
        final(c).page_faults == old(c).page_faults,
{
    c.timer_ticks = c.timer_ticks.wrapping_add(1);
    c.irq_count = c.irq_count.wrapping_add(1);
}

/// One interrupt that is not a timer tick.
pub fn record_irq(c: &mut Counters)
    ensures
        final(c).irq_count == old(c).irq_count.wrapping_add(1),
        final(c).timer_ticks == old(c).timer_ticks,
        final(c).page_faults == old(c).page_faults,
{
    c.irq_count = c.irq_count.wrapping_add(1);
}

/// One page fault.
pub fn record_page_fault(c: &mut Counters)
    ensures
        final(c).page_faults == old(c).page_faults.wrapping_add(1),
        final(c).timer_ticks == old(c).timer_ticks,
        final(c).irq_count == old(c).irq_count,
{
    c.page_faults = c.page_faults.wrapping_add(1);
}

} // verus!
