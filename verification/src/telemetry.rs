//! Per-step telemetry snapshot.
//!
//! Each sample reports the tick and page-fault deltas since the previous
//! sample, then remembers the new counter values. Subtractions saturate,
//! and the rates are clipped into 32 bits as the counters' low words.

use vstd::prelude::*;

verus! {

#[derive(Copy, Clone)]
pub struct Telemetry {
    pub irq_errors: u32,
    pub runq: u32,
    pub irq_rate: u32,
    pub free_kb: u32,
    pub pf_rate: u32,
}

/// Saturating counter delta.
pub open spec fn spec_delta(now: u64, prev: u64) -> u64 {
    if now >= prev {
        (now - prev) as u64
    } else {
        0
    }
}

/// Sample the counters: the rates are the deltas against the remembered
/// previous values, which this call replaces with `now_ticks` / `now_pf`.
pub fn gather_telemetry(
    prev_ticks: &mut u64,
    prev_pf: &mut u64,
    now_ticks: u64,
    now_pf: u64,
    free_kb: u32,
    runq: u32,
) -> (t: Telemetry)
    ensures
        *final(prev_ticks) == now_ticks,
        *final(prev_pf) == now_pf,
        t.irq_rate == spec_delta(now_ticks, *old(prev_ticks)) as u32,
        t.pf_rate == spec_delta(now_pf, *old(prev_pf)) as u32,
        t.free_kb == free_kb,
        t.runq == runq,
        t.irq_errors == 0,
{
    let dt: u64 = if now_ticks >= *prev_ticks {
        now_ticks - *prev_ticks
    } else {
        0
    };
    *prev_ticks = now_ticks;
    let dp: u64 = if now_pf >= *prev_pf {
        now_pf - *prev_pf
    } else {
        0
    };
    *prev_pf = now_pf;
    Telemetry {
        irq_errors: 0,
        runq,
        irq_rate: #[verifier::truncate] (dt as u32),
        free_kb,
        pf_rate: #[verifier::truncate] (dp as u32),
    }
}

} // verus!
