//! Transactional action engine.
//!
//! `propose` is the only entry point: it gates on readiness, validates the
//! action, journals an intent, applies the change, and commits or rolls back
//! on the outcome of a liveness self-test. The self-test itself watches live
//! interrupt counters, so its verdict is sampled outside and handed in; this
//! module decides everything that follows from it.

use vstd::prelude::*;

use crate::action::{Action, ActionOutcome, KIND_SET_QUANTUM, KIND_TRIM_CACHE};
use crate::journal::{
    count_verdicts, is_verdict, journal_commit, journal_fail, journal_intent, journal_reject,
    journal_wf, Journal, JournalRecord,
};

verus! {

/// Why an action was not committed.
#[derive(Copy, Clone, Debug, PartialEq, Eq, Structural)]
pub enum ApplyError {
    NotAllowed,
    InvalidParams,
    ExecuteFailed,
    SelfTestFailed,
}

impl ApplyError {
    /// The numeric code journaled and reported for this error.
    pub fn code(self) -> (r: u8)
        ensures
            r == self.spec_code(),
    {
        match self {
            ApplyError::NotAllowed => 1,
            ApplyError::InvalidParams => 3,
            ApplyError::ExecuteFailed => 4,
            ApplyError::SelfTestFailed => 5,
        }
    }

    pub open spec fn spec_code(self) -> u8 {
        match self {
            ApplyError::NotAllowed => 1,
            ApplyError::InvalidParams => 3,
            ApplyError::ExecuteFailed => 4,
            ApplyError::SelfTestFailed => 5,
        }
    }
}

pub type ApplyResult = Result<(), ApplyError>;

/// The engine's whole mutable state. In the kernel one instance lives behind
/// the apply mutex; every mutation of `quantum_us` happens through it.
pub struct EngineState {
    pub quantum_us: u32,
    pub seq: u64,
    pub system_ready: bool,
}

impl EngineState {
    pub fn new() -> (r: EngineState)
        ensures
            r.quantum_us == 1000,
            r.seq == 0,
            !r.system_ready,
    {
        EngineState { quantum_us: 1000, seq: 0, system_ready: false }
    }
}

/// Only `SetQuantum` and `TrimCache` may be applied.
pub open spec fn spec_is_allowed(kind: u8) -> bool {
    kind == KIND_SET_QUANTUM || kind == KIND_TRIM_CACHE
}

pub fn is_allowed(kind: u8) -> (r: bool)
    ensures
        r == spec_is_allowed(kind),
{
    kind == KIND_SET_QUANTUM || kind == KIND_TRIM_CACHE
}

/// A quantum must lie in 100..=50000 µs; a trim must ask for at most 16 MiB
/// and more than nothing.
pub open spec fn spec_validate_params(a: Action) -> bool {
    if a.kind == KIND_SET_QUANTUM {
        100 <= a.param1 <= 50000
    } else if a.kind == KIND_TRIM_CACHE {
        0 < a.param1 <= 16 * 1024 * 1024
    } else {
        false
    }
}

pub fn validate_params(a: &Action) -> (r: bool)
    ensures
        r == spec_validate_params(*a),
{
    if a.kind == KIND_SET_QUANTUM {
        100 <= a.param1 && a.param1 <= 50000
    } else if a.kind == KIND_TRIM_CACHE {
        0 < a.param1 && a.param1 <= 16 * 1024 * 1024
    } else {
        false
    }
}

/// Liveness check over two counter samples: at least one timer tick
/// advanced and no page fault arrived. The subtractions saturate, so a
/// counter that moved backwards reads as no progress.
pub fn self_test_ok(start_ticks: u64, start_pf: u64, now_ticks: u64, now_pf: u64) -> (r: bool)
    ensures
        r == (now_ticks > start_ticks && now_pf <= start_pf),
{
    let dt: u64 = if now_ticks >= start_ticks {
        now_ticks - start_ticks
    } else {
        0
    };
    let dp: u64 = if now_pf >= start_pf {
        now_pf - start_pf
    } else {
        0
    };
    dt >= 1 && dp == 0
}

/// The prior quantum, snapshotted before an apply.
pub fn read_before_state(state: &EngineState) -> (r: u32)
    ensures
        r == state.quantum_us,
{
    state.quantum_us
}

fn write_quantum(state: &mut EngineState, us: u32) -> (r: bool)
    ensures
        r,
        final(state).quantum_us == us,
        final(state).seq == old(state).seq,
        final(state).system_ready == old(state).system_ready,
{
    state.quantum_us = us;
    true
}

/// Cache trimming is a stub effect with no observable state yet; it always
/// reports success.
fn trim_cache(bytes: u64) -> (r: bool)
    ensures
        r,
{
    let _ = bytes;
    true
}

pub fn get_quantum_us(state: &EngineState) -> (r: u32)
    ensures
        r == state.quantum_us,
{
    state.quantum_us
}

pub fn is_system_ready(state: &EngineState) -> (r: bool)
    ensures
        r == state.system_ready,
{
    state.system_ready
}

/// Flips the readiness latch; it never goes back.
pub fn set_system_ready(state: &mut EngineState)
    ensures
        final(state).system_ready,
        final(state).quantum_us == old(state).quantum_us,
        final(state).seq == old(state).seq,
{
    state.system_ready = true;
}

/// The quantum an accepted action leaves behind.
pub open spec fn spec_applied_quantum(q: u32, a: Action) -> u32 {
    if a.kind == KIND_SET_QUANTUM {
        a.param1 as u32
    } else {
        q
    }
}

/// The records one call of `apply_action_atomic` appends to the journal.
pub open spec fn action_journal_suffix(
    ready: bool,
    a: Action,
    seq: u64,
    selftest_passed: bool,
) -> Seq<JournalRecord> {
    if !ready || !(spec_is_allowed(a.kind) && spec_validate_params(a)) {
        seq![JournalRecord::Reject { seq, kind: a.kind }]
    } else if selftest_passed {
        seq![
            JournalRecord::Intent { seq, kind: a.kind },
            JournalRecord::Commit { seq, kind: a.kind },
        ]
    } else {
        seq![
            JournalRecord::Intent { seq, kind: a.kind },
            JournalRecord::Fail { seq, code: 5 },
        ]
    }
}

/// Validate, snapshot, apply, self-test, commit or roll back — journaling
/// each transition. The quantum changes only when a valid `SetQuantum` is
/// accepted by the self-test; on a failed self-test the snapshot is restored.
pub fn apply_action_atomic(
    state: &mut EngineState,
    j: &mut Journal,
    seq: u64,
    a: &Action,
    selftest_passed: bool,
) -> (r: ApplyResult)
    requires
        journal_wf(*old(j)),
    ensures
        journal_wf(*final(j)),
        final(state).seq == old(state).seq,
        final(state).system_ready == old(state).system_ready,
        final(j).records@ == old(j).records@ + action_journal_suffix(
            old(state).system_ready,
            *a,
            seq,
            selftest_passed,
        ),
        !old(state).system_ready ==> {
            &&& r == ApplyResult::Err(ApplyError::NotAllowed)
            &&& final(state).quantum_us == old(state).quantum_us
        },
        old(state).system_ready && !(spec_is_allowed(a.kind) && spec_validate_params(*a)) ==> {
            &&& r == ApplyResult::Err(ApplyError::NotAllowed)
            &&& final(state).quantum_us == old(state).quantum_us
        },
        old(state).system_ready && spec_is_allowed(a.kind) && spec_validate_params(*a)
            && selftest_passed ==> {
            &&& r == ApplyResult::Ok(())
            &&& final(state).quantum_us == spec_applied_quantum(old(state).quantum_us, *a)
        },
        old(state).system_ready && spec_is_allowed(a.kind) && spec_validate_params(*a)
            && !selftest_passed ==> {
            &&& r == ApplyResult::Err(ApplyError::SelfTestFailed)
            &&& final(state).quantum_us == old(state).quantum_us
        },
{
    if !state.system_ready {
        journal_reject(j, seq, a);
        assert(j.records@ =~= old(j).records@ + action_journal_suffix(
            old(state).system_ready,
            *a,
            seq,
            selftest_passed,
        ));
        return Err(ApplyError::NotAllowed);
    }
    if !is_allowed(a.kind) || !validate_params(a) {
        journal_reject(j, seq, a);
        assert(j.records@ =~= old(j).records@ + action_journal_suffix(
            old(state).system_ready,
            *a,
            seq,
            selftest_passed,
        ));
        return Err(ApplyError::NotAllowed);
    }

    let before: u32 = read_before_state(state);
    journal_intent(j, seq, a);

    let ok: bool = if a.kind == KIND_SET_QUANTUM {
        write_quantum(state, a.param1 as u32)
    } else {
        trim_cache(a.param1)
    };

    if !ok {
        journal_fail(j, seq, a, 4);
        return Err(ApplyError::ExecuteFailed);
    }

    if selftest_passed {
        journal_commit(j, seq, a);
        assert(j.records@ =~= old(j).records@ + action_journal_suffix(
            old(state).system_ready,
            *a,
            seq,
            selftest_passed,
        ));
        Ok(())
    } else {
        let _ = write_quantum(state, before);
        journal_fail(j, seq, a, 5);
        assert(j.records@ =~= old(j).records@ + action_journal_suffix(
            old(state).system_ready,
            *a,
            seq,
            selftest_passed,
        ));
        Err(ApplyError::SelfTestFailed)
    }
}

/// Assigns the next sequence number, runs the transaction, and reports the
/// outcome code. The journal keeps the audit trail either way.
pub fn ai_propose_action(
    state: &mut EngineState,
    j: &mut Journal,
    a: &Action,
    selftest_passed: bool,
) -> (outcome: ActionOutcome)
    requires
        journal_wf(*old(j)),
    ensures
        journal_wf(*final(j)),
        final(state).seq == if old(state).seq == u64::MAX {
            0u64
        } else {
            (old(state).seq + 1) as u64
        },
        final(state).system_ready == old(state).system_ready,
        final(j).records@ == old(j).records@ + action_journal_suffix(
            old(state).system_ready,
            *a,
            old(state).seq,
            selftest_passed,
        ),
        outcome.result == if !old(state).system_ready || !(spec_is_allowed(a.kind)
            && spec_validate_params(*a)) {
            1u8
        } else if selftest_passed {
            0u8
        } else {
            5u8
        },
        outcome.result == 0 ==> final(state).quantum_us == spec_applied_quantum(
            old(state).quantum_us,
            *a,
        ),
        outcome.result != 0 ==> final(state).quantum_us == old(state).quantum_us,
{
    let seq: u64 = state.seq;
    state.seq = state.seq.wrapping_add(1);
    let res: u8 = match apply_action_atomic(state, j, seq, a, selftest_passed) {
        Ok(()) => 0,
        Err(e) => e.code(),
    };
    ActionOutcome { result: res, selftest_code: 0, snapshot_id: 0 }
}

/// Every action submitted to the engine gets exactly one verdict line —
/// one `REJECT`, one `APPLY_OK` or one `APPLY_FAIL`, never more.
pub proof fn lemma_one_verdict_per_action(
    ready: bool,
    a: Action,
    seq: u64,
    selftest_passed: bool,
)
    ensures
        count_verdicts(action_journal_suffix(ready, a, seq, selftest_passed)) == 1,
{
    let s = action_journal_suffix(ready, a, seq, selftest_passed);
    assert(count_verdicts(Seq::<JournalRecord>::empty()) == 0);
    if !ready || !(spec_is_allowed(a.kind) && spec_validate_params(a)) {
        assert(s.drop_last() =~= Seq::<JournalRecord>::empty());
        assert(is_verdict(s.last()));
        assert(count_verdicts(s) == count_verdicts(s.drop_last()) + 1);
    } else {
        let t = s.drop_last();
        assert(t.drop_last() =~= Seq::<JournalRecord>::empty());
        assert(!is_verdict(t.last()));
        assert(count_verdicts(t) == count_verdicts(t.drop_last()));
        assert(is_verdict(s.last()));
        assert(count_verdicts(s) == count_verdicts(t) + 1);
    }
}

} // verus!
