//! Journal of action lifecycle events.
//!
//! Every transition of the transaction engine appends one ASCII line of the
//! shape `seq=<n> <VERB> <key>=<value>\n`. The journal accumulates the raw
//! bytes; the binary drains them to the debug port. A ghost sequence of
//! records mirrors the lines one to one, so that laws about "exactly one
//! verdict per action" can be stated over records instead of raw text.

use vstd::prelude::*;

use crate::action::Action;

verus! {

/// One journal line, as an abstract record.
pub enum JournalRecord {
    Intent { seq: u64, kind: u8 },
    Commit { seq: u64, kind: u8 },
    Fail { seq: u64, code: u32 },
    Reject { seq: u64, kind: u8 },
}

/// A verdict closes an action's lifecycle; an intent merely opens it.
pub open spec fn is_verdict(r: JournalRecord) -> bool {
    !(r is Intent)
}

/// How many records of a sequence are verdicts.
pub open spec fn count_verdicts(s: Seq<JournalRecord>) -> nat
    decreases s.len(),
{
    if s.len() == 0 {
        0
    } else {
        count_verdicts(s.drop_last()) + if is_verdict(s.last()) {
            1nat
        } else {
            0nat
        }
    }
}

/// Decimal digits of `n`, most significant first; `0` is written as "0".
pub open spec fn spec_dec(n: nat) -> Seq<u8>
    decreases n,
{
    if n < 10 {
        seq![(48 + n) as u8]
    } else {
        spec_dec(n / 10).push((48 + n % 10) as u8)
    }
}

/// The bytes of `"seq="`.
pub open spec fn seq_prefix_bytes() -> Seq<u8> {
    seq![115u8, 101u8, 113u8, 61u8]
}

/// The bytes of `"INTENT kind="`.
pub open spec fn intent_tag_bytes() -> Seq<u8> {
    seq![73u8, 78u8, 84u8, 69u8, 78u8, 84u8, 32u8, 107u8, 105u8, 110u8, 100u8, 61u8]
}

/// The bytes of `"APPLY_OK kind="`.
pub open spec fn commit_tag_bytes() -> Seq<u8> {
    seq![65u8, 80u8, 80u8, 76u8, 89u8, 95u8, 79u8, 75u8, 32u8, 107u8, 105u8, 110u8, 100u8, 61u8]
}

/// The bytes of `"APPLY_FAIL code="`.
pub open spec fn fail_tag_bytes() -> Seq<u8> {
    seq![
        65u8, 80u8, 80u8, 76u8, 89u8, 95u8, 70u8, 65u8, 73u8, 76u8, 32u8, 99u8, 111u8, 100u8,
        101u8, 61u8,
    ]
}

/// The bytes of `"REJECT kind="`.
pub open spec fn reject_tag_bytes() -> Seq<u8> {
    seq![82u8, 69u8, 74u8, 69u8, 67u8, 84u8, 32u8, 107u8, 105u8, 110u8, 100u8, 61u8]
}

/// The exact bytes of one journal line.
pub open spec fn line_bytes(r: JournalRecord) -> Seq<u8> {
    match r {
        JournalRecord::Intent { seq, kind } => seq_prefix_bytes() + spec_dec(seq as nat)
            + seq![32u8] + intent_tag_bytes() + spec_dec(kind as nat) + seq![10u8],
        JournalRecord::Commit { seq, kind } => seq_prefix_bytes() + spec_dec(seq as nat)
            + seq![32u8] + commit_tag_bytes() + spec_dec(kind as nat) + seq![10u8],
        JournalRecord::Fail { seq, code } => seq_prefix_bytes() + spec_dec(seq as nat)
            + seq![32u8] + fail_tag_bytes() + spec_dec(code as nat) + seq![10u8],
        JournalRecord::Reject { seq, kind } => seq_prefix_bytes() + spec_dec(seq as nat)
            + seq![32u8] + reject_tag_bytes() + spec_dec(kind as nat) + seq![10u8],
    }
}

/// The byte stream of a whole record sequence.
pub open spec fn lines_bytes(s: Seq<JournalRecord>) -> Seq<u8>
    decreases s.len(),
{
    if s.len() == 0 {
        Seq::empty()
    } else {
        lines_bytes(s.drop_last()) + line_bytes(s.last())
    }
}

/// The journal: the raw bytes, mirrored by a ghost record sequence.
pub struct Journal {
    pub bytes: Vec<u8>,
    pub records: Ghost<Seq<JournalRecord>>,
}

/// The bytes are exactly the lines of the records, in order.
pub open spec fn journal_wf(j: Journal) -> bool {
    j.bytes@ == lines_bytes(j.records@)
}

impl Journal {
    pub fn new() -> (r: Journal)
        ensures
            r.bytes@ == Seq::<u8>::empty(),
            r.records@ == Seq::<JournalRecord>::empty(),
            journal_wf(r),
    {
        let j = Journal { bytes: Vec::new(), records: Ghost(Seq::empty()) };
        proof {
            assert(j.bytes@ =~= lines_bytes(j.records@));
        }
        j
    }
}

fn push_byte(j: &mut Journal, b: u8)
    ensures
        final(j).bytes@ == old(j).bytes@.push(b),
        final(j).records@ == old(j).records@,
{
    j.bytes.push(b);
}

/// Decimal rendering of `v`, digit by digit.
fn w_u64(j: &mut Journal, v: u64)
    ensures
        final(j).bytes@ == old(j).bytes@ + spec_dec(v as nat),
        final(j).records@ == old(j).records@,
    decreases v,
{
    if v < 10 {
        push_byte(j, 48 + (v as u8));
        assert(j.bytes@ =~= old(j).bytes@ + spec_dec(v as nat));
    } else {
        w_u64(j, v / 10);
        push_byte(j, 48 + ((v % 10) as u8));
        assert(j.bytes@ =~= old(j).bytes@ + spec_dec(v as nat));
    }
}

fn sp(j: &mut Journal)
    ensures
        final(j).bytes@ == old(j).bytes@.push(32u8),
        final(j).records@ == old(j).records@,
{
    push_byte(j, 32u8);
}

fn nl(j: &mut Journal)
    ensures
        final(j).bytes@ == old(j).bytes@.push(10u8),
        final(j).records@ == old(j).records@,
{
    push_byte(j, 10u8);
}

fn w_seq_prefix(j: &mut Journal, seq: u64)
    ensures
        final(j).bytes@ == old(j).bytes@ + seq_prefix_bytes() + spec_dec(seq as nat)
            + seq![32u8],
        final(j).records@ == old(j).records@,
{
    push_byte(j, 115u8);
    push_byte(j, 101u8);
    push_byte(j, 113u8);
    push_byte(j, 61u8);
    w_u64(j, seq);
    sp(j);
    assert(j.bytes@ =~= old(j).bytes@ + seq_prefix_bytes() + spec_dec(seq as nat)
        + seq![32u8]);
}

/// `seq=N INTENT kind=K` — the engine is about to apply the action.
pub fn journal_intent(j: &mut Journal, seq: u64, a: &Action)
    requires
        journal_wf(*old(j)),
    ensures
        final(j).records@ == old(j).records@.push(
            JournalRecord::Intent { seq, kind: a.kind },
        ),
        final(j).bytes@ == old(j).bytes@ + line_bytes(
            JournalRecord::Intent { seq, kind: a.kind },
        ),
        journal_wf(*final(j)),
{
    w_seq_prefix(j, seq);
    push_byte(j, 73u8);
    push_byte(j, 78u8);
    push_byte(j, 84u8);
    push_byte(j, 69u8);
    push_byte(j, 78u8);
    push_byte(j, 84u8);
    push_byte(j, 32u8);
    push_byte(j, 107u8);
    push_byte(j, 105u8);
    push_byte(j, 110u8);
    push_byte(j, 100u8);
    push_byte(j, 61u8);
    w_u64(j, a.kind as u64);
    nl(j);
    let ghost rec = JournalRecord::Intent { seq, kind: a.kind };
    proof {
        j.records@ = j.records@.push(rec);
        assert(j.bytes@ =~= old(j).bytes@ + line_bytes(rec));
        assert(j.records@.drop_last() =~= old(j).records@);
        assert(j.bytes@ =~= lines_bytes(j.records@));
    }
}

/// `seq=N APPLY_OK kind=K` — the action was applied and the self-test passed.
pub fn journal_commit(j: &mut Journal, seq: u64, a: &Action)
    requires
        journal_wf(*old(j)),
    ensures
        final(j).records@ == old(j).records@.push(
            JournalRecord::Commit { seq, kind: a.kind },
        ),
        final(j).bytes@ == old(j).bytes@ + line_bytes(
            JournalRecord::Commit { seq, kind: a.kind },
        ),
        journal_wf(*final(j)),
{
    w_seq_prefix(j, seq);
    push_byte(j, 65u8);
    push_byte(j, 80u8);
    push_byte(j, 80u8);
    push_byte(j, 76u8);
    push_byte(j, 89u8);
    push_byte(j, 95u8);
    push_byte(j, 79u8);
    push_byte(j, 75u8);
    push_byte(j, 32u8);
    push_byte(j, 107u8);
    push_byte(j, 105u8);
    push_byte(j, 110u8);
    push_byte(j, 100u8);
    push_byte(j, 61u8);
    w_u64(j, a.kind as u64);
    nl(j);
    let ghost rec = JournalRecord::Commit { seq, kind: a.kind };
    proof {
        j.records@ = j.records@.push(rec);
        assert(j.bytes@ =~= old(j).bytes@ + line_bytes(rec));
        assert(j.records@.drop_last() =~= old(j).records@);
        assert(j.bytes@ =~= lines_bytes(j.records@));
    }
}

/// `seq=N APPLY_FAIL code=C` — the action was applied but then rolled back.
pub fn journal_fail(j: &mut Journal, seq: u64, _a: &Action, code: u32)
    requires
        journal_wf(*old(j)),
    ensures
        final(j).records@ == old(j).records@.push(JournalRecord::Fail { seq, code }),
        final(j).bytes@ == old(j).bytes@ + line_bytes(JournalRecord::Fail { seq, code }),
        journal_wf(*final(j)),
{
    w_seq_prefix(j, seq);
    push_byte(j, 65u8);
    push_byte(j, 80u8);
    push_byte(j, 80u8);
    push_byte(j, 76u8);
    push_byte(j, 89u8);
    push_byte(j, 95u8);
    push_byte(j, 70u8);
    push_byte(j, 65u8);
    push_byte(j, 73u8);
    push_byte(j, 76u8);
    push_byte(j, 32u8);
    push_byte(j, 99u8);
    push_byte(j, 111u8);
    push_byte(j, 100u8);
    push_byte(j, 101u8);
    push_byte(j, 61u8);
    w_u64(j, code as u64);
    nl(j);
    let ghost rec = JournalRecord::Fail { seq, code };
    proof {
        j.records@ = j.records@.push(rec);
        assert(j.bytes@ =~= old(j).bytes@ + line_bytes(rec));
        assert(j.records@.drop_last() =~= old(j).records@);
        assert(j.bytes@ =~= lines_bytes(j.records@));
    }
}

/// `seq=N REJECT kind=K` — the action never reached the apply step.
pub fn journal_reject(j: &mut Journal, seq: u64, a: &Action)
    requires
        journal_wf(*old(j)),
    ensures
        final(j).records@ == old(j).records@.push(
            JournalRecord::Reject { seq, kind: a.kind },
        ),
        final(j).bytes@ == old(j).bytes@ + line_bytes(
            JournalRecord::Reject { seq, kind: a.kind },
        ),
        journal_wf(*final(j)),
{
    w_seq_prefix(j, seq);
    push_byte(j, 82u8);
    push_byte(j, 69u8);
    push_byte(j, 74u8);
    push_byte(j, 69u8);
    push_byte(j, 67u8);
    push_byte(j, 84u8);
    push_byte(j, 32u8);
    push_byte(j, 107u8);
    push_byte(j, 105u8);
    push_byte(j, 110u8);
    push_byte(j, 100u8);
    push_byte(j, 61u8);
    w_u64(j, a.kind as u64);
    nl(j);
    let ghost rec = JournalRecord::Reject { seq, kind: a.kind };
    proof {
        j.records@ = j.records@.push(rec);
        assert(j.bytes@ =~= old(j).bytes@ + line_bytes(rec));
        assert(j.records@.drop_last() =~= old(j).records@);
        assert(j.bytes@ =~= lines_bytes(j.records@));
    }
}

} // verus!
