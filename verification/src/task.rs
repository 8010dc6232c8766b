//! Cooperative task registry.
//!
//! Eight slots of task handles and a rotating cursor. `run_once` picks at
//! most one registered task per call, round robin; the binary maps the
//! handle to the callback it registered and invokes it.

use vstd::prelude::*;

verus! {

pub const TASK_SLOTS: usize = 8;

/// The registry: optional task handles and the dispatch cursor.
pub struct TaskRegistry {
    pub slots: Vec<Option<u64>>,
    pub next_index: usize,
}

pub open spec fn registry_wf(t: TaskRegistry) -> bool {
    &&& t.slots@.len() == TASK_SLOTS
    &&& t.next_index < TASK_SLOTS
}

/// How many slots hold a task.
pub open spec fn spec_count_some(s: Seq<Option<u64>>) -> nat
    decreases s.len(),
{
    if s.len() == 0 {
        0
    } else {
        spec_count_some(s.drop_last()) + if s.last() is Some {
            1nat
        } else {
            0nat
        }
    }
}

impl TaskRegistry {
    pub fn new() -> (r: TaskRegistry)
        ensures
            registry_wf(r),
            forall|i: int| 0 <= i < TASK_SLOTS ==> r.slots@[i] is None,
            r.next_index == 0,
    {
        let mut slots: Vec<Option<u64>> = Vec::new();
        let mut i: usize = 0;
        while i < TASK_SLOTS
            invariant
                i <= TASK_SLOTS,
                slots@.len() == i,
                forall|k: int| 0 <= k < i ==> slots@[k] is None,
            decreases TASK_SLOTS - i,
        {
            slots.push(None);
            i = i + 1;
        }
        TaskRegistry { slots, next_index: 0 }
    }
}

/// The first index at or past `i` holding no task, or the length.
pub open spec fn spec_first_empty(s: Seq<Option<u64>>, i: int) -> int
    decreases s.len() - i,
{
    if i < 0 || i >= s.len() {
        s.len() as int
    } else if s[i] is None {
        i
    } else {
        spec_first_empty(s, i + 1)
    }
}

/// Put the task into the first empty slot; false when all eight are full.
pub fn register(t: &mut TaskRegistry, task: u64) -> (r: bool)
    requires
        registry_wf(*old(t)),
    ensures
        registry_wf(*final(t)),
        final(t).next_index == old(t).next_index,
        r == (spec_first_empty(old(t).slots@, 0) < TASK_SLOTS),
        r ==> final(t).slots@ == old(t).slots@.update(
            spec_first_empty(old(t).slots@, 0),
            Some(task),
        ),
        !r ==> *final(t) == *old(t) && forall|i: int|
            0 <= i < TASK_SLOTS ==> old(t).slots@[i] is Some,
{
    let mut i: usize = 0;
    while i < TASK_SLOTS
        invariant
            registry_wf(*t),
            *t == *old(t),
            i <= TASK_SLOTS,
            spec_first_empty(t.slots@, 0) == spec_first_empty(t.slots@, i as int),
            forall|k: int| 0 <= k < i ==> t.slots@[k] is Some,
        decreases TASK_SLOTS - i,
    {
        let slot_is_empty: bool = match t.slots[i] {
            None => true,
            Some(_) => false,
        };
        if slot_is_empty {
            t.slots.set(i, Some(task));
            return true;
        }
        i = i + 1;
    }
    false
}

/// The first index in `[a, b)` holding a task, or `b`.
pub open spec fn spec_first_task_in(s: Seq<Option<u64>>, a: int, b: int) -> int
    decreases b - a,
{
    if a < 0 || a >= b {
        b
    } else if s[a] is Some {
        a
    } else {
        spec_first_task_in(s, a + 1, b)
    }
}

/// The slot round-robin dispatch picks: the first occupied slot at or
/// after the cursor, wrapping to the front; the length when none is.
pub open spec fn spec_dispatch_choice(s: Seq<Option<u64>>, start: int) -> int {
    let ahead = spec_first_task_in(s, start, s.len() as int);
    if ahead < s.len() {
        ahead
    } else {
        let behind = spec_first_task_in(s, 0, start);
        if behind < start {
            behind
        } else {
            s.len() as int
        }
    }
}

/// Rotate the cursor over the slots and hand back the first registered
/// task at or after it, advancing the cursor past that slot; `None` when
/// the registry is empty.
pub fn run_once(t: &mut TaskRegistry) -> (r: Option<u64>)
    requires
        registry_wf(*old(t)),
    ensures
        registry_wf(*final(t)),
        final(t).slots@ == old(t).slots@,
        ({
            let c = spec_dispatch_choice(old(t).slots@, old(t).next_index as int);
            if c < TASK_SLOTS {
                &&& r == old(t).slots@[c]
                &&& r is Some
                &&& final(t).next_index == (c + 1) % (TASK_SLOTS as int)
            } else {
                &&& r is None
                &&& final(t).next_index == old(t).next_index
                &&& forall|i: int| 0 <= i < TASK_SLOTS ==> old(t).slots@[i] is None
            }
        }),
{
    let start: usize = t.next_index;
    let mut i: usize = start;
    while i < TASK_SLOTS
        invariant
            registry_wf(*t),
            *t == *old(t),
            start == old(t).next_index,
            start <= i <= TASK_SLOTS,
            spec_first_task_in(t.slots@, start as int, TASK_SLOTS as int)
                == spec_first_task_in(t.slots@, i as int, TASK_SLOTS as int),
            forall|j: int| start <= j < i ==> t.slots@[j] is None,
        decreases TASK_SLOTS - i,
    {
        let found: Option<u64> = t.slots[i];
        match found {
            Some(task) => {
                t.next_index = (i + 1) % TASK_SLOTS;
                proof {
                    vstd::arithmetic::div_mod::lemma_mod_division_less_than_divisor(
                        (i + 1) as int,
                        TASK_SLOTS as int,
                    );
                }
                return Some(task);
            },
            None => {},
        }
        i = i + 1;
    }
    let mut k: usize = 0;
    while k < start
        invariant
            registry_wf(*t),
            *t == *old(t),
            start == old(t).next_index,
            k <= start,
            spec_first_task_in(t.slots@, start as int, TASK_SLOTS as int) == TASK_SLOTS,
            spec_first_task_in(t.slots@, 0, start as int) == spec_first_task_in(
                t.slots@,
                k as int,
                start as int,
            ),
            forall|j: int| start <= j < TASK_SLOTS ==> t.slots@[j] is None,
            forall|j: int| 0 <= j < k ==> t.slots@[j] is None,
        decreases start - k,
    {
        let found: Option<u64> = t.slots[k];
        match found {
            Some(task) => {
                t.next_index = (k + 1) % TASK_SLOTS;
                proof {
                    vstd::arithmetic::div_mod::lemma_mod_division_less_than_divisor(
                        (k + 1) as int,
                        TASK_SLOTS as int,
                    );
                }
                return Some(task);
            },
            None => {},
        }
        k = k + 1;
    }
    None
}

/// How many tasks are registered.
pub fn runqueue_len(t: &TaskRegistry) -> (r: usize)
    requires
        registry_wf(*t),
    ensures
        r == spec_count_some(t.slots@),
{
    let n: usize = t.slots.len();
    let mut count: usize = 0;
    let mut i: usize = 0;
    while i < n
        invariant
            i <= n,
            n == t.slots@.len(),
            count <= i,
            count == spec_count_some(t.slots@.subrange(0, i as int)),
        decreases n - i,
    {
        let is_some: bool = match t.slots[i] {
            Some(_) => true,
            None => false,
        };
        if is_some {
            count = count + 1;
        }
        proof {
            assert(t.slots@.subrange(0, i + 1).drop_last() =~= t.slots@.subrange(0, i as int));
            assert(t.slots@.subrange(0, i + 1).last() == t.slots@[i as int]);
        }
        i = i + 1;
    }
    proof {
        assert(t.slots@.subrange(0, n as int) =~= t.slots@);
    }
    count
}

} // verus!
