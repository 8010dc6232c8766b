//! Actions: typed, parameterized requests to mutate kernel policy.

use vstd::prelude::*;

verus! {

/// Flag bit: the engine must snapshot the previous state before applying.
pub const ACTF_REQUIRES_SNAPSHOT: u8 = 1;
/// Flag bit: the action is considered high risk.
pub const ACTF_HIGH_RISK: u8 = 2;
/// Flag bit: a human must confirm before the action may be proposed.
pub const ACTF_NEEDS_MANUAL_CONFIRM: u8 = 4;

/// Kind code for `ActionType::SetQuantum`.
pub const KIND_SET_QUANTUM: u8 = 1;
/// Kind code for `ActionType::TrimCache`.
pub const KIND_TRIM_CACHE: u8 = 4;

/// A proposed policy change, tagged by `kind` with up to three parameters.
#[derive(Copy, Clone, Debug)]
pub struct Action {
    pub kind: u8,
    pub flags: u8,
    pub _r: [u8; 2],
    pub param1: u64,
    pub param2: u64,
    pub param3: u64,
}

impl Action {
    pub fn new(kind: u8, flags: u8, param1: u64, param2: u64, param3: u64) -> (r: Action)
        ensures
            r.kind == kind,
            r.flags == flags,
            r.param1 == param1,
            r.param2 == param2,
            r.param3 == param3,
    {
        Action { kind, flags, _r: [0, 0], param1, param2, param3 }
    }
}

impl Default for Action {
    fn default() -> (r: Action)
        ensures
            r.kind == 0,
            r.flags == 0,
            r.param1 == 0,
            r.param2 == 0,
            r.param3 == 0,
    {
        Action { kind: 0, flags: 0, _r: [0, 0], param1: 0, param2: 0, param3: 0 }
    }
}

/// The action kinds the journal and the engine know about.
#[derive(Copy, Clone, Debug, PartialEq, Eq, Structural)]
pub enum ActionType {
    NoOp,
    SetQuantum,
    SetAffinity,
    MigrateTask,
    TrimCache,
    Reboot,
    Halt,
}

impl ActionType {
    /// The wire code of each kind, as it appears in `Action::kind`.
    pub fn code(self) -> (r: u8)
        ensures
            r == self.spec_code(),
    {
        match self {
            ActionType::NoOp => 0,
            ActionType::SetQuantum => 1,
            ActionType::SetAffinity => 2,
            ActionType::MigrateTask => 3,
            ActionType::TrimCache => 4,
            ActionType::Reboot => 254,
            ActionType::Halt => 255,
        }
    }

    pub open spec fn spec_code(self) -> u8 {
        match self {
            ActionType::NoOp => 0,
            ActionType::SetQuantum => 1,
            ActionType::SetAffinity => 2,
            ActionType::MigrateTask => 3,
            ActionType::TrimCache => 4,
            ActionType::Reboot => 254,
            ActionType::Halt => 255,
        }
    }
}

/// Result codes reported in `ActionOutcome::result`.
pub const RESULT_ACCEPTED: u8 = 0;
pub const RESULT_REJECTED: u8 = 1;
pub const RESULT_INVALID_PARAMS: u8 = 3;
pub const RESULT_EXECUTE_FAILED: u8 = 4;
pub const RESULT_SELFTEST_FAILED: u8 = 5;

/// What became of one proposed action.
#[derive(Copy, Clone, Debug)]
pub struct ActionOutcome {
    pub result: u8,
    pub selftest_code: u32,
    pub snapshot_id: u64,
}

impl Default for ActionOutcome {
    fn default() -> (r: ActionOutcome)
        ensures
            r.result == 0,
            r.selftest_code == 0,
            r.snapshot_id == 0,
    {
        ActionOutcome { result: 0, selftest_code: 0, snapshot_id: 0 }
    }
}

} // verus!
