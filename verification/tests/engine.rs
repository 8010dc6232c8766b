use kernel_core::action::Action;
use kernel_core::engine::{
    ai_propose_action, apply_action_atomic, get_quantum_us, is_allowed, is_system_ready,
    self_test_ok, set_system_ready, validate_params, ApplyError, EngineState,
};
use kernel_core::journal::Journal;

fn set_quantum(param1: u64) -> Action {
    Action::new(1, 1, param1, 0, 0)
}

#[test]
fn happy_path_set_quantum() {
    let mut state = EngineState::new();
    let mut j = Journal::new();
    set_system_ready(&mut state);
    assert!(is_system_ready(&state));

    let outcome = ai_propose_action(&mut state, &mut j, &set_quantum(2000), true);
    assert_eq!(outcome.result, 0);
    assert_eq!(get_quantum_us(&state), 2000);
    assert_eq!(j.bytes, b"seq=0 INTENT kind=1\nseq=0 APPLY_OK kind=1\n".to_vec());
}

#[test]
fn out_of_range_quantum_is_rejected() {
    let mut state = EngineState::new();
    let mut j = Journal::new();
    set_system_ready(&mut state);

    let outcome = ai_propose_action(&mut state, &mut j, &set_quantum(60000), true);
    assert_eq!(outcome.result, 1);
    assert_eq!(get_quantum_us(&state), 1000);
    assert_eq!(j.bytes, b"seq=0 REJECT kind=1\n".to_vec());
}

#[test]
fn unsupported_kind_is_rejected() {
    let mut state = EngineState::new();
    let mut j = Journal::new();
    set_system_ready(&mut state);

    // MigrateTask (kind 3) is reserved; nothing may change.
    let outcome = ai_propose_action(&mut state, &mut j, &Action::new(3, 0, 0, 0, 0), true);
    assert_eq!(outcome.result, 1);
    assert_eq!(get_quantum_us(&state), 1000);
    assert_eq!(j.bytes, b"seq=0 REJECT kind=3\n".to_vec());
}

#[test]
fn not_ready_rejects_valid_actions() {
    let mut state = EngineState::new();
    let mut j = Journal::new();

    let outcome = ai_propose_action(&mut state, &mut j, &set_quantum(2000), true);
    assert_eq!(outcome.result, 1);
    assert_eq!(get_quantum_us(&state), 1000);
    assert_eq!(j.bytes, b"seq=0 REJECT kind=1\n".to_vec());
}

#[test]
fn selftest_failure_rolls_back_the_quantum() {
    let mut state = EngineState::new();
    let mut j = Journal::new();
    set_system_ready(&mut state);

    let before = get_quantum_us(&state);
    let r = apply_action_atomic(&mut state, &mut j, 7, &set_quantum(4000), false);
    assert_eq!(r, Err(ApplyError::SelfTestFailed));
    assert_eq!(get_quantum_us(&state), before);
    assert_eq!(j.bytes, b"seq=7 INTENT kind=1\nseq=7 APPLY_FAIL code=5\n".to_vec());
}

#[test]
fn trim_cache_commits_without_touching_the_quantum() {
    let mut state = EngineState::new();
    let mut j = Journal::new();
    set_system_ready(&mut state);

    let outcome = ai_propose_action(
        &mut state,
        &mut j,
        &Action::new(4, 1, 1024 * 1024, 0, 0),
        true,
    );
    assert_eq!(outcome.result, 0);
    assert_eq!(get_quantum_us(&state), 1000);
    assert_eq!(j.bytes, b"seq=0 INTENT kind=4\nseq=0 APPLY_OK kind=4\n".to_vec());
}

#[test]
fn sequence_numbers_increase_per_proposal() {
    let mut state = EngineState::new();
    let mut j = Journal::new();
    set_system_ready(&mut state);

    ai_propose_action(&mut state, &mut j, &set_quantum(2000), true);
    ai_propose_action(&mut state, &mut j, &set_quantum(3000), true);
    let text = String::from_utf8(j.bytes.clone()).unwrap();
    assert!(text.contains("seq=0 INTENT kind=1"));
    assert!(text.contains("seq=1 INTENT kind=1"));
    assert_eq!(state.seq, 2);
}

#[test]
fn validation_limits_are_exact() {
    assert!(is_allowed(1) && is_allowed(4));
    assert!(!is_allowed(0) && !is_allowed(3) && !is_allowed(255));
    assert!(validate_params(&set_quantum(100)));
    assert!(validate_params(&set_quantum(50000)));
    assert!(!validate_params(&set_quantum(99)));
    assert!(!validate_params(&set_quantum(50001)));
    assert!(validate_params(&Action::new(4, 0, 1, 0, 0)));
    assert!(validate_params(&Action::new(4, 0, 16 * 1024 * 1024, 0, 0)));
    assert!(!validate_params(&Action::new(4, 0, 0, 0, 0)));
    assert!(!validate_params(&Action::new(4, 0, 16 * 1024 * 1024 + 1, 0, 0)));
}

#[test]
fn selftest_needs_a_tick_and_no_faults() {
    assert!(self_test_ok(10, 3, 11, 3));
    assert!(!self_test_ok(10, 3, 10, 3));
    assert!(!self_test_ok(10, 3, 12, 4));
    assert!(!self_test_ok(10, 3, 9, 3));
}
