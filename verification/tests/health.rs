use tcp_optimiser::checkpoint::{empty_failure_state, FailureState};
use tcp_optimiser::health::{after_verification, HealthStep};
use tcp_optimiser::policy::{VerificationSnapshot, VerificationSummary};

fn snapshot(drifted: usize, unavailable: usize, errors: Vec<String>) -> VerificationSnapshot {
    VerificationSnapshot {
        summary: VerificationSummary { matched: 6 - drifted - unavailable, total: 6, drifted, unavailable },
        checks: Vec::new(),
        errors,
        last_repair: None,
    }
}

fn journal(count: u32) -> Result<FailureState, String> {
    let mut state = empty_failure_state();
    state.consecutive_failures = count;
    Ok(state)
}

#[test]
fn fully_verified_policy_is_checkpointed() {
    let step = after_verification(&snapshot(0, 0, Vec::new()), &Vec::new(), journal(2));
    assert!(matches!(step, HealthStep::PersistCheckpoint));
    let step = after_verification(&snapshot(0, 0, Vec::new()), &Vec::new(), Err("bad".to_string()));
    assert!(matches!(step, HealthStep::PersistCheckpoint));
}

#[test]
fn third_consecutive_failure_enters_safe_mode() {
    let failures = vec!["Pacing apply failed: busy".to_string()];
    let mut count = 0;
    for expected_safe_mode in [false, false, true, true] {
        match after_verification(&snapshot(1, 0, Vec::new()), &failures, journal(count)) {
            HealthStep::RecordFailure { state, automatic_safe_mode } => {
                assert_eq!(state.consecutive_failures, count + 1);
                assert_eq!(automatic_safe_mode, expected_safe_mode);
                assert_eq!(
                    state.last_error,
                    "post-apply verification failed: 1 drifted, 0 unavailable; Pacing apply failed: busy"
                );
                count = state.consecutive_failures;
            }
            other => panic!("unexpected step {other:?}"),
        }
    }
}

#[test]
fn failure_message_lists_errors_and_is_cut() {
    let errors = vec!["x".repeat(400)];
    match after_verification(&snapshot(0, 2, errors), &Vec::new(), journal(u32::MAX)) {
        HealthStep::RecordFailure { state, automatic_safe_mode } => {
            assert_eq!(state.consecutive_failures, u32::MAX);
            assert!(automatic_safe_mode);
            assert_eq!(state.last_error.len(), 320);
            assert!(state.last_error.starts_with("post-apply verification failed: 0 drifted, 2 unavailable; xxx"));
        }
        other => panic!("unexpected step {other:?}"),
    }
}

#[test]
fn unusable_journal_is_reported_not_reset() {
    let step = after_verification(&snapshot(0, 1, Vec::new()), &Vec::new(), Err("invalid policy failure state".to_string()));
    match step {
        HealthStep::JournalUnusable { error } => assert_eq!(error, "invalid policy failure state"),
        other => panic!("unexpected step {other:?}"),
    }
}
