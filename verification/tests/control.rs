use tcp_optimiser::control::{
    ack_matches, action_allowed_while_restoring, recovery_state, state_matches, ControlAck,
    read, ControlError, ControlState, RuntimeAction, RuntimeMode, StoredControl,
};

fn safe_state(generation: u64) -> ControlState {
    ControlState {
        format_version: 1,
        generation,
        mode: RuntimeMode::SafeMode,
        requested_action: RuntimeAction::AutomaticSafeMode,
        updated_at_epoch: 123,
        reason: "test".to_string(),
    }
}

#[test]
fn acknowledgement_must_match_generation_mode_and_pid() {
    let state = safe_state(7);
    let mut ack = ControlAck {
        format_version: 1,
        generation: 7,
        mode: RuntimeMode::SafeMode,
        daemon_pid: 42,
        acknowledged_at_epoch: 124,
    };
    assert!(ack_matches(&ack, &state, 42));
    ack.generation = 6;
    assert!(!ack_matches(&ack, &state, 42));
}

#[test]
fn transaction_state_requires_the_same_generation_and_mode() {
    let state = safe_state(7);
    assert!(state_matches(&state, &safe_state(7)));
    assert!(!state_matches(&state, &safe_state(8)));
    let mut active = safe_state(7);
    active.mode = RuntimeMode::Active;
    assert!(!state_matches(&state, &active));
}

#[test]
fn only_automatic_safe_mode_may_change_control_during_restore() {
    assert!(action_allowed_while_restoring(RuntimeAction::AutomaticSafeMode));
    assert!(!action_allowed_while_restoring(RuntimeAction::Resume));
    assert!(!action_allowed_while_restoring(RuntimeAction::Reload));
}

#[test]
fn corrupt_state_recovery_starts_safe_with_reset_generation() {
    let state = recovery_state("broken json");
    assert_eq!(state.mode, RuntimeMode::SafeMode);
    assert_eq!(state.generation, 0);
    assert!(state.reason.contains("broken json"));
}

#[test]
fn missing_control_state_defaults_to_active() {
    let state = read(StoredControl::Missing).unwrap();
    assert_eq!(state.mode, RuntimeMode::Active);
    assert_eq!(state.generation, 0);
}

#[test]
fn rejects_unknown_control_format() {
    let stored = ControlState {
        format_version: 9,
        generation: 1,
        mode: RuntimeMode::Active,
        requested_action: RuntimeAction::Reload,
        updated_at_epoch: 1,
        reason: "test".to_string(),
    };
    assert!(matches!(read(StoredControl::Decoded(stored)), Err(ControlError::InvalidData(_))));
}

use tcp_optimiser::control::{enter_automatic_safe_mode, pause, resume, sanitize_reason};

#[test]
fn pause_increments_generation_and_records_reason() {
    let current = read(StoredControl::Missing);
    let paused = pause(false, current, "user\nrequest").unwrap();
    assert_eq!(paused.generation, 1);
    assert_eq!(paused.mode, RuntimeMode::Paused);
    assert_eq!(paused.requested_action, RuntimeAction::Pause);
    assert_eq!(paused.reason, "user request");
    let resumed = resume(false, Ok(paused), "").unwrap();
    assert_eq!(resumed.generation, 2);
    assert_eq!(resumed.mode, RuntimeMode::Active);
    assert_eq!(resumed.reason, "unspecified");
}

#[test]
fn restoration_blocks_operator_actions_but_not_automatic_safe_mode() {
    assert_eq!(pause(true, Ok(safe_state(3)), "x"), Err(ControlError::RestoreInProgress));
    let state = enter_automatic_safe_mode(true, Ok(safe_state(3)), "x").unwrap();
    assert_eq!(state.generation, 4);
    assert_eq!(state.mode, RuntimeMode::SafeMode);
}

#[test]
fn invalid_document_is_replaced_by_recovery_state() {
    let current = Err(ControlError::InvalidData("bad".to_string()));
    let state = resume(false, current, "operator").unwrap();
    assert_eq!(state.generation, 1);
    assert_eq!(state.mode, RuntimeMode::Active);
    let io = Err(ControlError::Io("denied".to_string()));
    assert_eq!(resume(false, io, "operator"), Err(ControlError::Io("denied".to_string())));
}

#[test]
fn reason_is_cut_to_limit_and_trimmed() {
    let long = "a".repeat(300);
    assert_eq!(sanitize_reason(&long).len(), 240);
    assert_eq!(sanitize_reason("  ok \r\n"), "ok");
}

use tcp_optimiser::control::{read_ack, StoredAck};

#[test]
fn acknowledgement_format_is_checked() {
    let ack = ControlAck {
        format_version: 1,
        generation: 3,
        mode: RuntimeMode::Active,
        daemon_pid: 9,
        acknowledged_at_epoch: 5,
    };
    assert_eq!(read_ack(StoredAck::Decoded(ack.clone())), Ok(ack.clone()));
    let mut newer = ack;
    newer.format_version = 2;
    assert_eq!(
        read_ack(StoredAck::Decoded(newer)),
        Err(ControlError::InvalidData("unsupported runtime control acknowledgement format 2".to_string()))
    );
    assert_eq!(
        read_ack(StoredAck::Malformed("eof".to_string())),
        Err(ControlError::InvalidData("invalid runtime control acknowledgement: eof".to_string()))
    );
    assert_eq!(read_ack(StoredAck::Unreadable("gone".to_string())), Err(ControlError::Io("gone".to_string())));
}

use tcp_optimiser::control::{acknowledge, request_reload, set_safe_mode};

#[test]
fn reload_keeps_mode_and_safe_mode_toggles() {
    let reloaded = request_reload(false, Ok(safe_state(4)), "ui").unwrap();
    assert_eq!(reloaded.mode, RuntimeMode::SafeMode);
    assert_eq!(reloaded.requested_action, RuntimeAction::Reload);
    assert_eq!(reloaded.generation, 5);
    let left = set_safe_mode(false, false, Ok(reloaded), "ui").unwrap();
    assert_eq!(left.mode, RuntimeMode::Active);
    assert_eq!(left.requested_action, RuntimeAction::LeaveSafeMode);
    assert!(left.requested_action.requests_apply());
    let entered = set_safe_mode(true, false, Ok(left), "ui").unwrap();
    assert_eq!(entered.mode, RuntimeMode::SafeMode);
    assert!(!entered.requested_action.requests_apply());
    assert!(!entered.mode.allows_writes());
    let ack = acknowledge(&entered, 77);
    assert!(ack_matches(&ack, &entered, 77));
    assert!(!ack_matches(&ack, &entered, 78));
}

#[test]
fn blank_reason_reads_unspecified_and_kept_reasons_are_trimmed() {
    assert_eq!(sanitize_reason(" \t\r\n "), "unspecified");
    assert_eq!(sanitize_reason(""), "unspecified");
    let kept = sanitize_reason("  line one\nline two\0 ");
    assert_eq!(kept, "line one line two");
    assert_eq!(kept.trim(), kept);
}
