use tcp_optimiser::adaptive::PathState;
use tcp_optimiser::control::{ControlError, ControlState, RuntimeAction, RuntimeMode};
use tcp_optimiser::daemon_loop::{
    after_route_apply, after_vowifi_probe, control_step, initial_loop_state, next_sleep,
    on_adaptive_state, on_route, on_route_lost, on_wifi, qdisc_due, wifi_wait_pending, writes_after_ack,
};
use tcp_optimiser::network::IfaceMode;

#[test]
fn cellular_route_applies_at_once_and_wifi_waits_for_calling() {
    let mut state = initial_loop_state();
    let step = on_route(&mut state, "rmnet_data0", false, 0);
    assert_eq!(step.apply, Some(IfaceMode::Cellular));
    assert!(step.mode_changed);
    after_route_apply(&mut state, &step, 0);
    assert_eq!(next_sleep(&mut state, false, step.mode_changed), 2);

    let step = on_route(&mut state, "wlan0", false, 20_000);
    assert_eq!(step.mode, IfaceMode::WiFi);
    assert_eq!(step.apply, None);
    after_route_apply(&mut state, &step, 20_000);
    assert!(wifi_wait_pending(&state, "wlan0", IfaceMode::WiFi));
    assert!(on_wifi(&mut state, "wlan0", IfaceMode::WiFi, 20_000));
    assert!(!after_vowifi_probe(&mut state, Some(false), 20_000));
    assert!(!on_wifi(&mut state, "wlan0", IfaceMode::WiFi, 22_000));
    assert!(after_vowifi_probe(&mut state, None, 30_000));
    assert!(!wifi_wait_pending(&state, "wlan0", IfaceMode::WiFi));
}

#[test]
fn lost_route_warns_once_and_forgets_the_interface() {
    let mut state = initial_loop_state();
    let step = on_route(&mut state, "rmnet_data0", false, 0);
    after_route_apply(&mut state, &step, 0);
    let first = on_route_lost(&mut state);
    assert!(first.warn && first.reset_observer);
    assert_eq!(first.wait_secs, 30);
    let second = on_route_lost(&mut state);
    assert!(!second.warn && !second.reset_observer);
    let back = on_route(&mut state, "rmnet_data0", false, 60_000);
    assert!(back.log_restored);
}

#[test]
fn qdisc_watchdog_and_adaptive_persistence_follow_their_intervals() {
    let mut state = initial_loop_state();
    let step = on_route(&mut state, "rmnet_data0", false, 0);
    after_route_apply(&mut state, &step, 0);
    assert!(!qdisc_due(&state, IfaceMode::Cellular, 119_000));
    assert!(qdisc_due(&state, IfaceMode::Cellular, 120_000));
    let first = on_adaptive_state(&mut state, PathState::Stable, 0);
    assert_eq!(first.changed, Some((PathState::Unknown, PathState::Stable)));
    assert!(first.persist);
    let again = on_adaptive_state(&mut state, PathState::Stable, 1_000);
    assert_eq!(again.changed, None);
}

#[test]
fn polling_stays_fast_for_three_quiet_cycles_after_a_change() {
    let mut state = initial_loop_state();
    assert_eq!(next_sleep(&mut state, false, false), 30);
    assert_eq!(next_sleep(&mut state, false, true), 2);
    assert_eq!(next_sleep(&mut state, false, false), 2);
    assert_eq!(next_sleep(&mut state, false, false), 2);
    assert_eq!(next_sleep(&mut state, false, false), 2);
    assert_eq!(next_sleep(&mut state, false, false), 30);
    assert_eq!(next_sleep(&mut state, true, false), 2);
    assert_eq!(next_sleep(&mut state, false, false), 30);
}

fn control_state(generation: u64, mode: RuntimeMode, action: RuntimeAction) -> ControlState {
    ControlState {
        format_version: 1,
        generation,
        mode,
        requested_action: action,
        updated_at_epoch: 1,
        reason: "test".to_string(),
    }
}

#[test]
fn new_generation_is_acknowledged_before_writes_and_consumed_once() {
    let reload = Ok(control_state(4, RuntimeMode::Active, RuntimeAction::Reload));
    let step = control_step(Some(3), &reload, false, true);
    assert!(step.writes_allowed && step.acknowledge && step.apply_now);
    assert_eq!(writes_after_ack(step, true), (true, true));
    assert_eq!(writes_after_ack(step, false), (false, false));

    let again = control_step(Some(4), &reload, false, true);
    assert!(again.writes_allowed && !again.acknowledge && !again.apply_now);
    assert_eq!(writes_after_ack(again, false), (true, false));
}

#[test]
fn paused_safe_mode_restoring_or_unreadable_control_blocks_writes() {
    let paused = Ok(control_state(5, RuntimeMode::Paused, RuntimeAction::Pause));
    let step = control_step(Some(4), &paused, false, true);
    assert!(!step.writes_allowed && step.acknowledge && !step.apply_now);

    let safe = Ok(control_state(6, RuntimeMode::SafeMode, RuntimeAction::AutomaticSafeMode));
    assert!(!control_step(None, &safe, true, true).writes_allowed);

    let resumed = Ok(control_state(7, RuntimeMode::Active, RuntimeAction::Resume));
    let blocked = control_step(Some(6), &resumed, true, true);
    assert!(!blocked.writes_allowed && blocked.acknowledge && !blocked.apply_now);

    let broken: Result<ControlState, ControlError> = Err(ControlError::InvalidData("bad".to_string()));
    let step = control_step(None, &broken, false, true);
    assert!(!step.writes_allowed && !step.acknowledge && !step.apply_now);
}

#[test]
fn missing_or_unusable_baseline_blocks_writes() {
    let reload = Ok(control_state(4, RuntimeMode::Active, RuntimeAction::Reload));
    let step = control_step(Some(3), &reload, false, false);
    assert!(!step.writes_allowed && step.acknowledge && !step.apply_now);
}
