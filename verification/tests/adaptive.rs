use tcp_optimiser::adaptive::runtime_state_is_current;

#[test]
fn runtime_state_rejects_stale_or_wrong_interface() {
    assert!(runtime_state_is_current(1, "wlan0", 1_000, "wlan0", 1_120));
    assert!(!runtime_state_is_current(1, "wlan0", 1_000, "wlan0", 1_121));
    assert!(!runtime_state_is_current(1, "wlan0", 1_000, "rmnet_data0", 1_100));
    assert!(!runtime_state_is_current(1, "wlan0", 1_000, "wlan0", 999));
}

use tcp_optimiser::adaptive::{HysteresisClassifier, PathState};

#[test]
fn hysteresis_switches_after_three_confident_observations() {
    let mut classifier = HysteresisClassifier::new();
    assert_eq!(classifier.update(PathState::Stable, 90), PathState::Unknown);
    assert_eq!(classifier.update(PathState::Stable, 90), PathState::Unknown);
    assert_eq!(classifier.update(PathState::Stable, 90), PathState::Stable);
    assert_eq!(classifier.current(), PathState::Stable);
}

#[test]
fn hysteresis_ignores_low_confidence_observations() {
    let mut classifier = HysteresisClassifier::new();
    for _ in 0..3 {
        classifier.update(PathState::Stable, 90);
    }
    assert_eq!(classifier.update(PathState::Unknown, 59), PathState::Stable);
    assert_eq!(classifier.update(PathState::Bufferbloat, 59), PathState::Stable);
    assert!(classifier.pending.is_none());
}

#[test]
fn hysteresis_observation_of_current_state_clears_pending_change() {
    let mut classifier = HysteresisClassifier::new();
    for _ in 0..3 {
        classifier.update(PathState::Stable, 90);
    }
    classifier.update(PathState::Bufferbloat, 90);
    classifier.update(PathState::Bufferbloat, 90);
    assert_eq!(classifier.update(PathState::Stable, 90), PathState::Stable);
    assert_eq!(classifier.pending_count, 0);
    assert_eq!(classifier.update(PathState::Bufferbloat, 90), PathState::Stable);
}

// A quiet sample (35 ms RTT, 0.1 % retransmissions, no qdisc drops) is
// classified Stable with confidence 82; one without RTT and retransmission
// data is classified Unknown with confidence 35.
#[test]
fn hysteresis_requires_repeated_confident_observations() {
    let mut classifier = HysteresisClassifier::new();

    assert_eq!(classifier.update(PathState::Stable, 82), PathState::Unknown);
    assert_eq!(classifier.update(PathState::Stable, 82), PathState::Unknown);
    assert_eq!(classifier.update(PathState::Stable, 82), PathState::Stable);
    assert_eq!(classifier.current(), PathState::Stable);
}

#[test]
fn low_confidence_sample_does_not_flip_state() {
    let mut classifier = HysteresisClassifier::new();
    classifier.update(PathState::Stable, 82);
    classifier.update(PathState::Stable, 82);
    classifier.update(PathState::Stable, 82);

    let (state, confidence) = (PathState::Unknown, 35u8);
    assert_eq!(state, PathState::Unknown);
    assert!(confidence < 60);
    assert_eq!(classifier.update(state, confidence), PathState::Stable);
}

#[test]
fn compressed_week_survives_repeated_path_transitions_without_flapping() {
    // One loop iteration represents one minute: 10,080 virtual minutes = 7 days.
    // Every two hours the environment changes. Hysteresis must require exactly
    // three confident observations before following the new path state.
    let states = [
        PathState::Stable,
        PathState::Bufferbloat,
        PathState::LossyWireless,
        PathState::HighBdp,
        PathState::ProxyConstrained,
        PathState::Congested,
    ];
    let mut classifier = HysteresisClassifier::new();
    let mut committed_transitions = 0usize;
    let mut previous = classifier.current();

    for virtual_minute in 0..10_080usize {
        let phase = virtual_minute / 120;
        let expected = states[phase % states.len()];
        let before = classifier.current();
        let after = classifier.update(expected, 90);
        if after != previous {
            committed_transitions += 1;
            previous = after;
        }

        let minute_in_phase = virtual_minute % 120;
        if minute_in_phase < 2 && before != expected {
            assert_eq!(after, before, "state flipped before hysteresis completed");
        }
        if minute_in_phase >= 2 {
            assert_eq!(after, expected, "state failed to converge within three samples");
        }
    }

    assert!(committed_transitions >= 80);
    assert!(committed_transitions <= 84);
}
