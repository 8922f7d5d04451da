use tcp_optimiser::daemon_apply::{kill_decision, qdisc_next, qdisc_result, KillDecision, QdiscAction, QdiscWrites};

#[test]
fn connections_are_kept_for_transparent_proxies_unless_forced() {
    assert_eq!(kill_decision(true, true, true, false, false), KillDecision::Kill);
    assert_eq!(kill_decision(true, true, true, true, false), KillDecision::PreserveForProxy);
    assert_eq!(kill_decision(true, true, true, true, true), KillDecision::Kill);
    assert_eq!(kill_decision(false, true, true, false, false), KillDecision::Keep);
    assert_eq!(kill_decision(true, true, false, false, false), KillDecision::Keep);
}

#[test]
fn qdisc_fallback_replaces_requested_qdisc_only_when_applied() {
    let writes = QdiscWrites {
        default_result: Ok(()),
        iface_result: Err("EINVAL".to_string()),
        fallback: Some("fq_codel".to_string()),
        fallback_load: Some(Ok(())),
        fallback_default: Some(Ok(())),
        fallback_iface: Some(Ok(())),
    };
    let (failures, qdisc) = qdisc_result("wlan0", "cake", &writes);
    assert_eq!(failures, vec!["Interface qdisc cake (wlan0) failed: EINVAL".to_string()]);
    assert_eq!(qdisc, "fq_codel");

    let failed = QdiscWrites {
        default_result: Err("busy".to_string()),
        iface_result: Err("EINVAL".to_string()),
        fallback: Some("fq_codel".to_string()),
        fallback_load: Some(Err("no module".to_string())),
        fallback_default: None,
        fallback_iface: None,
    };
    let (failures, qdisc) = qdisc_result("wlan0", "cake", &failed);
    assert_eq!(
        failures,
        vec![
            "Default qdisc cake failed: busy".to_string(),
            "Interface qdisc cake (wlan0) failed: EINVAL".to_string(),
            "Fallback qdisc fq_codel load failed: no module".to_string(),
        ]
    );
    assert_eq!(qdisc, "cake");
}

#[test]
fn qdisc_fallback_chain_stops_at_its_first_failure() {
    let mut w = QdiscWrites {
        default_result: Ok(()),
        iface_result: Err("busy".to_string()),
        fallback: Some("fq_codel".to_string()),
        fallback_load: None,
        fallback_default: None,
        fallback_iface: None,
    };
    assert_eq!(qdisc_next(&w), Some(QdiscAction::LoadFallback));
    w.fallback_load = Some(Ok(()));
    assert_eq!(qdisc_next(&w), Some(QdiscAction::SetFallbackDefault));
    w.fallback_default = Some(Err("denied".to_string()));
    assert_eq!(qdisc_next(&w), None);
    w.fallback_default = Some(Ok(()));
    assert_eq!(qdisc_next(&w), Some(QdiscAction::SetFallbackInterface));
    w.fallback_iface = Some(Ok(()));
    assert_eq!(qdisc_next(&w), None);
    w.iface_result = Ok(());
    w.fallback_load = None;
    assert_eq!(qdisc_next(&w), None);
}

use tcp_optimiser::daemon_apply::{algorithm_marker, qdisc_marker, MarkerUpdate};

#[test]
fn unavailable_markers_follow_load_and_write_outcomes() {
    assert_eq!(algorithm_marker(&None), MarkerUpdate::Clear);
    assert_eq!(algorithm_marker(&Some(Ok(true))), MarkerUpdate::Clear);
    assert_eq!(algorithm_marker(&Some(Ok(false))), MarkerUpdate::Mark);
    assert_eq!(algorithm_marker(&Some(Err("insmod failed".to_string()))), MarkerUpdate::Mark);
    let bundled = vec!["cake".to_string(), "fq_pie".to_string()];
    assert_eq!(qdisc_marker("cake", &bundled, true), MarkerUpdate::Clear);
    assert_eq!(qdisc_marker("cake", &bundled, false), MarkerUpdate::Mark);
    assert_eq!(qdisc_marker("fq", &bundled, false), MarkerUpdate::Keep);
}
