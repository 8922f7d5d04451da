use tcp_optimiser::control::RuntimeMode;
use tcp_optimiser::plan::{diff, value, PolicyPlan};

#[test]
fn plan_value_marks_only_real_differences() {
    assert!(!value(Some("bbr".into()), Some("bbr".into())).changed);
    assert!(value(Some("cubic".into()), Some("bbr".into())).changed);
    assert!(value(None, Some("bbr".into())).changed);
    assert!(!value(Some("bbr".into()), None).changed);
}

#[test]
fn diff_lists_only_values_that_would_change() {
    let plan = PolicyPlan {
        interface: "wlan0".to_string(),
        interface_mode: "wifi".to_string(),
        interface_mtu: Some(1500),
        wifi_frequency_mhz: Some(5180),
        runtime_mode: RuntimeMode::Active,
        write_allowed: true,
        algorithm: value(Some("cubic".into()), Some("bbr".into())),
        default_qdisc: value(Some("fq".into()), Some("fq".into())),
        interface_qdisc: value(None, Some("fq".into())),
        pacing_ca: value(Some("150".into()), Some("150".into())),
        pacing_ss: value(Some("200".into()), None),
        changes: vec!["algorithm".to_string(), "interface_qdisc".to_string()],
        warnings: vec!["note".to_string()],
    };
    let d = diff(plan);
    let keys: Vec<&str> = d.changes.iter().map(|c| c.key.as_str()).collect();
    assert_eq!(keys, vec!["algorithm", "interface_qdisc"]);
    assert_eq!(d.changes[0].current.as_deref(), Some("cubic"));
    assert_eq!(d.changes[0].planned.as_deref(), Some("bbr"));
    assert!(d.changes[0].available);
    assert_eq!(d.changes[1].current, None);
    assert!(!d.changes[1].available);
    assert_eq!(d.interface, "wlan0");
    assert!(d.write_allowed);
    assert_eq!(d.warnings, vec!["note".to_string()]);
}
