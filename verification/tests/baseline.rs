use tcp_optimiser::baseline::{qdisc_equivalent, validate_interface_name, validate_kernel_token};

#[test]
fn qdisc_noqueue_and_absent_are_equivalent() {
    assert!(qdisc_equivalent(None, None));
    assert!(qdisc_equivalent(None, Some("noqueue")));
    assert!(qdisc_equivalent(Some("noqueue"), None));
    assert!(qdisc_equivalent(Some("fq_codel"), Some("fq_codel")));
    assert!(!qdisc_equivalent(Some("fq"), Some("fq_codel")));
}

#[test]
fn rejects_unsafe_kernel_identifiers() {
    assert!(validate_interface_name("rmnet_data0").is_ok());
    assert!(validate_interface_name("wlan0;reboot").is_err());
    assert!(validate_kernel_token("fq_codel").is_ok());
    assert!(validate_kernel_token("fq codel").is_err());
}

use tcp_optimiser::baseline::{
    capture_snapshot, restore, restore_sequence, BaselineError, BaselineSnapshot, InterfaceBaseline,
    SysctlRestore, MANAGED_COUNT,
};

fn captured() -> BaselineSnapshot {
    let mut values: Vec<Option<String>> = vec![None; MANAGED_COUNT];
    values[0] = Some("cubic".to_string());
    values[10] = Some("4096 87380 6291456".to_string());
    capture_snapshot(&values, Some(("wlan0".to_string(), Some("fq_codel".to_string())))).unwrap()
}

#[test]
fn capture_keeps_readable_managed_values_and_active_qdisc() {
    let snapshot = captured();
    assert_eq!(snapshot.version, 1);
    assert_eq!(
        snapshot.sysctls,
        vec![
            ("/proc/sys/net/ipv4/tcp_congestion_control".to_string(), "cubic".to_string()),
            ("/proc/sys/net/ipv4/tcp_rmem".to_string(), "4096 87380 6291456".to_string()),
        ]
    );
    assert_eq!(snapshot.interfaces.len(), 1);
    assert_eq!(snapshot.interfaces[0].0, "wlan0");
    let values: Vec<Option<String>> = vec![None; MANAGED_COUNT];
    assert_eq!(capture_snapshot(&values, None).err(), Some(BaselineError::NothingReadable));
}

#[test]
fn restore_reports_sorted_unique_errors_and_counts() {
    let snapshot = captured();
    let steps = restore_sequence(&snapshot);
    assert_eq!(steps.len(), 2);
    assert_eq!(steps[0].0, "/proc/sys/net/ipv4/tcp_rmem");
    assert_eq!(steps[1].0, "/proc/sys/net/ipv4/tcp_congestion_control");
    let outcomes = vec![
        SysctlRestore::ReadBack("4096 87380 6291456".to_string()),
        SysctlRestore::WriteFailed("denied".to_string()),
    ];
    let interfaces = vec![
        ("wlan0".to_string(), InterfaceBaseline { root_qdisc: None }),
        ("rmnet_data0".to_string(), InterfaceBaseline { root_qdisc: None }),
    ];
    let iface_outcomes = vec![Err("busy".to_string()), Ok(())];
    let report = restore(&steps, &outcomes, &interfaces, &iface_outcomes);
    assert!(!report.success);
    assert_eq!(report.restored_sysctls, 1);
    assert_eq!(report.restored_interfaces, 1);
    assert_eq!(
        report.errors,
        vec![
            "interface wlan0: busy".to_string(),
            "sysctl restore failed: /proc/sys/net/ipv4/tcp_congestion_control: denied".to_string(),
        ]
    );
}

#[test]
fn restore_reports_readback_mismatch_with_quoted_values() {
    let steps = vec![("/proc/sys/net/ipv4/tcp_ecn".to_string(), "2".to_string())];
    let outcomes = vec![SysctlRestore::ReadBack("1".to_string())];
    let report = restore(&steps, &outcomes, &Vec::new(), &Vec::new());
    assert_eq!(
        report.errors,
        vec!["sysctl readback mismatch: /proc/sys/net/ipv4/tcp_ecn, expected \"2\", got \"1\"".to_string()]
    );
    let refused = vec![("/proc/sys/kernel/panic".to_string(), "1".to_string())];
    let report = restore(&refused, &vec![SysctlRestore::ReadBack("1".to_string())], &Vec::new(), &Vec::new());
    assert_eq!(report.errors, vec!["refused unmanaged sysctl path: /proc/sys/kernel/panic".to_string()]);
    assert_eq!(report.restored_sysctls, 0);
}

use tcp_optimiser::baseline::{ensure_interface_baseline, qdisc_restore_action, qdisc_restore_result};

#[test]
fn qdisc_restore_runs_tc_only_when_needed() {
    assert_eq!(qdisc_restore_action("wlan0", Some("fq_codel"), Some("fq_codel")), Ok(None));
    assert_eq!(
        qdisc_restore_action("wlan0", Some("fq_codel"), Some("cake")),
        Ok(Some(vec!["qdisc", "replace", "dev", "wlan0", "root", "fq_codel"].into_iter().map(String::from).collect()))
    );
    assert_eq!(
        qdisc_restore_action("wlan0", Some("mq"), Some("cake")),
        Ok(Some(vec!["qdisc", "del", "dev", "wlan0", "root"].into_iter().map(String::from).collect()))
    );
    assert_eq!(
        qdisc_restore_action("wlan0;x", None, None),
        Err(BaselineError::InvalidInterfaceName("wlan0;x".to_string()))
    );
    assert_eq!(
        qdisc_restore_action("wlan0", Some("fq codel"), None),
        Err(BaselineError::InvalidQdiscToken("fq codel".to_string()))
    );
    assert_eq!(qdisc_restore_result(None, Some("noqueue"), ""), Ok(()));
    assert_eq!(
        qdisc_restore_result(Some("fq"), None, "RTNETLINK answers: busy"),
        Err("qdisc restore mismatch, expected fq, got none; tc stderr: RTNETLINK answers: busy".to_string())
    );
}

#[test]
fn interface_is_journaled_once() {
    let values: Vec<Option<String>> = vec![None; MANAGED_COUNT];
    let snapshot = captured();
    let added = ensure_interface_baseline("rmnet_data0", Some(snapshot.clone()), &values, None, Ok(Some("pfifo_fast".to_string())))
        .unwrap()
        .unwrap();
    assert_eq!(added.interfaces.len(), 2);
    assert_eq!(added.interfaces[1].0, "rmnet_data0");
    assert_eq!(added.interfaces[1].1.root_qdisc, Some("pfifo_fast".to_string()));
    assert!(ensure_interface_baseline("wlan0", Some(snapshot.clone()), &values, None, Ok(None)).unwrap().is_none());
    assert_eq!(
        ensure_interface_baseline("rmnet_data0", Some(snapshot), &values, None, Err("tc failed".to_string())).err(),
        Some(BaselineError::ReadFailed("tc failed".to_string()))
    );
}

#[test]
fn existing_baseline_keeps_its_capture_time_and_gates_writes() {
    let mut existing = captured();
    existing.captured_at_epoch = 1234;
    let values: Vec<Option<String>> = vec![None; MANAGED_COUNT];
    let (kept, write, summary) =
        tcp_optimiser::baseline::ensure_global_baseline("b.json", Some(existing.clone()), &values, None).unwrap();
    assert!(!write);
    assert_eq!(kept.captured_at_epoch, 1234);
    assert_eq!(summary.captured_at_epoch, 1234);

    let journaled = tcp_optimiser::baseline::ensure_interface_baseline(
        "rmnet_data0",
        Some(existing.clone()),
        &values,
        None,
        Ok(Some("pfifo_fast".to_string())),
    )
    .unwrap()
    .unwrap();
    assert_eq!(journaled.captured_at_epoch, 1234);
    assert_eq!(journaled.interfaces.len(), existing.interfaces.len() + 1);

    assert!(tcp_optimiser::baseline::baseline_usable(&Some(existing.clone())));
    let mut unsupported = existing;
    unsupported.version = 2;
    assert!(!tcp_optimiser::baseline::baseline_usable(&Some(unsupported)));
    assert!(!tcp_optimiser::baseline::baseline_usable(&None));
}

use tcp_optimiser::baseline::{restore_action, RestoreAction};

#[test]
fn restore_writes_only_existing_allowlisted_paths() {
    let managed = "/proc/sys/net/ipv4/tcp_congestion_control";
    assert_eq!(restore_action(managed, true), RestoreAction::Write);
    assert_eq!(restore_action(managed, false), RestoreAction::Vanished);
    assert_eq!(restore_action("/proc/sys/kernel/panic", true), RestoreAction::Refuse);
    assert_eq!(restore_action("/proc/sys/kernel/panic", false), RestoreAction::Refuse);
}

#[test]
fn capture_treats_unread_trailing_nodes_as_absent() {
    let values = vec![Some("cubic".to_string())];
    let snapshot = capture_snapshot(&values, None).unwrap();
    assert_eq!(
        snapshot.sysctls,
        vec![("/proc/sys/net/ipv4/tcp_congestion_control".to_string(), "cubic".to_string())]
    );
    assert_eq!(capture_snapshot(&Vec::new(), None).err(), Some(BaselineError::NothingReadable));
}
