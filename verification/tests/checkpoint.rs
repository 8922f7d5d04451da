use tcp_optimiser::checkpoint::{compare_value, validate_checkpoint, validate_iface_name, LastGoodPolicy};

fn checkpoint() -> LastGoodPolicy {
    LastGoodPolicy {
        format_version: 2,
        captured_at_epoch: 1,
        interface: "wlan0".to_string(),
        interface_mode: "Wi-Fi".to_string(),
        algorithm: "bbr".to_string(),
        qdisc: "fq".to_string(),
        pacing_ca: 200,
        pacing_ss: 300,
        advanced_sysctls: Vec::new(),
    }
}

#[test]
fn interface_name_validation_rejects_paths_and_shell_text() {
    assert!(validate_iface_name("wlan0").is_ok());
    assert!(validate_iface_name("rmnet_data0").is_ok());
    assert!(validate_iface_name("../../proc").is_err());
    assert!(validate_iface_name("wlan0;reboot").is_err());
}

#[test]
fn checkpoint_validation_rejects_unknown_kernel_tokens() {
    let mut checkpoint = checkpoint();
    assert!(validate_checkpoint(&checkpoint).is_ok());
    checkpoint.algorithm = "bbr;reboot".to_string();
    assert!(validate_checkpoint(&checkpoint).is_err());
}

#[test]
fn readback_comparison_reports_drift_and_unavailable_values() {
    let mut errors = Vec::new();
    compare_value(&mut errors, "algo", Some("cubic".into()), "bbr".into());
    compare_value(&mut errors, "qdisc", None, "fq".into());
    assert_eq!(errors.len(), 2);
    assert!(errors[0].contains("expected bbr"));
    assert!(errors[1].contains("unavailable"));
}

use tcp_optimiser::checkpoint::{check_failure_state, empty_failure_state, record_failure, CheckpointError, FailureState};

#[test]
fn failure_record_counts_and_sanitizes() {
    let state = empty_failure_state();
    let once = record_failure(&state, "write\nfailed");
    assert_eq!(once.consecutive_failures, 1);
    assert_eq!(once.last_error, "write failed");
    let twice = record_failure(&once, "again");
    assert_eq!(twice.consecutive_failures, 2);
}

#[test]
fn failure_record_with_unknown_format_is_refused() {
    let state = FailureState {
        format_version: 9,
        consecutive_failures: 1,
        updated_at_epoch: 1,
        last_error: "x".to_string(),
    };
    assert_eq!(check_failure_state(state), Err(CheckpointError::UnsupportedFailureFormat(9)));
}

#[test]
fn checkpoint_validation_reports_each_refusal() {
    let mut bad_format = checkpoint();
    bad_format.format_version = 1;
    assert_eq!(validate_checkpoint(&bad_format), Err(CheckpointError::UnsupportedFormat(1)));
    let mut bad_pacing = checkpoint();
    bad_pacing.pacing_ca = 0;
    assert_eq!(validate_checkpoint(&bad_pacing), Err(CheckpointError::PacingOutOfRange));
    let mut bad_mode = checkpoint();
    bad_mode.interface_mode = "Ethernet".to_string();
    assert!(matches!(validate_checkpoint(&bad_mode), Err(CheckpointError::InvalidInterfaceMode(_))));
    let mut bad_qdisc = checkpoint();
    bad_qdisc.qdisc = "sfq".to_string();
    assert!(matches!(validate_checkpoint(&bad_qdisc), Err(CheckpointError::UnknownQdisc(_))));
}

use tcp_optimiser::checkpoint::{apply_failures, rollback_failures, CheckpointSysctl, RuntimeKernelState, RuntimeSysctlValue, StateWrites};

#[test]
fn write_failures_are_labelled_in_write_order() {
    let mut cp = checkpoint();
    cp.advanced_sysctls = vec![CheckpointSysctl {
        key: "tcp_fin_timeout".to_string(),
        path: "/proc/sys/net/ipv4/tcp_fin_timeout".to_string(),
        value: 30,
    }];
    let writes = StateWrites {
        pacing: Err("EACCES".to_string()),
        default_qdisc: Ok(()),
        interface_qdisc: Ok(()),
        algorithm: Err("EINVAL".to_string()),
        advanced: vec![Err("EROFS".to_string())],
    };
    assert_eq!(
        apply_failures(&cp, &writes),
        vec![
            "pacing restore failed: EACCES".to_string(),
            "algorithm restore failed: EINVAL".to_string(),
            "advanced sysctl tcp_fin_timeout restore failed: EROFS".to_string(),
        ]
    );
    let previous = RuntimeKernelState {
        algorithm: "cubic".to_string(),
        default_qdisc: "fq_codel".to_string(),
        interface_qdisc: "fq_codel".to_string(),
        pacing_ca: 120,
        pacing_ss: 200,
        advanced_sysctls: vec![RuntimeSysctlValue {
            key: "tcp_fin_timeout".to_string(),
            path: "/proc/sys/net/ipv4/tcp_fin_timeout".to_string(),
            value: 60,
        }],
    };
    assert_eq!(
        rollback_failures(&previous, &writes),
        vec![
            "rollback pacing failed: EACCES".to_string(),
            "rollback algorithm failed: EINVAL".to_string(),
            "rollback advanced sysctl tcp_fin_timeout failed: EROFS".to_string(),
        ]
    );
}

use tcp_optimiser::checkpoint::{preflight_checkpoint, restore_report, verify_checkpoint_applied, RuntimeReadings};
use tcp_optimiser::control::{ControlState, RuntimeAction, RuntimeMode};

#[test]
fn preflight_refuses_unavailable_algorithm_changed_mode_and_missing_qdisc() {
    let cp = checkpoint();
    assert_eq!(preflight_checkpoint(&cp, Ok("cubic bbr".to_string()), Ok(Some("fq".to_string())), &Vec::new()), Ok(()));
    assert_eq!(
        preflight_checkpoint(&cp, Ok("cubic reno".to_string()), Ok(Some("fq".to_string())), &Vec::new()),
        Err(CheckpointError::AlgorithmUnavailable("bbr".to_string()))
    );
    assert_eq!(
        preflight_checkpoint(&cp, Ok("bbr".to_string()), Ok(None), &Vec::new()),
        Err(CheckpointError::NoRootQdisc("wlan0".to_string()))
    );
    let mut moved = checkpoint();
    moved.interface_mode = "Cellular".to_string();
    assert_eq!(
        preflight_checkpoint(&moved, Ok("bbr".to_string()), Ok(Some("fq".to_string())), &Vec::new()),
        Err(CheckpointError::ModeChanged("Cellular".to_string(), "Wi-Fi".to_string()))
    );
    assert_eq!(
        preflight_checkpoint(&cp, Err("EACCES".to_string()), Ok(Some("fq".to_string())), &Vec::new()),
        Err(CheckpointError::ReadFailed("EACCES".to_string()))
    );
}

#[test]
fn applied_checkpoint_is_read_back_value_by_value() {
    let cp = checkpoint();
    let matching = RuntimeReadings {
        algorithm: Some("bbr".to_string()),
        default_qdisc: Some("fq".to_string()),
        interface_qdisc: Some("fq".to_string()),
        pacing_ca: Some(200),
        pacing_ss: Some(300),
        advanced: Vec::new(),
    };
    assert!(verify_checkpoint_applied(&cp, &matching).is_empty());
    let drifted = RuntimeReadings {
        algorithm: None,
        default_qdisc: Some("fq_codel".to_string()),
        interface_qdisc: Some("fq".to_string()),
        pacing_ca: Some(200),
        pacing_ss: Some(300),
        advanced: Vec::new(),
    };
    assert_eq!(
        verify_checkpoint_applied(&cp, &drifted),
        vec![
            "checkpoint algorithm verification is unavailable".to_string(),
            "checkpoint default qdisc verification failed: expected fq, found fq_codel".to_string(),
        ]
    );
}

#[test]
fn restore_report_distinguishes_rollback_outcomes() {
    let control = ControlState {
        format_version: 1,
        generation: 2,
        mode: RuntimeMode::SafeMode,
        requested_action: RuntimeAction::AutomaticSafeMode,
        updated_at_epoch: 1,
        reason: "restoring-last-known-good-policy".to_string(),
    };
    let ok = restore_report(control.clone(), checkpoint(), Vec::new(), Vec::new());
    assert!(ok.success && !ok.rollback_attempted && !ok.rollback_succeeded);
    let rolled_back = restore_report(control.clone(), checkpoint(), vec!["x".to_string()], Vec::new());
    assert!(!rolled_back.success && rolled_back.rollback_attempted && rolled_back.rollback_succeeded);
    let failed = restore_report(control, checkpoint(), vec!["x".to_string()], vec!["y".to_string()]);
    assert!(!failed.success && failed.rollback_attempted && !failed.rollback_succeeded);
}

#[test]
fn checkpoint_sysctls_are_checked_against_the_fixed_allowlist() {
    let sysctl = |key: &str, path: &str, value: u32| CheckpointSysctl {
        key: key.to_string(),
        path: path.to_string(),
        value,
    };
    let mut restorable = checkpoint();
    restorable.advanced_sysctls = vec![sysctl("tcp_fin_timeout", "/proc/sys/net/ipv4/tcp_fin_timeout", 30)];
    assert_eq!(validate_checkpoint(&restorable), Ok(()));

    let mut out_of_range = checkpoint();
    out_of_range.advanced_sysctls = vec![sysctl("tcp_fin_timeout", "/proc/sys/net/ipv4/tcp_fin_timeout", 500)];
    assert_eq!(
        validate_checkpoint(&out_of_range),
        Err(CheckpointError::SysctlMismatch("tcp_fin_timeout".to_string()))
    );

    let mut redirected = checkpoint();
    redirected.advanced_sysctls = vec![sysctl("tcp_fin_timeout", "/proc/sys/kernel/panic", 30)];
    assert_eq!(
        validate_checkpoint(&redirected),
        Err(CheckpointError::SysctlMismatch("tcp_fin_timeout".to_string()))
    );

    let mut unknown = checkpoint();
    unknown.advanced_sysctls = vec![sysctl("core_pattern", "/proc/sys/kernel/core_pattern", 1)];
    assert_eq!(validate_checkpoint(&unknown), Err(CheckpointError::UnknownSysctl("core_pattern".to_string())));

    let mut twice = checkpoint();
    twice.advanced_sysctls = vec![
        sysctl("tcp_fin_timeout", "/proc/sys/net/ipv4/tcp_fin_timeout", 30),
        sysctl("tcp_fin_timeout", "/proc/sys/net/ipv4/tcp_fin_timeout", 40),
    ];
    assert_eq!(validate_checkpoint(&twice), Err(CheckpointError::DuplicateSysctl("tcp_fin_timeout".to_string())));
}

use tcp_optimiser::checkpoint::persist;
use tcp_optimiser::daemon::ResolvedPolicy;
use tcp_optimiser::network::IfaceMode;

fn resolved(algorithm: &str, qdisc: &str) -> ResolvedPolicy {
    ResolvedPolicy {
        algorithm: algorithm.to_string(),
        qdisc: qdisc.to_string(),
        pacing_ca: 200,
        pacing_ss: 300,
        wifi_frequency_mhz: None,
    }
}

#[test]
fn persist_checkpoints_a_valid_policy_with_its_overrides() {
    let conf = "tcp_fin_timeout=30\nunknown_key=1\n";
    let checkpoint = persist("wlan0", IfaceMode::WiFi, &resolved("bbr", "fq"), Some(conf)).unwrap();
    assert_eq!(checkpoint.format_version, 2);
    assert_eq!(checkpoint.interface, "wlan0");
    assert_eq!(checkpoint.interface_mode, "Wi-Fi");
    assert_eq!((checkpoint.algorithm.as_str(), checkpoint.qdisc.as_str()), ("bbr", "fq"));
    assert_eq!(checkpoint.advanced_sysctls.len(), 1);
    assert_eq!(checkpoint.advanced_sysctls[0].key, "tcp_fin_timeout");
    assert_eq!(checkpoint.advanced_sysctls[0].path, "/proc/sys/net/ipv4/tcp_fin_timeout");
    assert_eq!(checkpoint.advanced_sysctls[0].value, 30);
}

#[test]
fn persist_refuses_a_repeated_override_key() {
    let conf = "tcp_fin_timeout=30\ntcp_fin_timeout=40\n";
    let error = persist("wlan0", IfaceMode::WiFi, &resolved("vegas", "pfifo"), Some(conf)).unwrap_err();
    assert_eq!(error, CheckpointError::DuplicateSysctl("tcp_fin_timeout".to_string()));
}

use tcp_optimiser::checkpoint::{read_back_after_apply, restore_gate, transaction_errors, RestoreGate};

#[test]
fn restore_writes_only_after_the_acknowledgement() {
    assert_eq!(restore_gate(false, true), RestoreGate::AckMissing);
    assert_eq!(restore_gate(false, false), RestoreGate::AckMissing);
    assert_eq!(restore_gate(true, false), RestoreGate::ControlChanged);
    assert_eq!(restore_gate(true, true), RestoreGate::Proceed);
}

#[test]
fn transaction_errors_follow_the_write_order() {
    let apply = vec!["write failed".to_string()];
    assert!(!read_back_after_apply(&apply));
    assert!(read_back_after_apply(&Vec::new()));
    assert_eq!(transaction_errors(apply.clone(), vec!["ignored".to_string()], false), apply);
    assert_eq!(transaction_errors(Vec::new(), vec!["drift".to_string()], false), vec!["drift".to_string()]);
    assert_eq!(
        transaction_errors(Vec::new(), Vec::new(), false),
        vec!["runtime control state changed during restoration".to_string()]
    );
    assert!(transaction_errors(Vec::new(), Vec::new(), true).is_empty());
}
