use tcp_optimiser::policy::{check_value, summarize, CheckState, PolicyCheck};

#[test]
fn distinguishes_match_drift_and_unavailable() {
    assert_eq!(
        check_value("algo", "bbr".to_string(), Some("bbr".to_string()), true).state,
        CheckState::Match
    );
    assert_eq!(
        check_value("algo", "bbr".to_string(), Some("cubic".to_string()), true).state,
        CheckState::Drift
    );
    assert_eq!(check_value("algo", "bbr".to_string(), None, true).state, CheckState::Unavailable);
}

#[test]
fn summarizes_check_states() {
    let checks = [
        PolicyCheck {
            key: "one".to_string(),
            expected: "1".to_string(),
            actual: Some("1".to_string()),
            state: CheckState::Match,
            repairable: true,
        },
        PolicyCheck {
            key: "two".to_string(),
            expected: "2".to_string(),
            actual: Some("3".to_string()),
            state: CheckState::Drift,
            repairable: true,
        },
        PolicyCheck {
            key: "three".to_string(),
            expected: "3".to_string(),
            actual: None,
            state: CheckState::Unavailable,
            repairable: false,
        },
    ];
    let summary = summarize(&checks);
    assert_eq!(summary.matched, 1);
    assert_eq!(summary.total, 3);
    assert_eq!(summary.drifted, 1);
    assert_eq!(summary.unavailable, 1);
}

use tcp_optimiser::policy::{repair_record, VerificationSnapshot, VerificationSummary};

fn verification(drifted: usize, unavailable: usize, errors: Vec<String>) -> VerificationSnapshot {
    VerificationSnapshot {
        summary: VerificationSummary { matched: 0, total: drifted + unavailable, drifted, unavailable },
        checks: Vec::new(),
        errors,
        last_repair: None,
    }
}

#[test]
fn repair_record_sorts_and_deduplicates_errors() {
    let base = vec!["tcp_ecn: denied".to_string(), "b".to_string()];
    let record = repair_record(
        "wlan0",
        &base,
        Ok(vec!["b".to_string()]),
        &verification(2, 1, vec!["a".to_string()]),
        77,
    );
    assert_eq!(record.timestamp_epoch, 77);
    assert_eq!(record.reason, "manual");
    assert!(!record.success);
    assert_eq!(
        record.errors,
        vec![
            "1 verification value(s) are unavailable".to_string(),
            "2 configured value(s) still differ after repair".to_string(),
            "a".to_string(),
            "b".to_string(),
            "tcp_ecn: denied".to_string(),
        ]
    );
}

#[test]
fn repair_of_unknown_interface_is_reported() {
    let record = repair_record("tun0", &Vec::new(), Err("ignored".to_string()), &verification(0, 0, Vec::new()), 1);
    assert_eq!(record.errors, vec!["Unsupported active interface: tun0".to_string()]);
    let clean = repair_record("wlan0", &Vec::new(), Ok(Vec::new()), &verification(0, 0, Vec::new()), 1);
    assert!(clean.success);
    let unresolved = repair_record("wlan0", &Vec::new(), Err("no policy".to_string()), &verification(0, 0, Vec::new()), 1);
    assert_eq!(unresolved.errors, vec!["Cannot resolve configured policy: no policy".to_string()]);
}
