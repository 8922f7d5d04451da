use tcp_optimiser::baseline_status::{check_provenance, legacy_provenance, ProvenanceDocument};

#[test]
fn provenance_schema_distinguishes_legacy_upgrade_snapshot() {
    let document = check_provenance(ProvenanceDocument {
        format_version: 1,
        provenance: "legacy_upgrade_snapshot".to_string(),
        exact_pre_module: false,
        note: "compatibility".to_string(),
    })
    .unwrap();
    assert_eq!(document.provenance, "legacy_upgrade_snapshot");
    assert!(!document.exact_pre_module);
}

#[test]
fn provenance_schema_rejects_inconsistent_exact_flag() {
    assert!(check_provenance(ProvenanceDocument {
        format_version: 1,
        provenance: "legacy_upgrade_snapshot".to_string(),
        exact_pre_module: true,
        note: "invalid".to_string(),
    })
    .is_err());
}

#[test]
fn missing_provenance_reads_as_exact_legacy_evidence() {
    let document = legacy_provenance();
    assert_eq!(document.format_version, 1);
    assert_eq!(document.provenance, "exact_pre_module");
    assert!(document.exact_pre_module);
    assert!(document.note.starts_with("Legacy transactional baseline"));
    assert!(check_provenance(document).is_ok());
}
