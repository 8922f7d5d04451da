use tcp_optimiser::install::safe_fallback_algorithm;

#[test]
fn installer_fallback_is_available_on_non_cubic_kernels() {
    let available = vec!["reno".to_string()];
    assert_eq!(safe_fallback_algorithm(&available), "reno");
}

use tcp_optimiser::install::{should_preserve, PRESERVED_CONFIG};

#[test]
fn upgrade_copies_only_missing_regular_files_from_another_directory() {
    assert!(should_preserve(false, false, true));
    assert!(!should_preserve(true, false, true));
    assert!(!should_preserve(false, true, true));
    assert!(!should_preserve(false, false, false));
    assert!(PRESERVED_CONFIG.contains(&"advanced.conf"));
}

use tcp_optimiser::baseline_status::{ProvenanceDocument, StatusError};
use tcp_optimiser::install::{classify_baseline_mode, ensure_baseline_provenance, InstallBaselineMode};

#[test]
fn provenance_is_written_for_the_mode_or_kept_when_valid() {
    assert_eq!(classify_baseline_mode(true, true, true), InstallBaselineMode::ExactPreModule);
    assert_eq!(classify_baseline_mode(false, false, false), InstallBaselineMode::ExactPreModule);
    assert_eq!(classify_baseline_mode(false, true, true), InstallBaselineMode::PreserveExisting);
    assert_eq!(classify_baseline_mode(false, true, false), InstallBaselineMode::LegacyUpgradeSnapshot);
    let written = ensure_baseline_provenance(None, InstallBaselineMode::LegacyUpgradeSnapshot).unwrap().unwrap();
    assert_eq!(written.provenance, "legacy_upgrade_snapshot");
    assert!(!written.exact_pre_module);
    assert_eq!(ensure_baseline_provenance(Some(written), InstallBaselineMode::ExactPreModule), Ok(None));
    let broken = ProvenanceDocument {
        format_version: 1,
        provenance: "vendor".to_string(),
        exact_pre_module: true,
        note: String::new(),
    };
    assert_eq!(
        ensure_baseline_provenance(Some(broken), InstallBaselineMode::ExactPreModule),
        Err(StatusError::UnknownProvenance("vendor".to_string()))
    );
}
