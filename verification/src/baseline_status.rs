//! The health of the recorded baseline and the provenance of its values.
use vstd::prelude::*;

use crate::order::{sort_dedup, strictly_sorted};
use crate::text::{owned, str_eq, string_views};

verus! {

/// Version of the baseline provenance document.
pub const BASELINE_PROVENANCE_VERSION: u32 = 1;

/// Where the values of a baseline come from.
#[derive(Debug, Clone, PartialEq, Eq)]
pub struct ProvenanceDocument {
    pub format_version: u32,
    pub provenance: String,
    pub exact_pre_module: bool,
    pub note: String,
}

/// The fields of a baseline document that its status reports.
#[derive(Debug, Clone)]
pub struct BaselineDocument {
    pub version: u32,
    pub captured_at_epoch: u64,
    pub sysctl_count: usize,
    pub interface_names: Vec<String>,
}

#[derive(Debug, Clone)]
pub struct BaselineStatus {
    pub healthy: bool,
    pub version: u32,
    pub captured_at_epoch: u64,
    pub sysctl_count: usize,
    pub interface_count: usize,
    pub interface_names: Vec<String>,
    pub file_size_bytes: u64,
    pub path: String,
    pub provenance: String,
    pub exact_pre_module: bool,
    pub provenance_note: String,
}

/// Why a baseline or its provenance is refused.
#[derive(Debug, Clone, PartialEq, Eq)]
pub enum StatusError {
    UnsupportedVersion(u32),
    Incomplete,
    UnsupportedProvenanceFormat(u32),
    UnknownProvenance(String),
    InconsistentFlag,
}

/// What checking a provenance document gives: the first reason it is
/// refused, if any.
pub open spec fn check_outcome(d: ProvenanceDocument) -> Result<(), StatusError> {
    if d.format_version != BASELINE_PROVENANCE_VERSION {
        Err(StatusError::UnsupportedProvenanceFormat(d.format_version))
    } else if !(d.provenance@ == "exact_pre_module"@ || d.provenance@ == "legacy_upgrade_snapshot"@) {
        Err(StatusError::UnknownProvenance(d.provenance))
    } else if d.exact_pre_module != (d.provenance@ == "exact_pre_module"@) {
        Err(StatusError::InconsistentFlag)
    } else {
        Ok(())
    }
}

/// A provenance is the exact pre-module state or a legacy upgrade
/// snapshot, and its flag says which.
pub fn check_provenance(document: ProvenanceDocument) -> (r: Result<ProvenanceDocument, StatusError>)
    ensures
        match check_outcome(document) {
            Ok(()) => r == Ok::<ProvenanceDocument, StatusError>(document),
            Err(e) => r == Err::<ProvenanceDocument, StatusError>(e),
        },
{
    if document.format_version != BASELINE_PROVENANCE_VERSION {
        return Err(StatusError::UnsupportedProvenanceFormat(document.format_version));
    }
    let exact = str_eq(document.provenance.as_str(), "exact_pre_module");
    let legacy = str_eq(document.provenance.as_str(), "legacy_upgrade_snapshot");
    if !exact && !legacy {
        return Err(StatusError::UnknownProvenance(document.provenance));
    }
    if document.exact_pre_module != exact {
        return Err(StatusError::InconsistentFlag);
    }
    Ok(document)
}

/// The provenance of a baseline without a provenance document: a legacy
/// transactional baseline, treated as exact pre-module evidence.
pub fn legacy_provenance() -> (r: ProvenanceDocument)
    ensures
        r.format_version == BASELINE_PROVENANCE_VERSION,
        r.provenance@ == "exact_pre_module"@,
        r.exact_pre_module,
        r.note@
            == "Legacy transactional baseline without a provenance sidecar; treated as exact pre-module evidence."@,
{
    ProvenanceDocument {
        format_version: BASELINE_PROVENANCE_VERSION,
        provenance: owned("exact_pre_module"),
        exact_pre_module: true,
        note: owned(
            "Legacy transactional baseline without a provenance sidecar; treated as exact pre-module evidence.",
        ),
    }
}

/// The status of a baseline: it must be of the current version, have a
/// capture time and at least one sysctl; the interface names are listed in
/// order.
pub fn baseline_status(
    document: BaselineDocument,
    provenance: ProvenanceDocument,
    file_size_bytes: u64,
    path: &str,
) -> (r: Result<BaselineStatus, StatusError>)
    ensures
        document.version != 1 ==> r == Err::<BaselineStatus, StatusError>(
            StatusError::UnsupportedVersion(document.version),
        ),
        document.version == 1 && (document.captured_at_epoch == 0 || document.sysctl_count == 0)
            ==> r == Err::<BaselineStatus, StatusError>(StatusError::Incomplete),
        document.version == 1 && document.captured_at_epoch != 0 && document.sysctl_count != 0
            ==> (r matches Ok(s) && s.healthy && s.version == 1 && s.captured_at_epoch
            == document.captured_at_epoch && s.sysctl_count == document.sysctl_count
            && s.interface_count == s.interface_names@.len() && strictly_sorted(
            string_views(s.interface_names@),
        ) && (forall|x: Seq<char>| string_views(s.interface_names@).contains(x) <==> string_views(
            document.interface_names@,
        ).contains(x)) && s.file_size_bytes == file_size_bytes && s.path@ == path@
            && s.provenance == provenance.provenance && s.exact_pre_module
            == provenance.exact_pre_module && s.provenance_note == provenance.note),
{
    if document.version != 1 {
        return Err(StatusError::UnsupportedVersion(document.version));
    }
    if document.captured_at_epoch == 0 || document.sysctl_count == 0 {
        return Err(StatusError::Incomplete);
    }
    let names = sort_dedup(&document.interface_names);
    Ok(
        BaselineStatus {
            healthy: true,
            version: document.version,
            captured_at_epoch: document.captured_at_epoch,
            sysctl_count: document.sysctl_count,
            interface_count: names.len(),
            interface_names: names,
            file_size_bytes,
            path: owned(path),
            provenance: provenance.provenance,
            exact_pre_module: provenance.exact_pre_module,
            provenance_note: provenance.note,
        },
    )
}

} // verus!
