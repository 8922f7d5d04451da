//! Installation and upgrade decisions: where the kernel baseline comes
//! from, which algorithms the per-interface selection files name, and what
//! configuration an upgrade keeps.
use vstd::prelude::*;

use crate::baseline_status::{
    check_outcome, check_provenance, ProvenanceDocument, StatusError, BASELINE_PROVENANCE_VERSION,
};
use crate::config::{is_known_algorithm, known_algorithm};
use crate::order::{text_less, text_lt};
use crate::text::{
    chars_of, chars_starts_with, owned, push_str, seq_has, slice_of, starts_with, str_eq,
    string_of, string_views,
};

verus! {

/// Where the kernel baseline of an installation comes from.
#[derive(Debug, Clone, Copy, PartialEq, Eq, Structural)]
pub enum InstallBaselineMode {
    /// A first installation: the kernel has not been touched by the module.
    ExactPreModule,
    /// An upgrade of a transactional installation: its baseline is kept.
    PreserveExisting,
    /// An upgrade of a legacy installation without a baseline.
    LegacyUpgradeSnapshot,
}

/// The baseline mode: a first installation (staging is the live directory,
/// or no module is installed) is exact; an upgrade keeps the installed
/// baseline when there is one, and is otherwise a legacy snapshot.
pub fn classify_baseline_mode(same_dir: bool, live_module_installed: bool, live_baseline_exists: bool) -> (r:
    InstallBaselineMode)
    ensures
        r == if same_dir || !live_module_installed {
            InstallBaselineMode::ExactPreModule
        } else if live_baseline_exists {
            InstallBaselineMode::PreserveExisting
        } else {
            InstallBaselineMode::LegacyUpgradeSnapshot
        },
{
    if same_dir || !live_module_installed {
        return InstallBaselineMode::ExactPreModule;
    }
    if live_baseline_exists {
        InstallBaselineMode::PreserveExisting
    } else {
        InstallBaselineMode::LegacyUpgradeSnapshot
    }
}

pub fn baseline_mode_name(mode: InstallBaselineMode) -> (r: &'static str)
    ensures
        r@ == match mode {
            InstallBaselineMode::ExactPreModule => "exact_pre_module"@,
            InstallBaselineMode::PreserveExisting => "preserved_existing"@,
            InstallBaselineMode::LegacyUpgradeSnapshot => "legacy_upgrade_snapshot"@,
        },
{
    match mode {
        InstallBaselineMode::ExactPreModule => "exact_pre_module",
        InstallBaselineMode::PreserveExisting => "preserved_existing",
        InstallBaselineMode::LegacyUpgradeSnapshot => "legacy_upgrade_snapshot",
    }
}

/// The note of the provenance document of a baseline mode.
pub open spec fn mode_note(mode: InstallBaselineMode) -> Seq<char> {
    match mode {
        InstallBaselineMode::ExactPreModule => "Captured before this module first applied managed kernel changes."@,
        InstallBaselineMode::PreserveExisting => "Preserved from an earlier transactional TCP Optimiser installation."@,
        InstallBaselineMode::LegacyUpgradeSnapshot => "Captured immediately before replacing a legacy TCP Optimiser installation; restores the pre-upgrade state but is not guaranteed to be the vendor default."@,
    }
}

/// The provenance document of a baseline mode, as values: exact for a
/// first installation and a preserved baseline, a legacy snapshot otherwise.
pub open spec fn mode_document(mode: InstallBaselineMode) -> (u32, Seq<char>, bool, Seq<char>) {
    (
        BASELINE_PROVENANCE_VERSION,
        if mode == InstallBaselineMode::LegacyUpgradeSnapshot {
            "legacy_upgrade_snapshot"@
        } else {
            "exact_pre_module"@
        },
        mode != InstallBaselineMode::LegacyUpgradeSnapshot,
        mode_note(mode),
    )
}

pub open spec fn document_view(d: ProvenanceDocument) -> (u32, Seq<char>, bool, Seq<char>) {
    (d.format_version, d.provenance@, d.exact_pre_module, d.note@)
}

/// The provenance document that records a baseline mode.
pub fn provenance_for_mode(mode: InstallBaselineMode) -> (r: ProvenanceDocument)
    ensures
        document_view(r) == mode_document(mode),
{
    let (provenance, exact_pre_module, note) = match mode {
        InstallBaselineMode::ExactPreModule => (
            "exact_pre_module",
            true,
            "Captured before this module first applied managed kernel changes.",
        ),
        InstallBaselineMode::PreserveExisting => (
            "exact_pre_module",
            true,
            "Preserved from an earlier transactional TCP Optimiser installation.",
        ),
        InstallBaselineMode::LegacyUpgradeSnapshot => (
            "legacy_upgrade_snapshot",
            false,
            "Captured immediately before replacing a legacy TCP Optimiser installation; restores the pre-upgrade state but is not guaranteed to be the vendor default.",
        ),
    };
    ProvenanceDocument {
        format_version: BASELINE_PROVENANCE_VERSION,
        provenance: owned(provenance),
        exact_pre_module,
        note: owned(note),
    }
}

/// The provenance of the staged baseline: an existing document must be
/// valid and is kept (nothing to write), and an invalid one is refused with
/// the reason; without one, the mode's document is to be written.
pub fn ensure_baseline_provenance(existing: Option<ProvenanceDocument>, mode: InstallBaselineMode) -> (r:
    Result<Option<ProvenanceDocument>, StatusError>)
    ensures
        existing is None ==> (r matches Ok(Some(d)) && document_view(d) == mode_document(mode)),
        existing matches Some(d) ==> match check_outcome(d) {
            Ok(()) => r == Ok::<Option<ProvenanceDocument>, StatusError>(None),
            Err(e) => r == Err::<Option<ProvenanceDocument>, StatusError>(e),
        },
{
    match existing {
        Some(d) => match check_provenance(d) {
            Ok(_) => Ok(None),
            Err(e) => Err(e),
        },
        None => Ok(Some(provenance_for_mode(mode))),
    }
}

/// The safe fallback among the kernel's algorithms: CUBIC when listed, else
/// the first known algorithm, else CUBIC.
pub open spec fn fallback_pick(available: Seq<String>, r: Seq<char>) -> bool {
    if seq_has(string_views(available), "cubic"@) {
        r == "cubic"@
    } else {
        (exists|i: int|
            0 <= i < available.len() && known_algorithm(available[i]@) && r == available[i]@
                && forall|j: int| 0 <= j < i ==> !known_algorithm(available[j]@)) || (r
            == "cubic"@ && forall|j: int| 0 <= j < available.len() ==> !known_algorithm(
            available[j]@,
        ))
    }
}

pub fn safe_fallback_algorithm(available: &[String]) -> (r: String)
    ensures
        fallback_pick(available@, r@),
{
    let mut i: usize = 0;
    while i < available.len()
        invariant
            i <= available@.len(),
            forall|j: int| 0 <= j < i ==> available@[j]@ != "cubic"@,
        decreases available@.len() - i,
    {
        if str_eq(available[i].as_str(), "cubic") {
            assert(string_views(available@)[i as int] == "cubic"@);
            return owned("cubic");
        }
        i += 1;
    }
    assert(!seq_has(string_views(available@), "cubic"@)) by {
        assert forall|j: int| 0 <= j < string_views(available@).len() implies string_views(
            available@,
        )[j] != "cubic"@ by {
            assert(string_views(available@)[j] == available@[j]@);
        }
    }
    let mut k: usize = 0;
    while k < available.len()
        invariant
            k <= available@.len(),
            !seq_has(string_views(available@), "cubic"@),
            forall|j: int| 0 <= j < k ==> !known_algorithm(available@[j]@),
        decreases available@.len() - k,
    {
        if is_known_algorithm(available[k].as_str()) {
            return owned(available[k].as_str());
        }
        k += 1;
    }
    owned("cubic")
}

/// The algorithm selected for Wi-Fi by default: BBR when the kernel has
/// it, else the safe fallback.
pub fn default_algorithm(available: &[String]) -> (r: String)
    ensures
        seq_has(string_views(available@), "bbr"@) ==> r@ == "bbr"@,
        !seq_has(string_views(available@), "bbr"@) ==> fallback_pick(available@, r@),
{
    let mut i: usize = 0;
    while i < available.len()
        invariant
            i <= available@.len(),
            forall|j: int| 0 <= j < i ==> available@[j]@ != "bbr"@,
        decreases available@.len() - i,
    {
        if str_eq(available[i].as_str(), "bbr") {
            assert(string_views(available@)[i as int] == "bbr"@);
            return owned("bbr");
        }
        i += 1;
    }
    assert(!seq_has(string_views(available@), "bbr"@)) by {
        assert forall|j: int| 0 <= j < string_views(available@).len() implies string_views(
            available@,
        )[j] != "bbr"@ by {
            assert(string_views(available@)[j] == available@[j]@);
        }
    }
    safe_fallback_algorithm(available)
}

// ---------------------------------------------------------------------------
// Per-interface selection files
/// What to do with the `<prefix>_<algorithm>` selection files of an
/// installation.
#[derive(Debug, Clone)]
pub struct PrefixedPlan {
    /// The staged selection that stays.
    pub keep: Option<String>,
    /// Staged selection files to remove.
    pub remove: Vec<String>,
    /// A selection of the installed module to copy into the staging
    /// directory.
    pub copy_from_live: Option<String>,
    /// A selection file to create.
    pub create: Option<String>,
}

/// A selection file name for the prefix whose algorithm the kernel offers.
pub open spec fn usable(name: Seq<char>, prefix: Seq<char>, available: Seq<Seq<char>>) -> bool {
    let needle = prefix + "_"@;
    starts_with(name, needle) && seq_has(available, name.subrange(needle.len() as int, name.len() as int))
}

/// The least (in path order) usable name of a list.
pub open spec fn least_usable(
    names: Seq<Seq<char>>,
    prefix: Seq<char>,
    available: Seq<Seq<char>>,
    s: Seq<char>,
) -> bool {
    names.contains(s) && usable(s, prefix, available) && forall|m: Seq<char>|
        names.contains(m) && usable(m, prefix, available) && m != s ==> text_lt(s, m)
}

pub open spec fn some_usable(names: Seq<Seq<char>>, prefix: Seq<char>, available: Seq<Seq<char>>) -> bool {
    exists|m: Seq<char>| names.contains(m) && usable(m, prefix, available)
}

fn usable_exec(name: &str, prefix: &str, available: &Vec<String>) -> (r: bool)
    ensures
        r == usable(name@, prefix@, string_views(available@)),
{
    let mut needle = owned(prefix);
    push_str(&mut needle, "_");
    let v = chars_of(name);
    if !chars_starts_with(v.as_slice(), needle.as_str()) {
        return false;
    }
    let n = chars_of(needle.as_str());
    assert(n@ == needle@);
    let rest = slice_of(v.as_slice(), n.len(), v.len());
    let rest_s = string_of(rest.as_slice());
    assert(rest_s@ == name@.subrange(needle@.len() as int, name@.len() as int));
    assert(starts_with(name@, needle@));
    let mut i: usize = 0;
    while i < available.len()
        invariant
            i <= available@.len(),
            starts_with(name@, needle@),
            needle@ == prefix@ + "_"@,
            rest_s@ == name@.subrange(needle@.len() as int, name@.len() as int),
            forall|j: int| 0 <= j < i ==> available@[j]@ != rest_s@,
        decreases available@.len() - i,
    {
        if str_eq(available[i].as_str(), rest_s.as_str()) {
            assert(string_views(available@)[i as int] == rest_s@);
            assert(seq_has(string_views(available@), rest_s@));
            assert(usable(name@, prefix@, string_views(available@)));
            return true;
        }
        i += 1;
    }
    assert forall|j: int| 0 <= j < string_views(available@).len() implies string_views(
        available@,
    )[j] != rest_s@ by {
        assert(string_views(available@)[j] == available@[j]@);
    }
    false
}

/// The least usable name of a list, if any.
fn least_usable_exec(names: &Vec<String>, prefix: &str, available: &Vec<String>) -> (r: Option<usize>)
    ensures
        r matches Some(i) ==> i < names@.len() && least_usable(
            string_views(names@),
            prefix@,
            string_views(available@),
            names@[i as int]@,
        ),
        r is None ==> !some_usable(string_views(names@), prefix@, string_views(available@)),
{
    let ghost nv = string_views(names@);
    let ghost av = string_views(available@);
    let mut best: Option<usize> = None;
    let mut i: usize = 0;
    while i < names.len()
        invariant
            nv == string_views(names@),
            av == string_views(available@),
            i <= names@.len(),
            best matches Some(b) ==> b < i && usable(nv[b as int], prefix@, av) && forall|j: int|
                0 <= j < i && usable(nv[j], prefix@, av) && nv[j] != nv[b as int] ==> text_lt(
                    nv[b as int],
                    nv[j],
                ),
            best is None ==> forall|j: int| 0 <= j < i ==> !usable(nv[j], prefix@, av),
        decreases names@.len() - i,
    {
        assert(nv[i as int] == names@[i as int]@);
        if usable_exec(names[i].as_str(), prefix, available) {
            match best {
                None => {
                    best = Some(i);
                },
                Some(b) => {
                    let bi = chars_of(names[b].as_str());
                    let ci = chars_of(names[i].as_str());
                    assert(nv[b as int] == names@[b as int]@);
                    if text_less(ci.as_slice(), bi.as_slice()) {
                        proof {
                            assert forall|j: int|
                                0 <= j < i + 1 && usable(nv[j], prefix@, av) && nv[j] != nv[i as int]
                                    implies text_lt(nv[i as int], nv[j]) by {
                                if nv[j] != nv[b as int] && j < i {
                                    crate::order::lemma_text_lt_transitive(nv[i as int], nv[b as int], nv[j]);
                                }
                            }
                        }
                        best = Some(i);
                    } else {
                        proof {
                            crate::order::lemma_text_lt_total(nv[b as int], nv[i as int]);
                        }
                    }
                },
            }
        }
        i += 1;
    }
    match best {
        Some(b) => {
            proof {
                assert forall|m: Seq<char>|
                    nv.contains(m) && usable(m, prefix@, av) && m != nv[b as int] implies text_lt(
                    nv[b as int],
                    m,
                ) by {
                    let j = choose|j: int| 0 <= j < nv.len() && nv[j] == m;
                }
                assert(nv.contains(nv[b as int]));
            }
            Some(b)
        },
        None => {
            proof {
                assert forall|m: Seq<char>| !(nv.contains(m) && usable(m, prefix@, av)) by {
                    if nv.contains(m) {
                        let j = choose|j: int| 0 <= j < nv.len() && nv[j] == m;
                    }
                }
            }
            None
        },
    }
}

#[verifier::spinoff_prover]
fn prefixed_names(names: &Vec<String>, prefix: &str) -> (r: Vec<String>)
    ensures
        forall|m: Seq<char>| #[trigger] string_views(r@).contains(m) <==> (string_views(names@).contains(m)
            && starts_with(m, prefix@ + "_"@)),
{
    let mut needle = owned(prefix);
    push_str(&mut needle, "_");
    let ghost nv = string_views(names@);
    let mut out: Vec<String> = Vec::new();
    let mut i: usize = 0;
    while i < names.len()
        invariant
            nv == string_views(names@),
            needle@ == prefix@ + "_"@,
            i <= names@.len(),
            forall|m: Seq<char>| #[trigger] string_views(out@).contains(m) <==> (nv.subrange(0, i as int).contains(m)
                && starts_with(m, needle@)),
        decreases names@.len() - i,
    {
        let v = chars_of(names[i].as_str());
        let ghost pre = nv.subrange(0, i + 1);
        assert(pre =~= nv.subrange(0, i as int).push(nv[i as int]));
        assert(nv[i as int] == names@[i as int]@);
        assert(v@ == nv[i as int]);
        let ghost before = string_views(out@);
        let sw = chars_starts_with(v.as_slice(), needle.as_str());
        assert(sw == starts_with(nv[i as int], needle@));
        if sw {
            out.push(owned(names[i].as_str()));
            assert(string_views(out@) =~= before.push(nv[i as int]));
            assert forall|m: Seq<char>| #[trigger] string_views(out@).contains(m) <==> (pre.contains(m)
                && starts_with(m, needle@)) by {
                crate::text::lemma_push_contains(before, nv[i as int], m);
                crate::text::lemma_push_contains(nv.subrange(0, i as int), nv[i as int], m);
            }
        } else {
            assert forall|m: Seq<char>| #[trigger] string_views(out@).contains(m) <==> (pre.contains(m)
                && starts_with(m, needle@)) by {
                crate::text::lemma_push_contains(nv.subrange(0, i as int), nv[i as int], m);
            }
        }
        i += 1;
        assert(pre == nv.subrange(0, i as int));
    }
    assert(nv.subrange(0, nv.len() as int) =~= nv);
    out
}

fn except_value(names: &Vec<String>, skip: Option<&str>) -> (r: Vec<String>)
    ensures
        forall|m: Seq<char>| #[trigger] string_views(r@).contains(m) <==> (string_views(names@).contains(m)
            && (skip matches Some(k) ==> m != k@)),
{
    let ghost nv = string_views(names@);
    let mut out: Vec<String> = Vec::new();
    let mut i: usize = 0;
    while i < names.len()
        invariant
            nv == string_views(names@),
            i <= names@.len(),
            forall|m: Seq<char>| #[trigger] string_views(out@).contains(m) <==> (nv.subrange(0, i as int).contains(m)
                && (skip matches Some(k) ==> m != k@)),
        decreases names@.len() - i,
    {
        let ghost pre = nv.subrange(0, i + 1);
        assert(pre =~= nv.subrange(0, i as int).push(nv[i as int]));
        assert(nv[i as int] == names@[i as int]@);
        let keep = match skip {
            Some(k) => !str_eq(names[i].as_str(), k),
            None => true,
        };
        let ghost before = string_views(out@);
        if keep {
            out.push(owned(names[i].as_str()));
            assert(string_views(out@) =~= before.push(nv[i as int]));
            assert forall|m: Seq<char>| #[trigger] string_views(out@).contains(m) <==> (pre.contains(m) && (
            skip matches Some(k) ==> m != k@)) by {
                crate::text::lemma_push_contains(before, nv[i as int], m);
                crate::text::lemma_push_contains(nv.subrange(0, i as int), nv[i as int], m);
            }
        } else {
            assert forall|m: Seq<char>| #[trigger] string_views(out@).contains(m) <==> (pre.contains(m) && (
            skip matches Some(k) ==> m != k@)) by {
                crate::text::lemma_push_contains(nv.subrange(0, i as int), nv[i as int], m);
            }
        }
        i += 1;
    }
    assert(nv.subrange(0, nv.len() as int) =~= nv);
    out
}

/// Settles the selection files for a prefix. The least staged file whose
/// algorithm the kernel offers stays and the other staged ones go; when
/// none is usable all staged ones go, and the least usable selection of the
/// installed module is copied (on an upgrade), else `<prefix>_<fallback>`
/// is created. `staged` and `live` are the names of the regular files of
/// the two directories.
pub fn ensure_prefixed_config(
    staged: &Vec<String>,
    live: &Vec<String>,
    same_dir: bool,
    prefix: &str,
    fallback: &str,
    available: &Vec<String>,
) -> (r: PrefixedPlan)
    ensures
        ({
            &&& some_usable(string_views(staged@), prefix@, string_views(available@)) ==> (r.keep matches Some(k)
                && least_usable(string_views(staged@), prefix@, string_views(available@), k@)
                && r.copy_from_live is None && r.create is None && forall|m: Seq<char>|
                string_views(r.remove@).contains(m) <==> (string_views(staged@).contains(m)
                && starts_with(m, prefix@ + "_"@) && m != k@))
            &&& !some_usable(string_views(staged@), prefix@, string_views(available@)) ==> (r.keep is None
                && (forall|m: Seq<char>| string_views(r.remove@).contains(m) <==> (string_views(
                staged@,
            ).contains(m) && starts_with(m, prefix@ + "_"@))) && (!same_dir && some_usable(
                string_views(live@),
                prefix@,
                string_views(available@),
            ) ==> (r.copy_from_live matches Some(c) && least_usable(
                string_views(live@),
                prefix@,
                string_views(available@),
                c@,
            ) && r.create is None)) && (same_dir || !some_usable(
                string_views(live@),
                prefix@,
                string_views(available@),
            ) ==> (r.copy_from_live is None && (r.create matches Some(c) && c@ == prefix@ + "_"@
                + fallback@))))
        }),
{
    let staged_prefixed = prefixed_names(staged, prefix);
    proof {
        assert forall|m: Seq<char>| usable(m, prefix@, string_views(available@)) implies starts_with(
            m,
            prefix@ + "_"@,
        ) by {}
        assert forall|m: Seq<char>|
            string_views(staged_prefixed@).contains(m) && usable(m, prefix@, string_views(available@))
                <==> string_views(staged@).contains(m) && usable(m, prefix@, string_views(available@)) by {}
    }
    match least_usable_exec(&staged_prefixed, prefix, available) {
        Some(i) => {
            let keep = owned(staged_prefixed[i].as_str());
            let remove = except_value(&staged_prefixed, Some(keep.as_str()));
            PrefixedPlan { keep: Some(keep), remove, copy_from_live: None, create: None }
        },
        None => {
            let remove = except_value(&staged_prefixed, None);
            if !same_dir {
                let live_prefixed = prefixed_names(live, prefix);
                proof {
                    assert forall|m: Seq<char>|
                        string_views(live_prefixed@).contains(m) && usable(m, prefix@, string_views(available@))
                            <==> string_views(live@).contains(m) && usable(m, prefix@, string_views(available@)) by {}
                }
                match least_usable_exec(&live_prefixed, prefix, available) {
                    Some(j) => {
                        let c = owned(live_prefixed[j].as_str());
                        return PrefixedPlan {
                            keep: None,
                            remove,
                            copy_from_live: Some(c),
                            create: None,
                        };
                    },
                    None => {},
                }
            }
            let mut target = owned(prefix);
            push_str(&mut target, "_");
            push_str(&mut target, fallback);
            PrefixedPlan { keep: None, remove, copy_from_live: None, create: Some(target) }
        },
    }
}

/// The configuration files an upgrade carries over from the installed
/// module, besides the baseline and its provenance.
pub const PRESERVED_CONFIG: [&'static str; 12] = [
    "kill_connections",
    "initcwnd_initrwnd",
    "qdisc",
    "pacing_ca",
    "pacing_ss",
    "tcp_ecn",
    "tcp_fastopen",
    "advanced.conf",
    "debug_mode",
    "runtime-control-v1.json",
    "last-good-policy-v2.json",
    "policy-failures-v1.json",
];

/// An installed file is copied into the staged module when the staged
/// module lacks it, the two directories differ, and the installed one is a
/// regular file.
pub fn should_preserve(staged_exists: bool, same_dir: bool, installed_is_file: bool) -> (r: bool)
    ensures
        r == (!staged_exists && !same_dir && installed_is_file),
{
    !staged_exists && !same_dir && installed_is_file
}

} // verus!

