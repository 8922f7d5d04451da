//! Verification of the applied policy: each configured value against the
//! value read back from the kernel, and the summary of the checks.
use vstd::prelude::*;

use crate::daemon::ResolvedPolicy;
use crate::network::{iface_mode, mode_of, IfaceMode};
use crate::sysctl::{override_views, AdvancedOverride};
use crate::order::{sort_dedup, strictly_sorted};
use crate::text::{decimal, owned, push_str, str_eq, string_views, u32_to_string, u64_to_string};

verus! {

/// How a value read back compares with the configured one.
#[derive(Debug, Clone, Copy, PartialEq, Eq, Structural)]
pub enum CheckState {
    Match,
    Drift,
    Unavailable,
}

#[derive(Debug, Clone, PartialEq, Eq)]
pub struct PolicyCheck {
    pub key: String,
    pub expected: String,
    pub actual: Option<String>,
    pub state: CheckState,
    pub repairable: bool,
}

#[derive(Debug, Clone, PartialEq, Eq)]
pub struct VerificationSummary {
    pub matched: usize,
    pub total: usize,
    pub drifted: usize,
    pub unavailable: usize,
}

#[derive(Debug, Clone)]
pub struct RepairRecord {
    pub timestamp_epoch: u64,
    pub success: bool,
    pub reason: String,
    pub errors: Vec<String>,
}

#[derive(Debug, Clone)]
pub struct VerificationSnapshot {
    pub summary: VerificationSummary,
    pub checks: Vec<PolicyCheck>,
    pub errors: Vec<String>,
    pub last_repair: Option<RepairRecord>,
}

/// The policy values read back from the kernel; `None` where a value could
/// not be read.
#[derive(Debug, Clone)]
pub struct PolicyReadings {
    pub algorithm: Option<String>,
    pub default_qdisc: Option<String>,
    pub interface_qdisc: Option<String>,
    pub pacing_ca: Option<String>,
    pub pacing_ss: Option<String>,
}

pub open spec fn opt_view(o: Option<String>) -> Option<Seq<char>> {
    match o {
        Some(s) => Some(s@),
        None => None,
    }
}

/// A check as values: key, expected, actual, state, repairable.
pub open spec fn check_view(c: PolicyCheck) -> (Seq<char>, Seq<char>, Option<Seq<char>>, CheckState, bool) {
    (c.key@, c.expected@, opt_view(c.actual), c.state, c.repairable)
}

pub open spec fn checks_view(v: Seq<PolicyCheck>) -> Seq<
    (Seq<char>, Seq<char>, Option<Seq<char>>, CheckState, bool),
> {
    v.map_values(|c: PolicyCheck| check_view(c))
}

/// A value that matches, one that differs, and one that could not be read.
pub open spec fn state_of(expected: Seq<char>, actual: Option<Seq<char>>) -> CheckState {
    match actual {
        Some(v) => if v == expected {
            CheckState::Match
        } else {
            CheckState::Drift
        },
        None => CheckState::Unavailable,
    }
}

pub open spec fn check_spec(key: Seq<char>, expected: Seq<char>, actual: Option<Seq<char>>, repairable: bool) -> (
    Seq<char>,
    Seq<char>,
    Option<Seq<char>>,
    CheckState,
    bool,
) {
    (key, expected, actual, state_of(expected, actual), repairable)
}

fn clone_opt(o: &Option<String>) -> (r: Option<String>)
    ensures
        opt_view(r) == opt_view(*o),
{
    match o {
        Some(s) => Some(owned(s.as_str())),
        None => None,
    }
}

/// Compares a configured value with the value read back.
pub fn check_value(key: &str, expected: String, actual: Option<String>, repairable: bool) -> (r:
    PolicyCheck)
    ensures
        check_view(r) == check_spec(key@, expected@, opt_view(actual), repairable),
{
    let state = match &actual {
        Some(value) => if str_eq(value.as_str(), expected.as_str()) {
            CheckState::Match
        } else {
            CheckState::Drift
        },
        None => CheckState::Unavailable,
    };
    PolicyCheck { key: owned(key), expected, actual, state, repairable }
}

/// A check whose configured value could not be determined.
pub fn unavailable_check(key: &str, repairable: bool) -> (r: PolicyCheck)
    ensures
        check_view(r) == (key@, "configured"@, None::<Seq<char>>, CheckState::Unavailable, repairable),
{
    PolicyCheck {
        key: owned(key),
        expected: owned("configured"),
        actual: None,
        state: CheckState::Unavailable,
        repairable,
    }
}

/// How many checks are in the state `st`.
pub open spec fn count_state(
    s: Seq<(Seq<char>, Seq<char>, Option<Seq<char>>, CheckState, bool)>,
    st: CheckState,
) -> nat
    decreases s.len(),
{
    if s.len() == 0 {
        0
    } else {
        count_state(s.drop_last(), st) + if s.last().3 == st {
            1nat
        } else {
            0nat
        }
    }
}

/// Each check is in exactly one state, so the three counts add up to the
/// number of checks.
pub proof fn lemma_counts_partition(s: Seq<(Seq<char>, Seq<char>, Option<Seq<char>>, CheckState, bool)>)
    ensures
        count_state(s, CheckState::Match) + count_state(s, CheckState::Drift) + count_state(
            s,
            CheckState::Unavailable,
        ) == s.len(),
    decreases s.len(),
{
    if s.len() > 0 {
        lemma_counts_partition(s.drop_last());
    }
}

/// Counts the checks by state.
pub fn summarize(checks: &[PolicyCheck]) -> (r: VerificationSummary)
    ensures
        r.total == checks@.len(),
        r.matched == count_state(checks_view(checks@), CheckState::Match),
        r.drifted == count_state(checks_view(checks@), CheckState::Drift),
        r.unavailable == count_state(checks_view(checks@), CheckState::Unavailable),
        r.matched + r.drifted + r.unavailable == r.total,
{
    let ghost cv = checks_view(checks@);
    let mut matched: usize = 0;
    let mut drifted: usize = 0;
    let mut unavailable: usize = 0;
    let mut i: usize = 0;
    assert(cv.subrange(0, 0) =~= seq![]);
    while i < checks.len()
        invariant
            cv == checks_view(checks@),
            i <= checks@.len(),
            matched == count_state(cv.subrange(0, i as int), CheckState::Match),
            drifted == count_state(cv.subrange(0, i as int), CheckState::Drift),
            unavailable == count_state(cv.subrange(0, i as int), CheckState::Unavailable),
            matched + drifted + unavailable == i,
        decreases checks@.len() - i,
    {
        let ghost pre = cv.subrange(0, i + 1);
        assert(pre.drop_last() =~= cv.subrange(0, i as int));
        assert(pre.last() == check_view(checks@[i as int]));
        match checks[i].state {
            CheckState::Match => matched += 1,
            CheckState::Drift => drifted += 1,
            CheckState::Unavailable => unavailable += 1,
        }
        i += 1;
    }
    assert(cv.subrange(0, cv.len() as int) =~= cv);
    proof {
        lemma_counts_partition(cv);
    }
    VerificationSummary { matched, total: checks.len(), drifted, unavailable }
}

/// The check of the interface mode: a mode other than Wi-Fi or cellular
/// is unavailable.
pub open spec fn mode_check(mode: IfaceMode) -> (Seq<char>, Seq<char>, Option<Seq<char>>, CheckState, bool) {
    (
        "interface_mode"@,
        "Wi-Fi or Cellular"@,
        Some(mode.name()),
        if mode == IfaceMode::Unknown {
            CheckState::Unavailable
        } else {
            CheckState::Match
        },
        false,
    )
}

/// The checks of the resolved policy, or one unavailable check when it
/// cannot be resolved.
pub open spec fn policy_checks(planned: Result<ResolvedPolicy, String>, rd: PolicyReadings) -> Seq<
    (Seq<char>, Seq<char>, Option<Seq<char>>, CheckState, bool),
> {
    match planned {
        Ok(p) => seq![
            check_spec("congestion_algorithm"@, p.algorithm@, opt_view(rd.algorithm), true),
            check_spec("default_qdisc"@, p.qdisc@, opt_view(rd.default_qdisc), true),
            check_spec("interface_qdisc"@, p.qdisc@, opt_view(rd.interface_qdisc), true),
            check_spec(
                "tcp_pacing_ca_ratio"@,
                decimal(p.pacing_ca as nat),
                opt_view(rd.pacing_ca),
                true,
            ),
            check_spec(
                "tcp_pacing_ss_ratio"@,
                decimal(p.pacing_ss as nat),
                opt_view(rd.pacing_ss),
                true,
            ),
        ],
        Err(_) => seq![("configured_policy"@, "configured"@, None, CheckState::Unavailable, true)],
    }
}

pub open spec fn opt_at(reads: Seq<Option<String>>, k: int) -> Option<Seq<char>> {
    if 0 <= k < reads.len() {
        opt_view(reads[k])
    } else {
        None
    }
}

/// One check per configured advanced override, keyed `advanced.<key>`.
pub open spec fn advanced_checks(
    adv: Seq<(Seq<char>, Seq<char>, u32)>,
    reads: Seq<Option<String>>,
) -> Seq<(Seq<char>, Seq<char>, Option<Seq<char>>, CheckState, bool)> {
    Seq::new(
        adv.len(),
        |k: int| check_spec("advanced."@ + adv[k].0, decimal(adv[k].2 as nat), opt_at(reads, k), true),
    )
}

/// The errors of a verification: the resolution failure first, then the
/// failures of `advanced.conf`.
pub open spec fn policy_errors(planned: Result<ResolvedPolicy, String>, adv_errors: Seq<Seq<char>>) -> Seq<
    Seq<char>,
> {
    match planned {
        Ok(_) => adv_errors,
        Err(m) => seq!["Cannot resolve configured policy: "@ + m@] + adv_errors,
    }
}

fn push_check(checks: &mut Vec<PolicyCheck>, c: PolicyCheck)
    ensures
        checks_view(final(checks)@) == checks_view(old(checks)@).push(check_view(c)),
{
    let ghost old_checks = checks@;
    checks.push(c);
    assert(checks_view(checks@) =~= checks_view(old_checks).push(check_view(c)));
}

fn policy_checks_exec(planned: &Result<ResolvedPolicy, String>, rd: &PolicyReadings, checks: &mut Vec<
    PolicyCheck,
>)
    ensures
        checks_view(final(checks)@) == checks_view(old(checks)@) + policy_checks(*planned, *rd),
{
    let ghost start = checks_view(checks@);
    match planned {
        Ok(p) => {
            push_check(
                checks,
                check_value(
                    "congestion_algorithm",
                    owned(p.algorithm.as_str()),
                    clone_opt(&rd.algorithm),
                    true,
                ),
            );
            push_check(
                checks,
                check_value(
                    "default_qdisc",
                    owned(p.qdisc.as_str()),
                    clone_opt(&rd.default_qdisc),
                    true,
                ),
            );
            push_check(
                checks,
                check_value(
                    "interface_qdisc",
                    owned(p.qdisc.as_str()),
                    clone_opt(&rd.interface_qdisc),
                    true,
                ),
            );
            push_check(
                checks,
                check_value(
                    "tcp_pacing_ca_ratio",
                    u32_to_string(p.pacing_ca),
                    clone_opt(&rd.pacing_ca),
                    true,
                ),
            );
            push_check(
                checks,
                check_value(
                    "tcp_pacing_ss_ratio",
                    u32_to_string(p.pacing_ss),
                    clone_opt(&rd.pacing_ss),
                    true,
                ),
            );
            assert(checks_view(checks@) =~= start + policy_checks(*planned, *rd));
        },
        Err(_) => {
            push_check(checks, unavailable_check("configured_policy", true));
            assert(checks_view(checks@) =~= start + policy_checks(*planned, *rd));
        },
    }
}

fn advanced_checks_exec(
    advanced: &Vec<AdvancedOverride>,
    reads: &Vec<Option<String>>,
    checks: &mut Vec<PolicyCheck>,
)
    ensures
        checks_view(final(checks)@) == checks_view(old(checks)@) + advanced_checks(
            override_views(advanced@),
            reads@,
        ),
{
    let ghost start = checks_view(checks@);
    let ghost all = advanced_checks(override_views(advanced@), reads@);
    let mut k: usize = 0;
    assert(start + all.subrange(0, 0) =~= start);
    while k < advanced.len()
        invariant
            start == checks_view(old(checks)@),
            all == advanced_checks(override_views(advanced@), reads@),
            k <= advanced@.len(),
            checks_view(checks@) == start + all.subrange(0, k as int),
        decreases advanced@.len() - k,
    {
        let item = &advanced[k];
        assert(override_views(advanced@)[k as int] == item.view_tuple());
        let mut key = owned("advanced.");
        push_str(&mut key, item.key);
        let actual = if k < reads.len() {
            clone_opt(&reads[k])
        } else {
            None
        };
        let c = check_value(key.as_str(), u32_to_string(item.value), actual, true);
        push_check(checks, c);
        assert(all[k as int] == check_view(c));
        assert(start + all.subrange(0, k + 1) =~= (start + all.subrange(0, k as int)).push(all[k as int]));
        k += 1;
    }
    assert(all.subrange(0, all.len() as int) =~= all);
}

/// Appends copies of the strings of `more`.
pub fn extend_strings(target: &mut Vec<String>, more: &Vec<String>)
    ensures
        string_views(final(target)@) == string_views(old(target)@) + string_views(more@),
{
    let ghost start = string_views(target@);
    let mut k: usize = 0;
    assert(start + string_views(more@).subrange(0, 0) =~= start);
    while k < more.len()
        invariant
            start == string_views(old(target)@),
            k <= more@.len(),
            string_views(target@) == start + string_views(more@).subrange(0, k as int),
        decreases more@.len() - k,
    {
        let ghost before = target@;
        let item = owned(more[k].as_str());
        target.push(item);
        proof {
            assert(target@ == before.push(item));
            assert(string_views(target@) =~= string_views(before).push(item@));
            assert(string_views(more@)[k as int] == item@);
            assert(string_views(more@).subrange(0, k + 1) =~= string_views(more@).subrange(
                0,
                k as int,
            ).push(item@));
            assert(string_views(target@) =~= start + string_views(more@).subrange(0, k + 1));
        }
        k += 1;
    }
    assert(string_views(more@).subrange(0, more@.len() as int) =~= string_views(more@));
}

/// Verifies the policy on an interface: its mode, the resolved policy (or
/// why it could not be resolved) against the values read back, and each
/// configured advanced override against its reading.
pub fn verify_policy(
    iface: &str,
    planned: Result<ResolvedPolicy, String>,
    readings: &PolicyReadings,
    advanced: &Vec<AdvancedOverride>,
    advanced_errors: &Vec<String>,
    advanced_readings: &Vec<Option<String>>,
    last_repair: Option<RepairRecord>,
) -> (r: VerificationSnapshot)
    ensures
        checks_view(r.checks@) == seq![mode_check(mode_of(iface@))] + policy_checks(
            planned,
            *readings,
        ) + advanced_checks(override_views(advanced@), advanced_readings@),
        string_views(r.errors@) == policy_errors(planned, string_views(advanced_errors@)),
        r.summary.total == r.checks@.len(),
        r.summary.matched == count_state(checks_view(r.checks@), CheckState::Match),
        r.summary.drifted == count_state(checks_view(r.checks@), CheckState::Drift),
        r.summary.unavailable == count_state(checks_view(r.checks@), CheckState::Unavailable),
        r.last_repair == last_repair,
{
    let mode = iface_mode(iface);
    let mode_state = if mode == IfaceMode::Unknown {
        CheckState::Unavailable
    } else {
        CheckState::Match
    };
    let mut checks: Vec<PolicyCheck> = Vec::new();
    let first = PolicyCheck {
        key: owned("interface_mode"),
        expected: owned("Wi-Fi or Cellular"),
        actual: Some(owned(mode.as_str())),
        state: mode_state,
        repairable: false,
    };
    push_check(&mut checks, first);
    assert(checks_view(checks@) =~= seq![mode_check(mode_of(iface@))]);
    let mut errors: Vec<String> = Vec::new();
    match &planned {
        Ok(_) => {},
        Err(m) => {
            let mut text = owned("Cannot resolve configured policy: ");
            push_str(&mut text, m.as_str());
            errors.push(text);
        },
    }
    policy_checks_exec(&planned, readings, &mut checks);
    advanced_checks_exec(advanced, advanced_readings, &mut checks);
    let ghost before = string_views(errors@);
    extend_strings(&mut errors, advanced_errors);
    assert(string_views(errors@) =~= policy_errors(planned, string_views(advanced_errors@)));
    let summary = summarize(checks.as_slice());
    VerificationSnapshot { summary, checks, errors, last_repair }
}

// ---------------------------------------------------------------------------
// Repair
/// The messages of a manual repair, before sorting: the failures of the
/// base sysctls, then the interface outcome (an unknown interface is
/// reported and not repaired), the counts of values that still differ or
/// could not be read afterwards, and the errors of that verification.
pub open spec fn repair_messages(
    iface: Seq<char>,
    base: Seq<Seq<char>>,
    interface: Result<Seq<Seq<char>>, Seq<char>>,
    drifted: nat,
    unavailable: nat,
    verification_errors: Seq<Seq<char>>,
) -> Seq<Seq<char>> {
    let a = if mode_of(iface) == IfaceMode::Unknown {
        base.push("Unsupported active interface: "@ + iface)
    } else {
        match interface {
            Ok(f) => base + f,
            Err(e) => base.push("Cannot resolve configured policy: "@ + e),
        }
    };
    let b = if drifted > 0 {
        a.push(decimal(drifted) + " configured value(s) still differ after repair"@)
    } else {
        a
    };
    let c = if unavailable > 0 {
        b.push(decimal(unavailable) + " verification value(s) are unavailable"@)
    } else {
        b
    };
    c + verification_errors
}

pub open spec fn strings_result(r: Result<Vec<String>, String>) -> Result<Seq<Seq<char>>, Seq<char>> {
    match r {
        Ok(v) => Ok(string_views(v@)),
        Err(e) => Err(e@),
    }
}

/// The record of a manual repair on `iface` at `now`: the failures of the
/// base sysctls and of the interface settings (`interface`, not consulted
/// for an interface of unknown mode), and the verification made afterwards.
/// Its errors are sorted and each kept once; it succeeds when there is none.
pub fn repair_record(
    iface: &str,
    base_failures: &Vec<String>,
    interface: Result<Vec<String>, String>,
    verification: &VerificationSnapshot,
    now: u64,
) -> (r: RepairRecord)
    ensures
        r.timestamp_epoch == now,
        r.reason@ == "manual"@,
        strictly_sorted(string_views(r.errors@)),
        forall|x: Seq<char>|
            string_views(r.errors@).contains(x) <==> repair_messages(
                iface@,
                string_views(base_failures@),
                strings_result(interface),
                verification.summary.drifted as nat,
                verification.summary.unavailable as nat,
                string_views(verification.errors@),
            ).contains(x),
        r.success == (r.errors@.len() == 0),
{
    let mut messages: Vec<String> = Vec::new();
    extend_strings(&mut messages, base_failures);
    if iface_mode(iface) == IfaceMode::Unknown {
        let mut m = owned("Unsupported active interface: ");
        push_str(&mut m, iface);
        messages.push(m);
    } else {
        match interface {
            Ok(f) => extend_strings(&mut messages, &f),
            Err(e) => {
                let mut m = owned("Cannot resolve configured policy: ");
                push_str(&mut m, e.as_str());
                messages.push(m);
            },
        }
    }
    if verification.summary.drifted > 0 {
        let mut m = u64_to_string(verification.summary.drifted as u64);
        push_str(&mut m, " configured value(s) still differ after repair");
        messages.push(m);
    }
    if verification.summary.unavailable > 0 {
        let mut m = u64_to_string(verification.summary.unavailable as u64);
        push_str(&mut m, " verification value(s) are unavailable");
        messages.push(m);
    }
    extend_strings(&mut messages, &verification.errors);
    proof {
        assert(string_views(messages@) =~= repair_messages(
            iface@,
            string_views(base_failures@),
            strings_result(interface),
            verification.summary.drifted as nat,
            verification.summary.unavailable as nat,
            string_views(verification.errors@),
        ));
    }
    let errors = sort_dedup(&messages);
    RepairRecord {
        timestamp_epoch: now,
        success: errors.len() == 0,
        reason: owned("manual"),
        errors,
    }
}

} // verus!
