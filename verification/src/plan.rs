//! The policy plan: what applying the configured policy would change on an
//! interface, and whether the runtime mode lets it be written.
use vstd::prelude::*;

use crate::control::{ControlState, RuntimeMode};
use crate::daemon::ResolvedPolicy;
use crate::network::{iface_mode, mode_of, IfaceMode};
use crate::policy::{opt_view, PolicyReadings};
use crate::text::{decimal, owned, push_str, str_eq, string_views, u32_to_string};

verus! {

/// A value of the plan: what the kernel holds now, what the policy would
/// write, whether that differs, and whether the current value was readable.
#[derive(Debug, Clone)]
pub struct PlanValue {
    pub current: Option<String>,
    pub planned: Option<String>,
    pub changed: bool,
    pub available: bool,
}

#[derive(Debug, Clone)]
pub struct PolicyPlan {
    pub interface: String,
    pub interface_mode: String,
    pub interface_mtu: Option<u32>,
    pub wifi_frequency_mhz: Option<u32>,
    pub runtime_mode: RuntimeMode,
    pub write_allowed: bool,
    pub algorithm: PlanValue,
    pub default_qdisc: PlanValue,
    pub interface_qdisc: PlanValue,
    pub pacing_ca: PlanValue,
    pub pacing_ss: PlanValue,
    pub changes: Vec<String>,
    pub warnings: Vec<String>,
}

#[derive(Debug, Clone)]
pub struct PolicyDiff {
    pub interface: String,
    pub interface_mode: String,
    pub runtime_mode: RuntimeMode,
    pub write_allowed: bool,
    pub changes: Vec<PlanChange>,
    pub warnings: Vec<String>,
}

#[derive(Debug, Clone)]
pub struct PlanChange {
    pub key: String,
    pub current: Option<String>,
    pub planned: Option<String>,
    pub available: bool,
}

/// A value changes when a planned value differs from the current one, or
/// is planned where nothing could be read; nothing planned changes nothing.
pub open spec fn changes(current: Option<Seq<char>>, planned: Option<Seq<char>>) -> bool {
    match (current, planned) {
        (Some(c), Some(p)) => c != p,
        (None, Some(_)) => true,
        _ => false,
    }
}

pub open spec fn value_view(v: PlanValue) -> (Option<Seq<char>>, Option<Seq<char>>, bool, bool) {
    (opt_view(v.current), opt_view(v.planned), v.changed, v.available)
}

pub open spec fn value_spec(current: Option<Seq<char>>, planned: Option<Seq<char>>) -> (
    Option<Seq<char>>,
    Option<Seq<char>>,
    bool,
    bool,
) {
    (current, planned, changes(current, planned), current is Some)
}

/// One value of the plan.
pub fn value(current: Option<String>, planned: Option<String>) -> (r: PlanValue)
    ensures
        value_view(r) == value_spec(opt_view(current), opt_view(planned)),
{
    let available = current.is_some();
    let changed = match (&current, &planned) {
        (Some(c), Some(p)) => !str_eq(c.as_str(), p.as_str()),
        (None, Some(_)) => true,
        _ => false,
    };
    PlanValue { current, planned, changed, available }
}

/// Appends the key when the value changes.
pub fn push_change(target: &mut Vec<String>, key: &str, value: &PlanValue)
    ensures
        string_views(final(target)@) == if value.changed {
            string_views(old(target)@).push(key@)
        } else {
            string_views(old(target)@)
        },
{
    if value.changed {
        let ghost before = target@;
        target.push(owned(key));
        assert(string_views(target@) =~= string_views(before).push(key@));
    }
}

pub open spec fn change_view(c: PlanChange) -> (Seq<char>, Option<Seq<char>>, Option<Seq<char>>, bool) {
    (c.key@, opt_view(c.current), opt_view(c.planned), c.available)
}

pub open spec fn change_views(v: Seq<PlanChange>) -> Seq<
    (Seq<char>, Option<Seq<char>>, Option<Seq<char>>, bool),
> {
    v.map_values(|c: PlanChange| change_view(c))
}

fn clone_opt(o: &Option<String>) -> (r: Option<String>)
    ensures
        opt_view(r) == opt_view(*o),
{
    match o {
        Some(s) => Some(owned(s.as_str())),
        None => None,
    }
}

/// Appends the change, with both values, when the value changes.
pub fn collect_change(target: &mut Vec<PlanChange>, key: &str, value: &PlanValue)
    ensures
        change_views(final(target)@) == if value.changed {
            change_views(old(target)@).push(
                (key@, opt_view(value.current), opt_view(value.planned), value.available),
            )
        } else {
            change_views(old(target)@)
        },
{
    if !value.changed {
        return;
    }
    let ghost before = target@;
    let c = PlanChange {
        key: owned(key),
        current: clone_opt(&value.current),
        planned: clone_opt(&value.planned),
        available: value.available,
    };
    target.push(c);
    assert(change_views(target@) =~= change_views(before).push(change_view(c)));
}

pub open spec fn planned_field(planned: Result<ResolvedPolicy, String>, k: int) -> Option<Seq<char>> {
    match planned {
        Ok(p) => Some(
            if k == 0 {
                p.algorithm@
            } else if k == 1 || k == 2 {
                p.qdisc@
            } else if k == 3 {
                decimal(p.pacing_ca as nat)
            } else {
                decimal(p.pacing_ss as nat)
            },
        ),
        Err(_) => None,
    }
}

/// The warnings of a plan, in order: an invalid control state, an
/// interface of unknown mode, a runtime mode that forbids writes, a policy
/// that cannot be resolved.
pub open spec fn plan_warnings(
    interface: Seq<char>,
    control: Result<ControlState, String>,
    planned: Result<ResolvedPolicy, String>,
) -> Seq<Seq<char>> {
    let w0: Seq<Seq<char>> = match control {
        Err(m) => seq!["Runtime control state is invalid; writes are treated as disabled: "@ + m@],
        Ok(_) => seq![],
    };
    let mode = match control {
        Ok(s) => s.mode,
        Err(_) => RuntimeMode::SafeMode,
    };
    let w1 = if mode_of(interface) == IfaceMode::Unknown {
        w0.push("Interface "@ + interface + " is not recognized as Wi-Fi or cellular"@)
    } else {
        w0
    };
    let w2 = if mode != RuntimeMode::Active {
        w1.push("Runtime mode "@ + mode.name() + " prevents policy writes"@)
    } else {
        w1
    };
    match planned {
        Err(m) => w2.push("Configured policy cannot be resolved: "@ + m@),
        Ok(_) => w2,
    }
}

/// The runtime mode a plan reports: the control state's, or safe mode when
/// the control state is invalid.
pub open spec fn plan_mode(control: Result<ControlState, String>) -> RuntimeMode {
    match control {
        Ok(s) => s.mode,
        Err(_) => RuntimeMode::SafeMode,
    }
}

fn planned_text(planned: &Result<ResolvedPolicy, String>, k: usize) -> (r: Option<String>)
    requires
        k < 5,
    ensures
        opt_view(r) == planned_field(*planned, k as int),
{
    match planned {
        Ok(p) => Some(
            if k == 0 {
                owned(p.algorithm.as_str())
            } else if k == 1 || k == 2 {
                owned(p.qdisc.as_str())
            } else if k == 3 {
                u32_to_string(p.pacing_ca)
            } else {
                u32_to_string(p.pacing_ss)
            },
        ),
        Err(_) => None,
    }
}

fn plan_warnings_exec(
    interface: &str,
    control: &Result<ControlState, String>,
    planned: &Result<ResolvedPolicy, String>,
) -> (r: Vec<String>)
    ensures
        string_views(r@) == plan_warnings(interface@, *control, *planned),
{
    let mut warnings: Vec<String> = Vec::new();
    let mode = match control {
        Ok(s) => s.mode,
        Err(m) => {
            let mut w = owned("Runtime control state is invalid; writes are treated as disabled: ");
            push_str(&mut w, m.as_str());
            warnings.push(w);
            RuntimeMode::SafeMode
        },
    };
    let ghost w0 = string_views(warnings@);
    assert(w0 =~= match *control {
        Err(m) => seq!["Runtime control state is invalid; writes are treated as disabled: "@ + m@],
        Ok(_) => seq![],
    });
    if iface_mode(interface) == IfaceMode::Unknown {
        let mut w = owned("Interface ");
        push_str(&mut w, interface);
        push_str(&mut w, " is not recognized as Wi-Fi or cellular");
        let ghost before = warnings@;
        warnings.push(w);
        assert(string_views(warnings@) =~= string_views(before).push(w@));
    }
    let ghost w1 = string_views(warnings@);
    if !mode.allows_writes() {
        let mut w = owned("Runtime mode ");
        push_str(&mut w, mode.as_str());
        push_str(&mut w, " prevents policy writes");
        let ghost before = warnings@;
        warnings.push(w);
        assert(string_views(warnings@) =~= string_views(before).push(w@));
    }
    match planned {
        Err(m) => {
            let mut w = owned("Configured policy cannot be resolved: ");
            push_str(&mut w, m.as_str());
            let ghost before = warnings@;
            warnings.push(w);
            assert(string_views(warnings@) =~= string_views(before).push(w@));
        },
        Ok(_) => {},
    }
    warnings
}

/// Builds the plan of an interface from the control state (or why it is
/// invalid), the resolved policy (or why it cannot be resolved), the values
/// read from the kernel and the interface's MTU.
pub fn build(
    interface: String,
    control: Result<ControlState, String>,
    planned: Result<ResolvedPolicy, String>,
    readings: &PolicyReadings,
    interface_mtu: Option<u32>,
) -> (r: PolicyPlan)
    ensures
        r.interface@ == interface@,
        r.interface_mode@ == mode_of(interface@).name(),
        r.interface_mtu == interface_mtu,
        r.wifi_frequency_mhz == match planned {
            Ok(p) => p.wifi_frequency_mhz,
            Err(_) => None,
        },
        r.runtime_mode == plan_mode(control),
        r.write_allowed == (plan_mode(control) == RuntimeMode::Active && mode_of(interface@)
            != IfaceMode::Unknown && planned is Ok),
        value_view(r.algorithm) == value_spec(opt_view(readings.algorithm), planned_field(planned, 0)),
        value_view(r.default_qdisc) == value_spec(
            opt_view(readings.default_qdisc),
            planned_field(planned, 1),
        ),
        value_view(r.interface_qdisc) == value_spec(
            opt_view(readings.interface_qdisc),
            planned_field(planned, 2),
        ),
        value_view(r.pacing_ca) == value_spec(opt_view(readings.pacing_ca), planned_field(planned, 3)),
        value_view(r.pacing_ss) == value_spec(opt_view(readings.pacing_ss), planned_field(planned, 4)),
        string_views(r.changes@) == plan_change_keys(
            changes(opt_view(readings.algorithm), planned_field(planned, 0)),
            changes(opt_view(readings.default_qdisc), planned_field(planned, 1)),
            changes(opt_view(readings.interface_qdisc), planned_field(planned, 2)),
            changes(opt_view(readings.pacing_ca), planned_field(planned, 3)),
            changes(opt_view(readings.pacing_ss), planned_field(planned, 4)),
        ),
        string_views(r.warnings@) == plan_warnings(interface@, control, planned),
{
    let mode = iface_mode(interface.as_str());
    let warnings = plan_warnings_exec(interface.as_str(), &control, &planned);
    let runtime_mode = match &control {
        Ok(s) => s.mode,
        Err(_) => RuntimeMode::SafeMode,
    };
    let algorithm = value(clone_opt(&readings.algorithm), planned_text(&planned, 0));
    let default_qdisc = value(clone_opt(&readings.default_qdisc), planned_text(&planned, 1));
    let interface_qdisc = value(clone_opt(&readings.interface_qdisc), planned_text(&planned, 2));
    let pacing_ca = value(clone_opt(&readings.pacing_ca), planned_text(&planned, 3));
    let pacing_ss = value(clone_opt(&readings.pacing_ss), planned_text(&planned, 4));
    let mut changes_list: Vec<String> = Vec::new();
    assert(string_views(changes_list@) =~= seq![]);
    push_change(&mut changes_list, "algorithm", &algorithm);
    push_change(&mut changes_list, "default_qdisc", &default_qdisc);
    push_change(&mut changes_list, "interface_qdisc", &interface_qdisc);
    push_change(&mut changes_list, "pacing_ca", &pacing_ca);
    push_change(&mut changes_list, "pacing_ss", &pacing_ss);
    let wifi_frequency_mhz = match &planned {
        Ok(p) => p.wifi_frequency_mhz,
        Err(_) => None,
    };
    let write_allowed = runtime_mode.allows_writes() && mode != IfaceMode::Unknown && planned.is_ok();
    proof {
        assert(string_views(changes_list@) =~= plan_change_keys(
            algorithm.changed,
            default_qdisc.changed,
            interface_qdisc.changed,
            pacing_ca.changed,
            pacing_ss.changed,
        ));
    }
    PolicyPlan {
        interface_mode: owned(mode.as_str()),
        interface,
        interface_mtu,
        wifi_frequency_mhz,
        runtime_mode,
        write_allowed,
        algorithm,
        default_qdisc,
        interface_qdisc,
        pacing_ca,
        pacing_ss,
        changes: changes_list,
        warnings,
    }
}

/// The keys whose flags are set, in the plan's order.
pub open spec fn plan_change_keys(a: bool, d: bool, i: bool, c: bool, s: bool) -> Seq<Seq<char>> {
    let k0: Seq<Seq<char>> = if a {
        seq!["algorithm"@]
    } else {
        seq![]
    };
    let k1 = if d {
        k0.push("default_qdisc"@)
    } else {
        k0
    };
    let k2 = if i {
        k1.push("interface_qdisc"@)
    } else {
        k1
    };
    let k3 = if c {
        k2.push("pacing_ca"@)
    } else {
        k2
    };
    if s {
        k3.push("pacing_ss"@)
    } else {
        k3
    }
}

/// The changes of a plan with their values, in the plan's order.
pub open spec fn diff_changes(plan: PolicyPlan) -> Seq<
    (Seq<char>, Option<Seq<char>>, Option<Seq<char>>, bool),
> {
    one_change("algorithm"@, plan.algorithm) + one_change("default_qdisc"@, plan.default_qdisc)
        + one_change("interface_qdisc"@, plan.interface_qdisc) + one_change(
        "pacing_ca"@,
        plan.pacing_ca,
    ) + one_change("pacing_ss"@, plan.pacing_ss)
}

pub open spec fn one_change(key: Seq<char>, v: PlanValue) -> Seq<
    (Seq<char>, Option<Seq<char>>, Option<Seq<char>>, bool),
> {
    if v.changed {
        seq![(key, opt_view(v.current), opt_view(v.planned), v.available)]
    } else {
        seq![]
    }
}

/// The changes of a plan, each with its current and planned value.
pub fn diff(plan: PolicyPlan) -> (r: PolicyDiff)
    ensures
        r.interface@ == plan.interface@,
        r.interface_mode@ == plan.interface_mode@,
        r.runtime_mode == plan.runtime_mode,
        r.write_allowed == plan.write_allowed,
        change_views(r.changes@) == diff_changes(plan),
        r.warnings@ == plan.warnings@,
{
    let mut changes_list: Vec<PlanChange> = Vec::new();
    let ghost c0 = change_views(changes_list@);
    assert(c0 =~= seq![]);
    collect_change(&mut changes_list, "algorithm", &plan.algorithm);
    collect_change(&mut changes_list, "default_qdisc", &plan.default_qdisc);
    collect_change(&mut changes_list, "interface_qdisc", &plan.interface_qdisc);
    collect_change(&mut changes_list, "pacing_ca", &plan.pacing_ca);
    collect_change(&mut changes_list, "pacing_ss", &plan.pacing_ss);
    assert(change_views(changes_list@) =~= diff_changes(plan));
    PolicyDiff {
        interface: plan.interface,
        interface_mode: plan.interface_mode,
        runtime_mode: plan.runtime_mode,
        write_allowed: plan.write_allowed,
        changes: changes_list,
        warnings: plan.warnings,
    }
}

/// A value whose mark agrees with its current and planned values, as
/// `value` makes it.
pub open spec fn value_consistent(v: PlanValue) -> bool {
    v.changed == changes(opt_view(v.current), opt_view(v.planned))
}

/// The diff of a plan lists only values that would change: each entry has
/// a planned value that differs from the current one or replaces one that
/// could not be read; and every value that would change is listed.
pub proof fn lemma_diff_lists_only_changes(plan: PolicyPlan)
    requires
        value_consistent(plan.algorithm),
        value_consistent(plan.default_qdisc),
        value_consistent(plan.interface_qdisc),
        value_consistent(plan.pacing_ca),
        value_consistent(plan.pacing_ss),
    ensures
        forall|i: int|
            0 <= i < diff_changes(plan).len() ==> changes(
                #[trigger] diff_changes(plan)[i].1,
                diff_changes(plan)[i].2,
            ),
        diff_changes(plan).len() == (if plan.algorithm.changed { 1int } else { 0 }) + (
        if plan.default_qdisc.changed { 1int } else { 0 }) + (if plan.interface_qdisc.changed {
            1int
        } else {
            0
        }) + (if plan.pacing_ca.changed { 1int } else { 0 }) + (if plan.pacing_ss.changed {
            1int
        } else {
            0
        }),
{
    let a = one_change("algorithm"@, plan.algorithm);
    let b = one_change("default_qdisc"@, plan.default_qdisc);
    let c = one_change("interface_qdisc"@, plan.interface_qdisc);
    let d = one_change("pacing_ca"@, plan.pacing_ca);
    let e = one_change("pacing_ss"@, plan.pacing_ss);
    let all = a + b + c + d + e;
    assert(diff_changes(plan) == all);
    assert forall|i: int| 0 <= i < all.len() implies changes(#[trigger] all[i].1, all[i].2) by {
        if i < a.len() {
            assert(all[i] == a[i]);
        } else if i < a.len() + b.len() {
            assert(all[i] == b[i - a.len()]);
        } else if i < a.len() + b.len() + c.len() {
            assert(all[i] == c[i - a.len() - b.len()]);
        } else if i < a.len() + b.len() + c.len() + d.len() {
            assert(all[i] == d[i - a.len() - b.len() - c.len()]);
        } else {
            assert(all[i] == e[i - a.len() - b.len() - c.len() - d.len()]);
        }
    }
}

} // verus!

