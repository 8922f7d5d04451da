//! Applying an interface's policy: the fallback when the congestion
//! algorithm cannot be loaded, the failures each write reports, and when
//! existing connections may be reset.
use vstd::prelude::*;

use crate::config::{algo_entry, get_algo_config};
use crate::daemon::{adjusted_pacing, pacing_for_band, position_of, ResolvedPolicy};
use crate::text::{owned, push_str, seq_has, string_views};

verus! {

/// The policy after falling back to another algorithm: its queue
/// discipline and pacing replace the configured ones unless those were set
/// by an override file.
pub open spec fn fallen_back(
    policy: ResolvedPolicy,
    fallback: Seq<char>,
    qdisc_overridden: bool,
    pacing_overridden: bool,
) -> (Seq<char>, Seq<char>, u32, u32) {
    let e = algo_entry(fallback);
    let pacing = if pacing_overridden {
        (policy.pacing_ca, policy.pacing_ss)
    } else {
        pacing_for_band(e.1, e.2, policy.wifi_frequency_mhz)
    };
    (fallback, if qdisc_overridden {
        policy.qdisc@
    } else {
        e.0
    }, pacing.0, pacing.1)
}

pub fn fallback_policy(
    policy: &ResolvedPolicy,
    fallback: &str,
    qdisc_overridden: bool,
    pacing_overridden: bool,
) -> (r: ResolvedPolicy)
    ensures
        (r.algorithm@, r.qdisc@, r.pacing_ca, r.pacing_ss) == fallen_back(
            *policy,
            fallback@,
            qdisc_overridden,
            pacing_overridden,
        ),
        r.wifi_frequency_mhz == policy.wifi_frequency_mhz,
{
    let cfg = get_algo_config(fallback);
    proof {
        reveal_strlit("bbr");
        reveal_strlit("bbr3");
        reveal_strlit("cubic");
        reveal_strlit("reno");
    }
    assert(cfg.pacing_ca <= 1000 && cfg.pacing_ss <= 1000);
    let qdisc = if qdisc_overridden {
        owned(policy.qdisc.as_str())
    } else {
        owned(cfg.qdisc)
    };
    let (pacing_ca, pacing_ss) = if pacing_overridden {
        (policy.pacing_ca, policy.pacing_ss)
    } else {
        adjusted_pacing(cfg.pacing_ca, cfg.pacing_ss, policy.wifi_frequency_mhz)
    };
    ResolvedPolicy {
        algorithm: owned(fallback),
        qdisc,
        pacing_ca,
        pacing_ss,
        wifi_frequency_mhz: policy.wifi_frequency_mhz,
    }
}

/// How setting the congestion algorithm went: applied, or the failure it
/// reports (from the capability check, then the write).
pub open spec fn algorithm_outcome(
    algorithm: Seq<char>,
    available: Result<bool, String>,
    set: Option<Result<(), String>>,
) -> (bool, Option<Seq<char>>) {
    match available {
        Err(e) => (false, Some("Algorithm capability check failed: "@ + e@)),
        Ok(false) => (false, Some("Congestion control "@ + algorithm + " is unavailable"@)),
        Ok(true) => match set {
            Some(Ok(())) => (true, None),
            Some(Err(e)) => (false, Some("Congestion control "@ + algorithm + " failed: "@ + e@)),
            None => (false, None),
        },
    }
}

pub open spec fn opt_string(o: Option<String>) -> Option<Seq<char>> {
    match o {
        Some(s) => Some(s@),
        None => None,
    }
}

/// The result of setting the congestion algorithm: whether it was applied
/// and the failure to report (`set` is the write's result, when the kernel
/// offered the algorithm).
pub fn algorithm_result(algorithm: &str, available: &Result<bool, String>, set: &Option<Result<(), String>>) -> (r: (
    bool,
    Option<String>,
))
    ensures
        (r.0, opt_string(r.1)) == algorithm_outcome(algorithm@, *available, *set),
{
    match available {
        Err(e) => {
            let mut m = owned("Algorithm capability check failed: ");
            push_str(&mut m, e.as_str());
            (false, Some(m))
        },
        Ok(false) => {
            let mut m = owned("Congestion control ");
            push_str(&mut m, algorithm);
            push_str(&mut m, " is unavailable");
            (false, Some(m))
        },
        Ok(true) => match set {
            Some(Ok(())) => (true, None),
            Some(Err(e)) => {
                let mut m = owned("Congestion control ");
                push_str(&mut m, algorithm);
                push_str(&mut m, " failed: ");
                push_str(&mut m, e.as_str());
                (false, Some(m))
            },
            None => (false, None),
        },
    }
}

/// What happens to existing TCP connections after a policy is applied.
#[derive(Debug, Clone, Copy, PartialEq, Eq, Structural)]
pub enum KillDecision {
    /// Nothing asks for it.
    Keep,
    /// A transparent proxy is active and resetting was not forced for it.
    PreserveForProxy,
    /// Reset the connections on the interface.
    Kill,
}

/// Connections are reset only after the algorithm was applied, when the
/// caller allows it and the `kill_connections` flag is set, and not behind
/// a transparent proxy unless `kill_connections_proxy` forces it.
pub fn kill_decision(
    algorithm_applied: bool,
    allow_connection_kill: bool,
    kill_flag: bool,
    transparent_proxy: bool,
    force_proxy_kill: bool,
) -> (r: KillDecision)
    ensures
        !(algorithm_applied && allow_connection_kill && kill_flag) ==> r == KillDecision::Keep,
        algorithm_applied && allow_connection_kill && kill_flag && transparent_proxy
            && !force_proxy_kill ==> r == KillDecision::PreserveForProxy,
        algorithm_applied && allow_connection_kill && kill_flag && (!transparent_proxy
            || force_proxy_kill) ==> r == KillDecision::Kill,
{
    if !(algorithm_applied && allow_connection_kill && kill_flag) {
        KillDecision::Keep
    } else if transparent_proxy && !force_proxy_kill {
        KillDecision::PreserveForProxy
    } else {
        KillDecision::Kill
    }
}

/// The outcomes of the queue-discipline writes of one apply, as far as
/// they went: default qdisc, interface qdisc, and, after an interface
/// failure, the fallback qdisc's module load, default and interface writes.
#[derive(Debug)]
pub struct QdiscWrites {
    pub default_result: Result<(), String>,
    pub iface_result: Result<(), String>,
    pub fallback: Option<String>,
    pub fallback_load: Option<Result<(), String>>,
    pub fallback_default: Option<Result<(), String>>,
    pub fallback_iface: Option<Result<(), String>>,
}

/// The next write of the qdisc fallback chain.
#[derive(Debug, Clone, Copy, PartialEq, Eq, Structural)]
pub enum QdiscAction {
    /// Load the fallback qdisc's kernel module.
    LoadFallback,
    /// Make the fallback the default qdisc.
    SetFallbackDefault,
    /// Put the fallback on the interface.
    SetFallbackInterface,
}

/// What the chain does next: nothing once the interface took the requested
/// qdisc or there is no fallback; otherwise load the fallback, then make it
/// the default, then put it on the interface, each only after the previous
/// write succeeded.
pub open spec fn qdisc_next_spec(w: QdiscWrites) -> Option<QdiscAction> {
    if w.iface_result is Ok || w.fallback is None {
        None
    } else {
        match w.fallback_load {
            None => Some(QdiscAction::LoadFallback),
            Some(Err(_)) => None,
            Some(Ok(())) => match w.fallback_default {
                None => Some(QdiscAction::SetFallbackDefault),
                Some(Err(_)) => None,
                Some(Ok(())) => match w.fallback_iface {
                    None => Some(QdiscAction::SetFallbackInterface),
                    Some(_) => None,
                },
            },
        }
    }
}

pub fn qdisc_next(w: &QdiscWrites) -> (r: Option<QdiscAction>)
    ensures
        r == qdisc_next_spec(*w),
{
    if w.iface_result.is_ok() || w.fallback.is_none() {
        return None;
    }
    match &w.fallback_load {
        None => Some(QdiscAction::LoadFallback),
        Some(Err(_)) => None,
        Some(Ok(())) => match &w.fallback_default {
            None => Some(QdiscAction::SetFallbackDefault),
            Some(Err(_)) => None,
            Some(Ok(())) => match &w.fallback_iface {
                None => Some(QdiscAction::SetFallbackInterface),
                Some(_) => None,
            },
        },
    }
}

pub open spec fn push_err(s: Seq<Seq<char>>, r: Result<(), String>, prefix: Seq<char>) -> Seq<Seq<char>> {
    match r {
        Ok(()) => s,
        Err(e) => s.push(prefix + e@),
    }
}

/// The failures of the qdisc writes, in order, and the qdisc in force
/// afterwards: the requested one, or the fallback when it was applied on the
/// interface. The fallback chain stops at its first failure.
pub open spec fn qdisc_outcome(iface: Seq<char>, requested: Seq<char>, w: QdiscWrites) -> (Seq<Seq<char>>, Seq<char>) {
    let f0 = push_err(seq![], w.default_result, "Default qdisc "@ + requested + " failed: "@);
    match w.iface_result {
        Ok(()) => (f0, requested),
        Err(e) => {
            let f1 = f0.push("Interface qdisc "@ + requested + " ("@ + iface + ") failed: "@ + e@);
            match w.fallback {
                None => (f1, requested),
                Some(fb) => match w.fallback_load {
                    Some(Err(le)) => (f1.push("Fallback qdisc "@ + fb@ + " load failed: "@ + le@), requested),
                    Some(Ok(())) => match w.fallback_default {
                        Some(Err(de)) => (
                            f1.push("Fallback default qdisc "@ + fb@ + " failed: "@ + de@),
                            requested,
                        ),
                        Some(Ok(())) => match w.fallback_iface {
                            Some(Ok(())) => (f1, fb@),
                            Some(Err(ie)) => (
                                f1.push(
                                    "Fallback interface qdisc "@ + fb@ + " ("@ + iface + ") failed: "@
                                        + ie@,
                                ),
                                requested,
                            ),
                            None => (f1, requested),
                        },
                        None => (f1, requested),
                    },
                    None => (f1, requested),
                },
            }
        },
    }
}

fn push_message(v: &mut Vec<String>, parts: &[&str])
    ensures
        string_views(final(v)@) == string_views(old(v)@).push(concat(parts@)),
{
    let mut m = String::new();
    let mut i: usize = 0;
    while i < parts.len()
        invariant
            i <= parts@.len(),
            m@ == concat(parts@.subrange(0, i as int)),
        decreases parts@.len() - i,
    {
        push_str(&mut m, parts[i]);
        assert(parts@.subrange(0, i + 1).drop_last() =~= parts@.subrange(0, i as int));
        i += 1;
    }
    assert(parts@.subrange(0, parts@.len() as int) =~= parts@);
    let ghost before = v@;
    v.push(m);
    assert(string_views(v@) =~= string_views(before).push(m@));
}

/// Text pieces joined.
pub open spec fn concat(parts: Seq<&str>) -> Seq<char>
    decreases parts.len(),
{
    if parts.len() == 0 {
        seq![]
    } else {
        concat(parts.drop_last()) + parts.last()@
    }
}

/// The failures and the resulting qdisc of the qdisc writes of one apply.
pub fn qdisc_result(iface: &str, requested: &str, w: &QdiscWrites) -> (r: (Vec<String>, String))
    ensures
        (string_views(r.0@), r.1@) == qdisc_outcome(iface@, requested@, *w),
{
    let mut failures: Vec<String> = Vec::new();
    assert(string_views(failures@) =~= seq![]);
    match &w.default_result {
        Ok(()) => {},
        Err(e) => push_message(&mut failures, &["Default qdisc ", requested, " failed: ", e.as_str()]),
    }
    match &w.iface_result {
        Ok(()) => {
            proof {
                reveal_with_fuel(concat, 5);
            }
            return (failures, owned(requested));
        },
        Err(e) => push_message(
            &mut failures,
            &["Interface qdisc ", requested, " (", iface, ") failed: ", e.as_str()],
        ),
    }
    let fb = match &w.fallback {
        None => {
            proof {
                reveal_with_fuel(concat, 7);
            }
            return (failures, owned(requested));
        },
        Some(fb) => fb,
    };
    let mut qdisc = owned(requested);
    match &w.fallback_load {
        Some(Err(le)) => push_message(&mut failures, &["Fallback qdisc ", fb.as_str(), " load failed: ", le.as_str()]),
        Some(Ok(())) => match &w.fallback_default {
            Some(Err(de)) => push_message(
                &mut failures,
                &["Fallback default qdisc ", fb.as_str(), " failed: ", de.as_str()],
            ),
            Some(Ok(())) => match &w.fallback_iface {
                Some(Ok(())) => {
                    qdisc = owned(fb.as_str());
                },
                Some(Err(ie)) => push_message(
                    &mut failures,
                    &["Fallback interface qdisc ", fb.as_str(), " (", iface, ") failed: ", ie.as_str()],
                ),
                None => {},
            },
            None => {},
        },
        None => {},
    }
    proof {
        reveal_with_fuel(concat, 7);
    }
    (failures, qdisc)
}

/// How an unavailable marker changes.
#[derive(Debug, Clone, Copy, PartialEq, Eq, Structural)]
pub enum MarkerUpdate {
    Clear,
    Mark,
    Keep,
}

/// The unavailable marker of the requested algorithm, from the module load
/// that was tried (`None` when the kernel already offered the algorithm):
/// cleared when the algorithm was available or the load made it so, set
/// when the load failed or did not help.
pub fn algorithm_marker(load: &Option<Result<bool, String>>) -> (r: MarkerUpdate)
    ensures
        r == match load {
            None => MarkerUpdate::Clear,
            Some(Ok(true)) => MarkerUpdate::Clear,
            Some(_) => MarkerUpdate::Mark,
        },
{
    match load {
        None => MarkerUpdate::Clear,
        Some(Ok(true)) => MarkerUpdate::Clear,
        Some(_) => MarkerUpdate::Mark,
    }
}

/// The unavailable marker of the requested qdisc after the interface
/// write: cleared when the write succeeded, set when it failed on a bundled
/// qdisc, left as it is otherwise.
pub fn qdisc_marker(qdisc: &str, bundled: &Vec<String>, iface_written: bool) -> (r: MarkerUpdate)
    ensures
        iface_written ==> r == MarkerUpdate::Clear,
        !iface_written && seq_has(string_views(bundled@), qdisc@) ==> r == MarkerUpdate::Mark,
        !iface_written && !seq_has(string_views(bundled@), qdisc@) ==> r == MarkerUpdate::Keep,
{
    if iface_written {
        MarkerUpdate::Clear
    } else if position_of(bundled, qdisc) {
        MarkerUpdate::Mark
    } else {
        MarkerUpdate::Keep
    }
}

} // verus!
