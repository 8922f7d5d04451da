//! The kernel baseline: the managed sysctls and interface qdiscs as they
//! were before the module changed anything, what may be restored from it,
//! and how a restore is reported.
use vstd::prelude::*;

use crate::order::{sort_dedup, strictly_sorted};
use crate::text::{
    char_is_ascii_alnum, chars_of, debug_quoted, debug_text, is_ascii_alnum, owned, push_str,
    str_eq, string_views,
};

verus! {

/// Version of the baseline document.
pub const BASELINE_VERSION: u32 = 1;

/// Number of kernel nodes the module manages.
pub const MANAGED_COUNT: usize = 46;

pub const CONGESTION_CONTROL_PATH: &'static str = "/proc/sys/net/ipv4/tcp_congestion_control";

pub const DEFAULT_QDISC_PATH: &'static str = "/proc/sys/net/core/default_qdisc";

/// Complete allowlist of kernel nodes the module can modify; restoration
/// writes no other path.
pub open spec fn managed_paths() -> Seq<Seq<char>> {
    seq![
        "/proc/sys/net/ipv4/tcp_congestion_control"@,
        "/proc/sys/net/core/default_qdisc"@,
        "/proc/sys/net/ipv4/tcp_pacing_ca_ratio"@,
        "/proc/sys/net/ipv4/tcp_pacing_ss_ratio"@,
        "/proc/sys/net/ipv4/tcp_ecn"@,
        "/proc/sys/net/ipv4/tcp_window_scaling"@,
        "/proc/sys/net/ipv4/tcp_max_syn_backlog"@,
        "/proc/sys/net/ipv4/tcp_mtu_probing"@,
        "/proc/sys/net/ipv4/tcp_fastopen"@,
        "/proc/sys/net/ipv4/tcp_tw_reuse"@,
        "/proc/sys/net/ipv4/tcp_rmem"@,
        "/proc/sys/net/ipv4/tcp_wmem"@,
        "/proc/sys/net/core/rmem_max"@,
        "/proc/sys/net/core/wmem_max"@,
        "/proc/sys/net/ipv4/tcp_keepalive_time"@,
        "/proc/sys/net/ipv4/tcp_keepalive_intvl"@,
        "/proc/sys/net/ipv4/tcp_keepalive_probes"@,
        "/proc/sys/net/ipv4/tcp_fin_timeout"@,
        "/proc/sys/net/ipv4/tcp_syn_retries"@,
        "/proc/sys/net/ipv4/tcp_synack_retries"@,
        "/proc/sys/net/ipv4/tcp_retries2"@,
        "/proc/sys/net/core/optmem_max"@,
        "/proc/sys/net/ipv4/tcp_notsent_lowat"@,
        "/proc/sys/net/core/somaxconn"@,
        "/proc/sys/net/core/netdev_max_backlog"@,
        "/proc/sys/net/core/netdev_budget"@,
        "/proc/sys/net/core/netdev_budget_usecs"@,
        "/proc/sys/net/ipv4/tcp_sack"@,
        "/proc/sys/net/ipv4/tcp_dsack"@,
        "/proc/sys/net/ipv4/tcp_no_metrics_save"@,
        "/proc/sys/net/ipv4/tcp_slow_start_after_idle"@,
        "/proc/sys/net/ipv4/tcp_autocorking"@,
        "/proc/sys/net/ipv4/tcp_early_retrans"@,
        "/proc/sys/net/ipv4/tcp_thin_linear_timeouts"@,
        "/proc/sys/net/ipv4/tcp_thin_dupack"@,
        "/proc/sys/net/ipv4/tcp_rto_max_ms"@,
        "/proc/sys/net/ipv4/tcp_plb_enabled"@,
        "/proc/sys/net/ipv4/tcp_plb_idle_rehash_rounds"@,
        "/proc/sys/net/ipv4/tcp_plb_rehash_rounds"@,
        "/proc/sys/net/ipv4/tcp_plb_suspend_rto_sec"@,
        "/proc/sys/net/ipv4/tcp_plb_cong_thresh"@,
        "/proc/sys/net/core/busy_poll"@,
        "/proc/sys/net/core/busy_read"@,
        "/proc/sys/net/netfilter/nf_conntrack_max"@,
        "/proc/sys/net/netfilter/nf_conntrack_tcp_timeout_established"@,
        "/proc/sys/net/netfilter/nf_conntrack_tcp_timeout_time_wait"@,
    ]
}

pub fn managed_path(i: usize) -> (r: &'static str)
    requires
        i < 46,
    ensures
        r@ == managed_paths()[i as int],
{
    match i {
        0 => "/proc/sys/net/ipv4/tcp_congestion_control",
        1 => "/proc/sys/net/core/default_qdisc",
        2 => "/proc/sys/net/ipv4/tcp_pacing_ca_ratio",
        3 => "/proc/sys/net/ipv4/tcp_pacing_ss_ratio",
        4 => "/proc/sys/net/ipv4/tcp_ecn",
        5 => "/proc/sys/net/ipv4/tcp_window_scaling",
        6 => "/proc/sys/net/ipv4/tcp_max_syn_backlog",
        7 => "/proc/sys/net/ipv4/tcp_mtu_probing",
        8 => "/proc/sys/net/ipv4/tcp_fastopen",
        9 => "/proc/sys/net/ipv4/tcp_tw_reuse",
        10 => "/proc/sys/net/ipv4/tcp_rmem",
        11 => "/proc/sys/net/ipv4/tcp_wmem",
        12 => "/proc/sys/net/core/rmem_max",
        13 => "/proc/sys/net/core/wmem_max",
        14 => "/proc/sys/net/ipv4/tcp_keepalive_time",
        15 => "/proc/sys/net/ipv4/tcp_keepalive_intvl",
        16 => "/proc/sys/net/ipv4/tcp_keepalive_probes",
        17 => "/proc/sys/net/ipv4/tcp_fin_timeout",
        18 => "/proc/sys/net/ipv4/tcp_syn_retries",
        19 => "/proc/sys/net/ipv4/tcp_synack_retries",
        20 => "/proc/sys/net/ipv4/tcp_retries2",
        21 => "/proc/sys/net/core/optmem_max",
        22 => "/proc/sys/net/ipv4/tcp_notsent_lowat",
        23 => "/proc/sys/net/core/somaxconn",
        24 => "/proc/sys/net/core/netdev_max_backlog",
        25 => "/proc/sys/net/core/netdev_budget",
        26 => "/proc/sys/net/core/netdev_budget_usecs",
        27 => "/proc/sys/net/ipv4/tcp_sack",
        28 => "/proc/sys/net/ipv4/tcp_dsack",
        29 => "/proc/sys/net/ipv4/tcp_no_metrics_save",
        30 => "/proc/sys/net/ipv4/tcp_slow_start_after_idle",
        31 => "/proc/sys/net/ipv4/tcp_autocorking",
        32 => "/proc/sys/net/ipv4/tcp_early_retrans",
        33 => "/proc/sys/net/ipv4/tcp_thin_linear_timeouts",
        34 => "/proc/sys/net/ipv4/tcp_thin_dupack",
        35 => "/proc/sys/net/ipv4/tcp_rto_max_ms",
        36 => "/proc/sys/net/ipv4/tcp_plb_enabled",
        37 => "/proc/sys/net/ipv4/tcp_plb_idle_rehash_rounds",
        38 => "/proc/sys/net/ipv4/tcp_plb_rehash_rounds",
        39 => "/proc/sys/net/ipv4/tcp_plb_suspend_rto_sec",
        40 => "/proc/sys/net/ipv4/tcp_plb_cong_thresh",
        41 => "/proc/sys/net/core/busy_poll",
        42 => "/proc/sys/net/core/busy_read",
        43 => "/proc/sys/net/netfilter/nf_conntrack_max",
        44 => "/proc/sys/net/netfilter/nf_conntrack_tcp_timeout_established",
        _ => "/proc/sys/net/netfilter/nf_conntrack_tcp_timeout_time_wait",
    }
}

/// Whether a path is one of the managed kernel nodes.
pub fn is_managed_sysctl(path: &str) -> (r: bool)
    ensures
        r == managed_paths().contains(path@),
{
    let mut i: usize = 0;
    while i < MANAGED_COUNT
        invariant
            i <= MANAGED_COUNT,
            managed_paths().len() == MANAGED_COUNT,
            forall|j: int| 0 <= j < i ==> managed_paths()[j] != path@,
        decreases MANAGED_COUNT - i,
    {
        if str_eq(managed_path(i), path) {
            return true;
        }
        i += 1;
    }
    false
}

#[derive(Debug, Clone, PartialEq, Eq)]
pub struct InterfaceBaseline {
    pub root_qdisc: Option<String>,
}

/// The recorded kernel state: managed sysctl values by path, and the root
/// qdisc of each journaled interface by name.
#[derive(Debug, Clone)]
pub struct BaselineSnapshot {
    pub version: u32,
    pub captured_at_epoch: u64,
    pub sysctls: Vec<(String, String)>,
    pub interfaces: Vec<(String, InterfaceBaseline)>,
}

#[derive(Debug, Clone)]
pub struct BaselineSummary {
    pub path: String,
    pub captured_at_epoch: u64,
    pub sysctl_count: usize,
    pub interface_count: usize,
}

#[derive(Debug, Clone)]
pub struct RestoreReport {
    pub success: bool,
    pub restored_sysctls: usize,
    pub restored_interfaces: usize,
    pub errors: Vec<String>,
}

/// Why a baseline cannot be used or written.
#[derive(Debug, Clone, PartialEq, Eq)]
pub enum BaselineError {
    InvalidInterfaceName(String),
    InvalidQdiscToken(String),
    UnsupportedVersion(u32),
    NothingReadable,
    ReadFailed(String),
}

// ---------------------------------------------------------------------------
// Names and tokens
pub open spec fn name_char(c: char) -> bool {
    is_ascii_alnum(c) || c == '_' || c == '-' || c == '.' || c == ':'
}

pub open spec fn token_char(c: char) -> bool {
    is_ascii_alnum(c) || c == '_' || c == '-'
}

/// An interface name of 1 to 64 bytes of ASCII letters, digits, `_`, `-`,
/// `.` and `:`.
pub open spec fn valid_interface_name(s: Seq<char>) -> bool {
    0 < s.len() <= 64 && forall|i: int| 0 <= i < s.len() ==> name_char(s[i])
}

/// A qdisc name of 1 to 64 bytes of ASCII letters, digits, `_` and `-`.
pub open spec fn valid_kernel_token(s: Seq<char>) -> bool {
    0 < s.len() <= 64 && forall|i: int| 0 <= i < s.len() ==> token_char(s[i])
}

fn all_chars(v: &[char], dots: bool) -> (r: bool)
    ensures
        dots ==> r == forall|i: int| 0 <= i < v@.len() ==> name_char(v@[i]),
        !dots ==> r == forall|i: int| 0 <= i < v@.len() ==> token_char(v@[i]),
{
    let mut i: usize = 0;
    while i < v.len()
        invariant
            i <= v@.len(),
            dots ==> forall|j: int| 0 <= j < i ==> name_char(v@[j]),
            !dots ==> forall|j: int| 0 <= j < i ==> token_char(v@[j]),
        decreases v@.len() - i,
    {
        let c = v[i];
        let ok = char_is_ascii_alnum(c) || c == '_' || c == '-' || (dots && (c == '.' || c
            == ':'));
        if !ok {
            return false;
        }
        i += 1;
    }
    true
}

/// Checks that an interface name is safe for tool arguments.
pub fn validate_interface_name(iface: &str) -> (r: Result<(), BaselineError>)
    ensures
        r is Ok <==> valid_interface_name(iface@),
        r matches Err(e) ==> (e matches BaselineError::InvalidInterfaceName(n) && n@ == iface@),
{
    let v = chars_of(iface);
    if v.len() == 0 || v.len() > 64 || !all_chars(v.as_slice(), true) {
        return Err(BaselineError::InvalidInterfaceName(owned(iface)));
    }
    Ok(())
}

/// Checks that a recorded qdisc name is a plain kernel token.
pub fn validate_kernel_token(value: &str) -> (r: Result<(), BaselineError>)
    ensures
        r is Ok <==> valid_kernel_token(value@),
        r matches Err(e) ==> (e matches BaselineError::InvalidQdiscToken(n) && n@ == value@),
{
    let v = chars_of(value);
    if v.len() == 0 || v.len() > 64 || !all_chars(v.as_slice(), false) {
        return Err(BaselineError::InvalidQdiscToken(owned(value)));
    }
    Ok(())
}

// ---------------------------------------------------------------------------
// Qdiscs
pub open spec fn opt_str(o: Option<&str>) -> Option<Seq<char>> {
    match o {
        Some(s) => Some(s@),
        None => None,
    }
}

/// No root qdisc and `noqueue` are the same state; any other qdisc must be
/// the same name.
pub open spec fn qdisc_same(expected: Option<Seq<char>>, actual: Option<Seq<char>>) -> bool {
    match expected {
        None => actual is None || actual == Some("noqueue"@),
        Some(e) => if e == "noqueue"@ {
            actual is None || actual == Some("noqueue"@)
        } else {
            actual == Some(e)
        },
    }
}

pub fn qdisc_equivalent(expected: Option<&str>, actual: Option<&str>) -> (r: bool)
    ensures
        r == qdisc_same(opt_str(expected), opt_str(actual)),
{
    let absent_or_noqueue = match actual {
        None => true,
        Some(a) => str_eq(a, "noqueue"),
    };
    match expected {
        None => absent_or_noqueue,
        Some(e) => if str_eq(e, "noqueue") {
            absent_or_noqueue
        } else {
            match actual {
                Some(a) => str_eq(a, e),
                None => false,
            }
        },
    }
}

/// The equivalence is symmetric.
pub proof fn lemma_qdisc_same_symmetric(a: Option<Seq<char>>, b: Option<Seq<char>>)
    ensures
        qdisc_same(a, b) == qdisc_same(b, a),
{
}

/// The `tc` arguments that put back a recorded root qdisc: replace it,
/// or delete the root qdisc when none, `noqueue` or `mq` was recorded.
pub open spec fn restore_qdisc_args(iface: Seq<char>, expected: Option<Seq<char>>) -> Seq<Seq<char>> {
    match expected {
        Some(q) if q != "noqueue"@ && q != "mq"@ => seq![
            "qdisc"@,
            "replace"@,
            "dev"@,
            iface,
            "root"@,
            q,
        ],
        _ => seq!["qdisc"@, "del"@, "dev"@, iface, "root"@],
    }
}

/// What restoring an interface's qdisc needs: nothing when the current
/// qdisc already matches, otherwise the `tc` arguments to run; the name and
/// the recorded qdisc must be plain tokens.
pub fn qdisc_restore_action(iface: &str, expected: Option<&str>, current: Option<&str>) -> (r:
    Result<Option<Vec<String>>, BaselineError>)
    ensures
        !valid_interface_name(iface@) ==> (r matches Err(e) && e matches BaselineError::InvalidInterfaceName(
            n,
        ) && n@ == iface@),
        valid_interface_name(iface@) && (expected matches Some(q) && !valid_kernel_token(q@)) ==> (r matches Err(
            e,
        ) && e matches BaselineError::InvalidQdiscToken(n) && Some(n@) == opt_str(expected)),
        valid_interface_name(iface@) && (expected matches Some(q) ==> valid_kernel_token(q@)) ==> (r matches Ok(
            a,
        ) && (qdisc_same(opt_str(expected), opt_str(current)) ==> a is None) && (!qdisc_same(
            opt_str(expected),
            opt_str(current),
        ) ==> (a matches Some(args) && string_views(args@) == restore_qdisc_args(
            iface@,
            opt_str(expected),
        )))),
{
    validate_interface_name(iface)?;
    match expected {
        Some(q) => validate_kernel_token(q)?,
        None => {},
    }
    if qdisc_equivalent(expected, current) {
        return Ok(None);
    }
    let mut args: Vec<String> = Vec::new();
    args.push(owned("qdisc"));
    let replace = match expected {
        Some(q) => !str_eq(q, "noqueue") && !str_eq(q, "mq"),
        None => false,
    };
    if replace {
        args.push(owned("replace"));
    } else {
        args.push(owned("del"));
    }
    args.push(owned("dev"));
    args.push(owned(iface));
    args.push(owned("root"));
    match expected {
        Some(q) => if replace {
            args.push(owned(q));
        },
        None => {},
    }
    assert(string_views(args@) =~= restore_qdisc_args(iface@, opt_str(expected)));
    Ok(Some(args))
}

/// The message when the qdisc read back after `tc` is still not the
/// recorded one.
pub open spec fn qdisc_mismatch(expected: Option<Seq<char>>, actual: Option<Seq<char>>, stderr: Seq<char>) -> Seq<char> {
    "qdisc restore mismatch, expected "@ + match expected {
        Some(e) => e,
        None => "none"@,
    } + ", got "@ + match actual {
        Some(a) => a,
        None => "none"@,
    } + "; tc stderr: "@ + stderr
}

/// Whether the qdisc read back after `tc` is the recorded one (`stderr` is
/// the trimmed error output of `tc`).
pub fn qdisc_restore_result(expected: Option<&str>, actual: Option<&str>, stderr: &str) -> (r:
    Result<(), String>)
    ensures
        qdisc_same(opt_str(expected), opt_str(actual)) ==> r is Ok,
        !qdisc_same(opt_str(expected), opt_str(actual)) ==> (r matches Err(m) && m@ == qdisc_mismatch(
            opt_str(expected),
            opt_str(actual),
            stderr@,
        )),
{
    if qdisc_equivalent(expected, actual) {
        return Ok(());
    }
    let mut m = owned("qdisc restore mismatch, expected ");
    match expected {
        Some(e) => push_str(&mut m, e),
        None => push_str(&mut m, "none"),
    }
    push_str(&mut m, ", got ");
    match actual {
        Some(a) => push_str(&mut m, a),
        None => push_str(&mut m, "none"),
    }
    push_str(&mut m, "; tc stderr: ");
    push_str(&mut m, stderr);
    Err(m)
}

/// The stored baseline lets the module tune the kernel: it was read and
/// parsed (`stored` is `Some`) and is of the current version.
pub open spec fn baseline_usable_spec(stored: Option<BaselineSnapshot>) -> bool {
    stored matches Some(s) && s.version == BASELINE_VERSION
}

pub fn baseline_usable(stored: &Option<BaselineSnapshot>) -> (r: bool)
    ensures
        r == baseline_usable_spec(*stored),
{
    match stored {
        Some(s) => s.version == BASELINE_VERSION,
        None => false,
    }
}

// ---------------------------------------------------------------------------
// Snapshots
/// A decoded baseline is used only in the current version.
pub fn check_snapshot(snapshot: BaselineSnapshot) -> (r: Result<BaselineSnapshot, BaselineError>)
    ensures
        snapshot.version == BASELINE_VERSION ==> (r matches Ok(s) && s.version == snapshot.version
            && s.captured_at_epoch == snapshot.captured_at_epoch && s.sysctls@
            == snapshot.sysctls@ && s.interfaces@ == snapshot.interfaces@),
        snapshot.version != BASELINE_VERSION ==> r == Err::<BaselineSnapshot, BaselineError>(
            BaselineError::UnsupportedVersion(snapshot.version),
        ),
{
    if snapshot.version != BASELINE_VERSION {
        return Err(BaselineError::UnsupportedVersion(snapshot.version));
    }
    Ok(snapshot)
}

/// The summary of a baseline stored at `path`.
pub fn summary(path: &str, snapshot: &BaselineSnapshot) -> (r: BaselineSummary)
    ensures
        r.path@ == path@,
        r.captured_at_epoch == snapshot.captured_at_epoch,
        r.sysctl_count == snapshot.sysctls@.len(),
        r.interface_count == snapshot.interfaces@.len(),
{
    BaselineSummary {
        path: owned(path),
        captured_at_epoch: snapshot.captured_at_epoch,
        sysctl_count: snapshot.sysctls.len(),
        interface_count: snapshot.interfaces.len(),
    }
}

pub open spec fn pair_view(p: (String, String)) -> (Seq<char>, Seq<char>) {
    (p.0@, p.1@)
}

pub open spec fn pairs_view(v: Seq<(String, String)>) -> Seq<(Seq<char>, Seq<char>)> {
    v.map_values(|p: (String, String)| pair_view(p))
}

pub open spec fn string_opt(o: Option<String>) -> Option<Seq<char>> {
    match o {
        Some(s) => Some(s@),
        None => None,
    }
}

/// The recorded values of the managed nodes that exist, in the order of the
/// allowlist (`values[i]` is the content of the `i`-th node, `None` where it
/// does not exist; a node past the end of `values` was not read and is not
/// recorded).
pub open spec fn captured_sysctls(values: Seq<Option<String>>, n: int) -> Seq<(Seq<char>, Seq<char>)>
    decreases n,
{
    if n <= 0 {
        seq![]
    } else {
        let rest = captured_sysctls(values, n - 1);
        if n - 1 < values.len() {
            match values[n - 1] {
                Some(v) => rest.push((managed_paths()[n - 1], v@)),
                None => rest,
            }
        } else {
            rest
        }
    }
}

pub open spec fn iface_view(e: (String, InterfaceBaseline)) -> (Seq<char>, Option<Seq<char>>) {
    (e.0@, string_opt(e.1.root_qdisc))
}

pub open spec fn ifaces_view(v: Seq<(String, InterfaceBaseline)>) -> Seq<(Seq<char>, Option<Seq<char>>)> {
    v.map_values(|e: (String, InterfaceBaseline)| iface_view(e))
}

/// Captures the baseline from the values of the managed nodes and, when the
/// active interface is known and its root qdisc could be read, that
/// interface's qdisc (kept only for a safe interface name).
pub fn capture_snapshot(values: &Vec<Option<String>>, active: Option<(String, Option<String>)>) -> (r:
    Result<BaselineSnapshot, BaselineError>)
    ensures
        captured_sysctls(values@, MANAGED_COUNT as int).len() == 0 ==> r == Err::<
            BaselineSnapshot,
            BaselineError,
        >(BaselineError::NothingReadable),
        captured_sysctls(values@, MANAGED_COUNT as int).len() > 0 ==> (r matches Ok(s)
            && s.version == BASELINE_VERSION && pairs_view(s.sysctls@) == captured_sysctls(
            values@,
            MANAGED_COUNT as int,
        ) && ifaces_view(s.interfaces@) == match active {
            Some((i, q)) => if valid_interface_name(i@) {
                seq![(i@, string_opt(q))]
            } else {
                seq![]
            },
            None => seq![],
        }),
{
    let mut sysctls: Vec<(String, String)> = Vec::new();
    let mut i: usize = 0;
    assert(pairs_view(sysctls@) =~= seq![]);
    while i < MANAGED_COUNT
        invariant
            managed_paths().len() == MANAGED_COUNT,
            i <= MANAGED_COUNT,
            pairs_view(sysctls@) == captured_sysctls(values@, i as int),
        decreases MANAGED_COUNT - i,
    {
        if i < values.len() {
            match &values[i] {
                Some(v) => {
                    let entry = (owned(managed_path(i)), owned(v.as_str()));
                    let ghost before = sysctls@;
                    sysctls.push(entry);
                    assert(pairs_view(sysctls@) =~= pairs_view(before).push(pair_view(entry)));
                },
                None => {},
            }
        }
        i += 1;
    }
    if sysctls.len() == 0 {
        return Err(BaselineError::NothingReadable);
    }
    let mut interfaces: Vec<(String, InterfaceBaseline)> = Vec::new();
    let ghost act = active;
    match active {
        Some((iface, qdisc)) => {
            if validate_interface_name(iface.as_str()).is_ok() {
                interfaces.push((iface, InterfaceBaseline { root_qdisc: qdisc }));
            }
        },
        None => {},
    }
    let ghost iv = ifaces_view(interfaces@);
    proof {
        match act {
            Some((i, q)) => if valid_interface_name(i@) {
                assert(iv =~= seq![(i@, string_opt(q))]);
            } else {
                assert(iv =~= seq![]);
            },
            None => {
                assert(iv =~= seq![]);
            },
        }
    }
    Ok(
        BaselineSnapshot {
            version: BASELINE_VERSION,
            captured_at_epoch: crate::clock::now_epoch(),
            sysctls,
            interfaces,
        },
    )
}

/// The interface list names the interface.
pub open spec fn journals(ifaces: Seq<(String, InterfaceBaseline)>, iface: Seq<char>) -> bool {
    exists|j: int| 0 <= j < ifaces.len() && #[trigger] ifaces[j].0@ == iface
}

/// Whether the baseline already journals an interface.
pub fn journals_interface(snapshot: &BaselineSnapshot, iface: &str) -> (r: bool)
    ensures
        r == journals(snapshot.interfaces@, iface@),
{
    let mut j: usize = 0;
    while j < snapshot.interfaces.len()
        invariant
            j <= snapshot.interfaces@.len(),
            forall|k: int| 0 <= k < j ==> snapshot.interfaces@[k].0@ != iface@,
        decreases snapshot.interfaces@.len() - j,
    {
        if str_eq(snapshot.interfaces[j].0.as_str(), iface) {
            assert(snapshot.interfaces@[j as int].0@ == iface@);
            return true;
        }
        j += 1;
    }
    false
}

/// Journals an interface's original root qdisc: a baseline that already
/// journals the interface is kept as it is (`false`: nothing new to
/// record); otherwise the entry is added (`true`).
pub fn journal_interface(snapshot: &mut BaselineSnapshot, iface: &str, root_qdisc: Option<String>) -> (r:
    Result<bool, BaselineError>)
    ensures
        !valid_interface_name(iface@) ==> (r matches Err(e) && e matches BaselineError::InvalidInterfaceName(
            n,
        ) && n@ == iface@) && final(snapshot).interfaces@ == old(snapshot).interfaces@,
        valid_interface_name(iface@) ==> r is Ok,
        final(snapshot).version == old(snapshot).version,
        final(snapshot).captured_at_epoch == old(snapshot).captured_at_epoch,
        final(snapshot).sysctls@ == old(snapshot).sysctls@,
        r == Ok::<bool, BaselineError>(false) ==> final(snapshot).interfaces@ == old(
            snapshot,
        ).interfaces@ && journals(old(snapshot).interfaces@, iface@),
        r == Ok::<bool, BaselineError>(true) ==> ifaces_view(final(snapshot).interfaces@)
            == ifaces_view(old(snapshot).interfaces@).push((iface@, string_opt(root_qdisc)))
            && !journals(old(snapshot).interfaces@, iface@),
{
    validate_interface_name(iface)?;
    if journals_interface(snapshot, iface) {
        return Ok(false);
    }
    let ghost before = snapshot.interfaces@;
    let entry = (owned(iface), InterfaceBaseline { root_qdisc });
    snapshot.interfaces.push(entry);
    assert(ifaces_view(snapshot.interfaces@) =~= ifaces_view(before).push(iface_view(entry)));
    Ok(true)
}

/// Keeps the first baseline ever recorded: an existing (decoded) baseline
/// is checked and reused; only when there is none is one captured, and it
/// must then be written (`true`).
pub fn ensure_global_baseline(
    path: &str,
    existing: Option<BaselineSnapshot>,
    values: &Vec<Option<String>>,
    active: Option<(String, Option<String>)>,
) -> (r: Result<(BaselineSnapshot, bool, BaselineSummary), BaselineError>)
    ensures
        existing is Some && existing->0.version != BASELINE_VERSION ==> r == Err::<
            (BaselineSnapshot, bool, BaselineSummary),
            BaselineError,
        >(BaselineError::UnsupportedVersion(existing->0.version)),
        existing is Some && existing->0.version == BASELINE_VERSION ==> (r matches Ok((s, w, m))
            && !w && s.sysctls@ == existing->0.sysctls@ && s.interfaces@ == existing->0.interfaces@
            && s.captured_at_epoch == existing->0.captured_at_epoch && s.version == existing->0.version
            && m.captured_at_epoch == existing->0.captured_at_epoch
            && m.sysctl_count == existing->0.sysctls@.len()
            && m.interface_count == existing->0.interfaces@.len() && m.path@ == path@),
        existing is None && captured_sysctls(values@, MANAGED_COUNT as int).len() == 0 ==> r
            == Err::<(BaselineSnapshot, bool, BaselineSummary), BaselineError>(
            BaselineError::NothingReadable,
        ),
        existing is None && captured_sysctls(values@, MANAGED_COUNT as int).len() > 0 ==> (r matches Ok(
            (s, w, m),
        ) && w && s.version == BASELINE_VERSION && pairs_view(s.sysctls@) == captured_sysctls(
            values@,
            MANAGED_COUNT as int,
        ) && m.captured_at_epoch == s.captured_at_epoch && m.sysctl_count == s.sysctls@.len()
            && m.interface_count == s.interfaces@.len() && m.path@ == path@),
{
    match existing {
        Some(e) => {
            let s = check_snapshot(e)?;
            let m = summary(path, &s);
            Ok((s, false, m))
        },
        None => {
            let s = capture_snapshot(values, active)?;
            let m = summary(path, &s);
            Ok((s, true, m))
        },
    }
}

/// Journals an interface's original root qdisc before its first
/// replacement. The baseline is the existing one (checked) or a new
/// capture; an interface it already journals is kept, and the result names
/// the baseline to write, if any: a new capture is always written, an
/// existing baseline only when it gained the interface.
pub fn ensure_interface_baseline(
    iface: &str,
    existing: Option<BaselineSnapshot>,
    values: &Vec<Option<String>>,
    active: Option<(String, Option<String>)>,
    root_qdisc: Result<Option<String>, String>,
) -> (r: Result<Option<BaselineSnapshot>, BaselineError>)
    ensures
        !valid_interface_name(iface@) ==> (r matches Err(e) && e matches BaselineError::InvalidInterfaceName(
            n,
        ) && n@ == iface@),
        valid_interface_name(iface@) && (existing is Some && existing->0.version != BASELINE_VERSION) ==> r
            == Err::<Option<BaselineSnapshot>, BaselineError>(
            BaselineError::UnsupportedVersion(existing->0.version),
        ),
        valid_interface_name(iface@) && existing is None && captured_sysctls(
            values@,
            MANAGED_COUNT as int,
        ).len() == 0 ==> r == Err::<Option<BaselineSnapshot>, BaselineError>(
            BaselineError::NothingReadable,
        ),
        r matches Ok(Some(s)) ==> journals(s.interfaces@, iface@),
        (existing is Some && existing->0.version == BASELINE_VERSION && valid_interface_name(iface@)
            && journals(existing->0.interfaces@, iface@)) ==> r
            == Ok::<Option<BaselineSnapshot>, BaselineError>(None),
        (existing is Some && existing->0.version == BASELINE_VERSION && valid_interface_name(iface@)
            && !journals(existing->0.interfaces@, iface@)) ==> match root_qdisc {
            Err(m) => r == Err::<Option<BaselineSnapshot>, BaselineError>(BaselineError::ReadFailed(m)),
            Ok(q) => (r matches Ok(Some(s)) && s.sysctls@ == existing->0.sysctls@
                && s.captured_at_epoch == existing->0.captured_at_epoch && s.version
                == existing->0.version && ifaces_view(s.interfaces@)
                == ifaces_view(existing->0.interfaces@).push((iface@, string_opt(q)))),
        },
{
    validate_interface_name(iface)?;
    let file_exists = existing.is_some();
    let mut snapshot = match existing {
        Some(e) => check_snapshot(e)?,
        None => capture_snapshot(values, active)?,
    };
    if journals_interface(&snapshot, iface) {
        if !file_exists {
            return Ok(Some(snapshot));
        }
        return Ok(None);
    }
    let q = match root_qdisc {
        Ok(q) => q,
        Err(m) => return Err(BaselineError::ReadFailed(m)),
    };
    let ghost before = snapshot;
    let added = journal_interface(&mut snapshot, iface, q);
    proof {
        match added {
            Ok(true) => {},
            Ok(false) => {
                assert(false);
            },
            Err(_) => {
                assert(false);
            },
        }
        let n = before.interfaces@.len() as int;
        assert(ifaces_view(snapshot.interfaces@).len() == n + 1);
        assert(ifaces_view(snapshot.interfaces@)[n] == (iface@, string_opt(q)));
        assert(snapshot.interfaces@[n].0@ == iface@);
        assert(journals(snapshot.interfaces@, iface@));
    }
    Ok(Some(snapshot))
}

// ---------------------------------------------------------------------------
// Restore
/// The sysctls in the order a restore writes them: every recorded value but
/// the default qdisc and the congestion algorithm, in the baseline's
/// order; then the default qdisc; then the congestion algorithm, which the
/// kernel checks against the loaded modules last.
pub open spec fn restore_order(entries: Seq<(Seq<char>, Seq<char>)>) -> Seq<(Seq<char>, Seq<char>)> {
    entries.filter(|e: (Seq<char>, Seq<char>)| e.0 != DEFAULT_QDISC_PATH@ && e.0 != CONGESTION_CONTROL_PATH@)
        + first_with(entries, DEFAULT_QDISC_PATH@) + first_with(entries, CONGESTION_CONTROL_PATH@)
}

/// The first recorded value of a path, as a list of at most one entry.
pub open spec fn first_with(entries: Seq<(Seq<char>, Seq<char>)>, path: Seq<char>) -> Seq<
    (Seq<char>, Seq<char>),
>
    decreases entries.len(),
{
    if entries.len() == 0 {
        seq![]
    } else if entries[0].0 == path {
        seq![entries[0]]
    } else {
        first_with(entries.drop_first(), path)
    }
}

/// What a restore does with one recorded sysctl.
#[derive(Debug, Clone, Copy, PartialEq, Eq, Structural)]
pub enum RestoreAction {
    /// The path is outside the allowlist: nothing is written.
    Refuse,
    /// The node no longer exists: nothing is written.
    Vanished,
    /// The recorded value is written and read back.
    Write,
}

/// Decides whether a recorded sysctl may be written back. Only a path of the
/// compiled allowlist is ever written, and only while its node exists.
pub fn restore_action(path: &str, exists: bool) -> (r: RestoreAction)
    ensures
        !managed_paths().contains(path@) ==> r == RestoreAction::Refuse,
        managed_paths().contains(path@) && !exists ==> r == RestoreAction::Vanished,
        managed_paths().contains(path@) && exists ==> r == RestoreAction::Write,
{
    if !is_managed_sysctl(path) {
        RestoreAction::Refuse
    } else if !exists {
        RestoreAction::Vanished
    } else {
        RestoreAction::Write
    }
}

/// How writing one sysctl back went.
#[derive(Debug, Clone)]
pub enum SysctlRestore {
    /// The node no longer exists.
    Vanished,
    /// Writing failed, with the error's message.
    WriteFailed(String),
    /// Reading the value back failed, with the error's message.
    ReadbackFailed(String),
    /// The value read back after the write.
    ReadBack(String),
}

/// The error a restore step reports, if any: paths outside the allowlist are
/// refused before anything else.
pub open spec fn sysctl_message(path: Seq<char>, value: Seq<char>, outcome: SysctlRestore) -> Option<Seq<char>> {
    if !managed_paths().contains(path) {
        Some("refused unmanaged sysctl path: "@ + path)
    } else {
        match outcome {
            SysctlRestore::Vanished => Some("sysctl disappeared: "@ + path),
            SysctlRestore::WriteFailed(e) => Some("sysctl restore failed: "@ + path + ": "@ + e@),
            SysctlRestore::ReadbackFailed(e) => Some(
                "sysctl readback failed: "@ + path + ": "@ + e@,
            ),
            SysctlRestore::ReadBack(a) => if a@ == value {
                None
            } else {
                Some(
                    "sysctl readback mismatch: "@ + path + ", expected "@ + debug_text(value)
                        + ", got "@ + debug_text(a@),
                )
            },
        }
    }
}

/// A restore step that put the value back.
pub open spec fn sysctl_restored(path: Seq<char>, value: Seq<char>, outcome: SysctlRestore) -> bool {
    managed_paths().contains(path) && (outcome matches SysctlRestore::ReadBack(a) && a@ == value)
}

pub open spec fn opt_push(s: Seq<Seq<char>>, m: Option<Seq<char>>) -> Seq<Seq<char>> {
    match m {
        Some(x) => s.push(x),
        None => s,
    }
}

/// Messages of the first `n` sysctl steps.
pub open spec fn sysctl_messages(
    steps: Seq<(Seq<char>, Seq<char>)>,
    outcomes: Seq<SysctlRestore>,
    n: int,
) -> Seq<Seq<char>>
    decreases n,
{
    if n <= 0 {
        seq![]
    } else {
        opt_push(
            sysctl_messages(steps, outcomes, n - 1),
            sysctl_message(steps[n - 1].0, steps[n - 1].1, outcomes[n - 1]),
        )
    }
}

pub open spec fn count_restored(
    steps: Seq<(Seq<char>, Seq<char>)>,
    outcomes: Seq<SysctlRestore>,
    n: int,
) -> nat
    decreases n,
{
    if n <= 0 {
        0
    } else {
        count_restored(steps, outcomes, n - 1) + if sysctl_restored(
            steps[n - 1].0,
            steps[n - 1].1,
            outcomes[n - 1],
        ) {
            1nat
        } else {
            0nat
        }
    }
}

/// Messages of the first `n` interfaces.
pub open spec fn interface_messages(
    ifaces: Seq<(Seq<char>, Option<Seq<char>>)>,
    outcomes: Seq<Result<(), String>>,
    n: int,
) -> Seq<Seq<char>>
    decreases n,
{
    if n <= 0 {
        seq![]
    } else {
        let rest = interface_messages(ifaces, outcomes, n - 1);
        match outcomes[n - 1] {
            Ok(()) => rest,
            Err(e) => rest.push("interface "@ + ifaces[n - 1].0 + ": "@ + e@),
        }
    }
}

pub open spec fn count_ok(outcomes: Seq<Result<(), String>>, n: int) -> nat
    decreases n,
{
    if n <= 0 {
        0
    } else {
        count_ok(outcomes, n - 1) + if outcomes[n - 1] is Ok {
            1nat
        } else {
            0nat
        }
    }
}

pub open spec fn snapshot_pairs(s: BaselineSnapshot) -> Seq<(Seq<char>, Seq<char>)> {
    pairs_view(s.sysctls@)
}

fn first_with_exec(entries: &Vec<(String, String)>, path: &str, out: &mut Vec<(String, String)>)
    ensures
        pairs_view(final(out)@) == pairs_view(old(out)@) + first_with(pairs_view(entries@), path@),
{
    let ghost ev = pairs_view(entries@);
    let mut j: usize = 0;
    assert(ev.subrange(0, ev.len() as int) =~= ev);
    while j < entries.len()
        invariant
            ev == pairs_view(entries@),
            j <= entries@.len(),
            out@ == old(out)@,
            first_with(ev, path@) == first_with(ev.subrange(j as int, ev.len() as int), path@),
        decreases entries@.len() - j,
    {
        let ghost rest = ev.subrange(j as int, ev.len() as int);
        assert(rest.drop_first() =~= ev.subrange(j + 1, ev.len() as int));
        assert(rest[0] == pair_view(entries@[j as int]));
        if str_eq(entries[j].0.as_str(), path) {
            let e = (owned(entries[j].0.as_str()), owned(entries[j].1.as_str()));
            let ghost before = out@;
            out.push(e);
            assert(pairs_view(out@) =~= pairs_view(before) + seq![rest[0]]);
            return;
        }
        j += 1;
    }
    assert(ev.subrange(j as int, ev.len() as int) =~= seq![]);
    assert(pairs_view(out@) =~= pairs_view(old(out)@) + seq![]);
}

/// The sysctls of a baseline in the order a restore writes them.
pub fn restore_sequence(snapshot: &BaselineSnapshot) -> (r: Vec<(String, String)>)
    ensures
        pairs_view(r@) == restore_order(snapshot_pairs(*snapshot)),
{
    let ghost ev = pairs_view(snapshot.sysctls@);
    let mut out: Vec<(String, String)> = Vec::new();
    let mut j: usize = 0;
    assert(ev.subrange(0, 0).filter(
        |e: (Seq<char>, Seq<char>)| e.0 != DEFAULT_QDISC_PATH@ && e.0 != CONGESTION_CONTROL_PATH@,
    ) =~= seq![]);
    assert(pairs_view(out@) =~= seq![]);
    while j < snapshot.sysctls.len()
        invariant
            ev == pairs_view(snapshot.sysctls@),
            j <= snapshot.sysctls@.len(),
            pairs_view(out@) == ev.subrange(0, j as int).filter(
                |e: (Seq<char>, Seq<char>)| e.0 != DEFAULT_QDISC_PATH@ && e.0
                    != CONGESTION_CONTROL_PATH@,
            ),
        decreases snapshot.sysctls@.len() - j,
    {
        let ghost pre = ev.subrange(0, j + 1);
        assert(pre.drop_last() =~= ev.subrange(0, j as int));
        assert(pre.last() == pair_view(snapshot.sysctls@[j as int]));
        proof {
            Seq::lemma_filter_push(ev.subrange(0, j as int), pre.last(), |e: (Seq<char>, Seq<char>)| e.0
                != DEFAULT_QDISC_PATH@ && e.0 != CONGESTION_CONTROL_PATH@);
            assert(ev.subrange(0, j as int).push(pre.last()) =~= pre);
        }
        let p = snapshot.sysctls[j].0.as_str();
        if !str_eq(p, DEFAULT_QDISC_PATH) && !str_eq(p, CONGESTION_CONTROL_PATH) {
            let e = (owned(p), owned(snapshot.sysctls[j].1.as_str()));
            let ghost before = out@;
            out.push(e);
            assert(pairs_view(out@) =~= pairs_view(before).push(pair_view(e)));
        }
        j += 1;
    }
    assert(ev.subrange(0, ev.len() as int) =~= ev);
    first_with_exec(&snapshot.sysctls, DEFAULT_QDISC_PATH, &mut out);
    first_with_exec(&snapshot.sysctls, CONGESTION_CONTROL_PATH, &mut out);
    out
}

fn sysctl_message_exec(path: &str, value: &str, outcome: &SysctlRestore) -> (r: Option<String>)
    ensures
        string_opt(r) == sysctl_message(path@, value@, *outcome),
{
    if !is_managed_sysctl(path) {
        let mut m = owned("refused unmanaged sysctl path: ");
        push_str(&mut m, path);
        return Some(m);
    }
    match outcome {
        SysctlRestore::Vanished => {
            let mut m = owned("sysctl disappeared: ");
            push_str(&mut m, path);
            Some(m)
        },
        SysctlRestore::WriteFailed(e) => {
            let mut m = owned("sysctl restore failed: ");
            push_str(&mut m, path);
            push_str(&mut m, ": ");
            push_str(&mut m, e.as_str());
            Some(m)
        },
        SysctlRestore::ReadbackFailed(e) => {
            let mut m = owned("sysctl readback failed: ");
            push_str(&mut m, path);
            push_str(&mut m, ": ");
            push_str(&mut m, e.as_str());
            Some(m)
        },
        SysctlRestore::ReadBack(a) => {
            if str_eq(a.as_str(), value) {
                return None;
            }
            let mut m = owned("sysctl readback mismatch: ");
            push_str(&mut m, path);
            push_str(&mut m, ", expected ");
            let qv = debug_quoted(value);
            push_str(&mut m, qv.as_str());
            push_str(&mut m, ", got ");
            let qa = debug_quoted(a.as_str());
            push_str(&mut m, qa.as_str());
            Some(m)
        },
    }
}

/// The report of a restore, from the outcome of writing each sysctl of
/// `steps` (the baseline's `restore_sequence`) and of restoring each
/// journaled interface: counts of what was put back, and every error,
/// sorted and each once; it succeeds when there is no error.
pub fn restore(
    steps: &Vec<(String, String)>,
    outcomes: &Vec<SysctlRestore>,
    interfaces: &Vec<(String, InterfaceBaseline)>,
    interface_outcomes: &Vec<Result<(), String>>,
) -> (r: RestoreReport)
    requires
        outcomes@.len() == steps@.len(),
        interface_outcomes@.len() == interfaces@.len(),
    ensures
        r.restored_sysctls == count_restored(pairs_view(steps@), outcomes@, steps@.len() as int),
        r.restored_interfaces == count_ok(interface_outcomes@, interfaces@.len() as int),
        strictly_sorted(string_views(r.errors@)),
        forall|x: Seq<char>| string_views(r.errors@).contains(x) <==> (sysctl_messages(
            pairs_view(steps@),
            outcomes@,
            steps@.len() as int,
        ) + interface_messages(
            ifaces_view(interfaces@),
            interface_outcomes@,
            interfaces@.len() as int,
        )).contains(x),
        r.success == (r.errors@.len() == 0),
{
    let ghost sv = pairs_view(steps@);
    let mut errors: Vec<String> = Vec::new();
    let mut restored: usize = 0;
    let mut k: usize = 0;
    assert(string_views(errors@) =~= seq![]);
    while k < steps.len()
        invariant
            sv == pairs_view(steps@),
            outcomes@.len() == steps@.len(),
            k <= steps@.len(),
            restored <= k,
            restored == count_restored(sv, outcomes@, k as int),
            string_views(errors@) == sysctl_messages(sv, outcomes@, k as int),
        decreases steps@.len() - k,
    {
        assert(sv[k as int] == pair_view(steps@[k as int]));
        let m = sysctl_message_exec(steps[k].0.as_str(), steps[k].1.as_str(), &outcomes[k]);
        match m {
            Some(text) => {
                let ghost before = errors@;
                errors.push(text);
                assert(string_views(errors@) =~= string_views(before).push(text@));
            },
            None => {
                restored += 1;
            },
        }
        proof {
            if m is None {
                assert(sysctl_restored(sv[k as int].0, sv[k as int].1, outcomes@[k as int]));
            } else {
                assert(!sysctl_restored(sv[k as int].0, sv[k as int].1, outcomes@[k as int]));
            }
        }
        k += 1;
    }
    let ghost base = string_views(errors@);
    let ghost iv = ifaces_view(interfaces@);
    let mut restored_ifaces: usize = 0;
    let mut j: usize = 0;
    assert(base + seq![] =~= base);
    while j < interfaces.len()
        invariant
            iv == ifaces_view(interfaces@),
            interface_outcomes@.len() == interfaces@.len(),
            j <= interfaces@.len(),
            restored_ifaces <= j,
            restored_ifaces == count_ok(interface_outcomes@, j as int),
            string_views(errors@) == base + interface_messages(iv, interface_outcomes@, j as int),
        decreases interfaces@.len() - j,
    {
        assert(iv[j as int] == iface_view(interfaces@[j as int]));
        match &interface_outcomes[j] {
            Ok(()) => {
                restored_ifaces += 1;
            },
            Err(e) => {
                let mut m = owned("interface ");
                push_str(&mut m, interfaces[j].0.as_str());
                push_str(&mut m, ": ");
                push_str(&mut m, e.as_str());
                let ghost before = errors@;
                errors.push(m);
                assert(string_views(errors@) =~= string_views(before).push(m@));
                assert(base + interface_messages(iv, interface_outcomes@, j + 1) =~= (base
                    + interface_messages(iv, interface_outcomes@, j as int)).push(m@));
            },
        }
        j += 1;
    }
    let sorted = sort_dedup(&errors);
    RestoreReport {
        success: sorted.len() == 0,
        restored_sysctls: restored,
        restored_interfaces: restored_ifaces,
        errors: sorted,
    }
}

/// Restoration writes only within the allowlist and counts a sysctl as
/// restored only on exact readback: a step on a path outside the allowlist
/// is refused whatever happened to it, and a step counts as restored exactly
/// when the value read back equals the recorded one.
pub proof fn lemma_restore_is_allowlisted_and_read_back(
    path: Seq<char>,
    value: Seq<char>,
    outcome: SysctlRestore,
)
    ensures
        !managed_paths().contains(path) ==> sysctl_message(path, value, outcome) == Some(
            "refused unmanaged sysctl path: "@ + path,
        ) && !sysctl_restored(path, value, outcome),
        sysctl_restored(path, value, outcome) <==> (managed_paths().contains(path) && (
        outcome matches SysctlRestore::ReadBack(a) && a@ == value)),
        sysctl_restored(path, value, outcome) ==> sysctl_message(path, value, outcome) is None,
{
}

} // verus!

