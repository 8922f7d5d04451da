//! Kernel sysctl policy: the advanced-override table and its parser, the
//! bounded value and triplet parsers, and the plan of base writes.
use vstd::prelude::*;

use crate::config::{is_known_algorithm, is_known_qdisc, known_algorithm, known_qdisc};
use crate::text::{
    chars_eq_str, chars_of, debug_quoted, debug_text, decimal, lines, owned, parse_u32,
    parse_u32_chars, push_str, seq_has, split_lines, split_once, split_once_char,
    split_whitespace, string_of, string_views, trim, trim_chars, u32_to_string, views, words,
    parse_unsigned_checked, unsigned_outcome, IntErrorKind,
};

verus! {

/// An `advanced.conf` entry accepted for the running policy.
#[derive(Debug, Clone, PartialEq, Eq)]
pub struct AdvancedOverride {
    pub key: &'static str,
    pub path: &'static str,
    pub value: u32,
}

impl AdvancedOverride {
    pub open spec fn view_tuple(self) -> (Seq<char>, Seq<char>, u32) {
        (self.key@, self.path@, self.value)
    }
}

pub open spec fn override_views(v: Seq<AdvancedOverride>) -> Seq<(Seq<char>, Seq<char>, u32)> {
    v.map_values(|o: AdvancedOverride| o.view_tuple())
}

/// Why a sysctl value or request was refused.
#[derive(Debug, Clone, PartialEq, Eq)]
pub enum SysctlError {
    /// A token of a numeric sysctl is not an unsigned 32-bit number.
    InvalidValue(String),
    /// A triplet sysctl holds this many values instead of three.
    WrongCount(usize),
    /// The congestion algorithm is outside the allowlist.
    UnsupportedAlgorithm(String),
    /// The queue discipline is outside the allowlist.
    UnsupportedQdisc(String),
}

/// A value to write to a sysctl node.
#[derive(Debug, Clone, PartialEq, Eq)]
pub struct SysctlWrite {
    pub path: String,
    pub value: String,
}

/// Path, lower and upper bound of an advanced sysctl key; the table of the
/// keys that `advanced.conf` may set.
pub open spec fn advanced_entry(key: Seq<char>) -> Option<(Seq<char>, u32, u32)> {
    if key == "tcp_keepalive_time"@ {
        Some(("/proc/sys/net/ipv4/tcp_keepalive_time"@, 10u32, 7200u32))
    }
    else if key == "tcp_keepalive_intvl"@ {
        Some(("/proc/sys/net/ipv4/tcp_keepalive_intvl"@, 1u32, 300u32))
    }
    else if key == "tcp_keepalive_probes"@ {
        Some(("/proc/sys/net/ipv4/tcp_keepalive_probes"@, 1u32, 30u32))
    }
    else if key == "tcp_fin_timeout"@ {
        Some(("/proc/sys/net/ipv4/tcp_fin_timeout"@, 5u32, 120u32))
    }
    else if key == "tcp_syn_retries"@ {
        Some(("/proc/sys/net/ipv4/tcp_syn_retries"@, 1u32, 10u32))
    }
    else if key == "tcp_synack_retries"@ {
        Some(("/proc/sys/net/ipv4/tcp_synack_retries"@, 1u32, 10u32))
    }
    else if key == "tcp_retries2"@ {
        Some(("/proc/sys/net/ipv4/tcp_retries2"@, 3u32, 20u32))
    }
    else if key == "rmem_max"@ {
        Some(("/proc/sys/net/core/rmem_max"@, 65536u32, 134217728u32))
    }
    else if key == "wmem_max"@ {
        Some(("/proc/sys/net/core/wmem_max"@, 65536u32, 134217728u32))
    }
    else if key == "optmem_max"@ {
        Some(("/proc/sys/net/core/optmem_max"@, 10240u32, 4194304u32))
    }
    else if key == "tcp_notsent_lowat"@ {
        Some(("/proc/sys/net/ipv4/tcp_notsent_lowat"@, 0u32, 4294967295u32))
    }
    else if key == "somaxconn"@ {
        Some(("/proc/sys/net/core/somaxconn"@, 128u32, 65535u32))
    }
    else if key == "netdev_max_backlog"@ {
        Some(("/proc/sys/net/core/netdev_max_backlog"@, 256u32, 65535u32))
    }
    else if key == "tcp_max_syn_backlog"@ {
        Some(("/proc/sys/net/ipv4/tcp_max_syn_backlog"@, 128u32, 65535u32))
    }
    else if key == "netdev_budget"@ {
        Some(("/proc/sys/net/core/netdev_budget"@, 64u32, 4096u32))
    }
    else if key == "netdev_budget_usecs"@ {
        Some(("/proc/sys/net/core/netdev_budget_usecs"@, 500u32, 50000u32))
    }
    else if key == "tcp_mtu_probing"@ {
        Some(("/proc/sys/net/ipv4/tcp_mtu_probing"@, 0u32, 2u32))
    }
    else if key == "tcp_sack"@ {
        Some(("/proc/sys/net/ipv4/tcp_sack"@, 0u32, 1u32))
    }
    else if key == "tcp_dsack"@ {
        Some(("/proc/sys/net/ipv4/tcp_dsack"@, 0u32, 1u32))
    }
    else if key == "tcp_no_metrics_save"@ {
        Some(("/proc/sys/net/ipv4/tcp_no_metrics_save"@, 0u32, 1u32))
    }
    else if key == "tcp_slow_start_after_idle"@ {
        Some(("/proc/sys/net/ipv4/tcp_slow_start_after_idle"@, 0u32, 1u32))
    }
    else if key == "tcp_tw_reuse"@ {
        Some(("/proc/sys/net/ipv4/tcp_tw_reuse"@, 0u32, 2u32))
    }
    else if key == "tcp_autocorking"@ {
        Some(("/proc/sys/net/ipv4/tcp_autocorking"@, 0u32, 1u32))
    }
    else if key == "tcp_early_retrans"@ {
        Some(("/proc/sys/net/ipv4/tcp_early_retrans"@, 0u32, 4u32))
    }
    else if key == "tcp_thin_linear_timeouts"@ {
        Some(("/proc/sys/net/ipv4/tcp_thin_linear_timeouts"@, 0u32, 1u32))
    }
    else if key == "tcp_thin_dupack"@ {
        Some(("/proc/sys/net/ipv4/tcp_thin_dupack"@, 0u32, 1u32))
    }
    else if key == "tcp_rto_max_ms"@ {
        Some(("/proc/sys/net/ipv4/tcp_rto_max_ms"@, 1000u32, 120000u32))
    }
    else if key == "tcp_plb_enabled"@ {
        Some(("/proc/sys/net/ipv4/tcp_plb_enabled"@, 0u32, 1u32))
    }
    else if key == "tcp_plb_idle_rehash_rounds"@ {
        Some(("/proc/sys/net/ipv4/tcp_plb_idle_rehash_rounds"@, 0u32, 31u32))
    }
    else if key == "tcp_plb_rehash_rounds"@ {
        Some(("/proc/sys/net/ipv4/tcp_plb_rehash_rounds"@, 0u32, 31u32))
    }
    else if key == "tcp_plb_suspend_rto_sec"@ {
        Some(("/proc/sys/net/ipv4/tcp_plb_suspend_rto_sec"@, 0u32, 255u32))
    }
    else if key == "tcp_plb_cong_thresh"@ {
        Some(("/proc/sys/net/ipv4/tcp_plb_cong_thresh"@, 0u32, 256u32))
    }
    else if key == "busy_poll"@ {
        Some(("/proc/sys/net/core/busy_poll"@, 0u32, 100000u32))
    }
    else if key == "busy_read"@ {
        Some(("/proc/sys/net/core/busy_read"@, 0u32, 100000u32))
    }
    else if key == "nf_conntrack_max"@ {
        Some(("/proc/sys/net/netfilter/nf_conntrack_max"@, 1024u32, 1048576u32))
    }
    else if key == "nf_conntrack_tcp_timeout_established"@ {
        Some(("/proc/sys/net/netfilter/nf_conntrack_tcp_timeout_established"@, 60u32, 432000u32))
    }
    else if key == "nf_conntrack_tcp_timeout_time_wait"@ {
        Some(("/proc/sys/net/netfilter/nf_conntrack_tcp_timeout_time_wait"@, 1u32, 600u32))
    } else {
        None
    }
}

/// The advanced sysctl table, in order: key, path, lower and upper bound.
pub open spec fn advanced_table() -> Seq<(Seq<char>, Seq<char>, u32, u32)> {
    seq![
        ("tcp_keepalive_time"@, "/proc/sys/net/ipv4/tcp_keepalive_time"@, 10u32, 7200u32),
        ("tcp_keepalive_intvl"@, "/proc/sys/net/ipv4/tcp_keepalive_intvl"@, 1u32, 300u32),
        ("tcp_keepalive_probes"@, "/proc/sys/net/ipv4/tcp_keepalive_probes"@, 1u32, 30u32),
        ("tcp_fin_timeout"@, "/proc/sys/net/ipv4/tcp_fin_timeout"@, 5u32, 120u32),
        ("tcp_syn_retries"@, "/proc/sys/net/ipv4/tcp_syn_retries"@, 1u32, 10u32),
        ("tcp_synack_retries"@, "/proc/sys/net/ipv4/tcp_synack_retries"@, 1u32, 10u32),
        ("tcp_retries2"@, "/proc/sys/net/ipv4/tcp_retries2"@, 3u32, 20u32),
        ("rmem_max"@, "/proc/sys/net/core/rmem_max"@, 65536u32, 134217728u32),
        ("wmem_max"@, "/proc/sys/net/core/wmem_max"@, 65536u32, 134217728u32),
        ("optmem_max"@, "/proc/sys/net/core/optmem_max"@, 10240u32, 4194304u32),
        ("tcp_notsent_lowat"@, "/proc/sys/net/ipv4/tcp_notsent_lowat"@, 0u32, 4294967295u32),
        ("somaxconn"@, "/proc/sys/net/core/somaxconn"@, 128u32, 65535u32),
        ("netdev_max_backlog"@, "/proc/sys/net/core/netdev_max_backlog"@, 256u32, 65535u32),
        ("tcp_max_syn_backlog"@, "/proc/sys/net/ipv4/tcp_max_syn_backlog"@, 128u32, 65535u32),
        ("netdev_budget"@, "/proc/sys/net/core/netdev_budget"@, 64u32, 4096u32),
        ("netdev_budget_usecs"@, "/proc/sys/net/core/netdev_budget_usecs"@, 500u32, 50000u32),
        ("tcp_mtu_probing"@, "/proc/sys/net/ipv4/tcp_mtu_probing"@, 0u32, 2u32),
        ("tcp_sack"@, "/proc/sys/net/ipv4/tcp_sack"@, 0u32, 1u32),
        ("tcp_dsack"@, "/proc/sys/net/ipv4/tcp_dsack"@, 0u32, 1u32),
        ("tcp_no_metrics_save"@, "/proc/sys/net/ipv4/tcp_no_metrics_save"@, 0u32, 1u32),
        ("tcp_slow_start_after_idle"@, "/proc/sys/net/ipv4/tcp_slow_start_after_idle"@, 0u32, 1u32),
        ("tcp_tw_reuse"@, "/proc/sys/net/ipv4/tcp_tw_reuse"@, 0u32, 2u32),
        ("tcp_autocorking"@, "/proc/sys/net/ipv4/tcp_autocorking"@, 0u32, 1u32),
        ("tcp_early_retrans"@, "/proc/sys/net/ipv4/tcp_early_retrans"@, 0u32, 4u32),
        ("tcp_thin_linear_timeouts"@, "/proc/sys/net/ipv4/tcp_thin_linear_timeouts"@, 0u32, 1u32),
        ("tcp_thin_dupack"@, "/proc/sys/net/ipv4/tcp_thin_dupack"@, 0u32, 1u32),
        ("tcp_rto_max_ms"@, "/proc/sys/net/ipv4/tcp_rto_max_ms"@, 1000u32, 120000u32),
        ("tcp_plb_enabled"@, "/proc/sys/net/ipv4/tcp_plb_enabled"@, 0u32, 1u32),
        ("tcp_plb_idle_rehash_rounds"@, "/proc/sys/net/ipv4/tcp_plb_idle_rehash_rounds"@, 0u32, 31u32),
        ("tcp_plb_rehash_rounds"@, "/proc/sys/net/ipv4/tcp_plb_rehash_rounds"@, 0u32, 31u32),
        ("tcp_plb_suspend_rto_sec"@, "/proc/sys/net/ipv4/tcp_plb_suspend_rto_sec"@, 0u32, 255u32),
        ("tcp_plb_cong_thresh"@, "/proc/sys/net/ipv4/tcp_plb_cong_thresh"@, 0u32, 256u32),
        ("busy_poll"@, "/proc/sys/net/core/busy_poll"@, 0u32, 100000u32),
        ("busy_read"@, "/proc/sys/net/core/busy_read"@, 0u32, 100000u32),
        ("nf_conntrack_max"@, "/proc/sys/net/netfilter/nf_conntrack_max"@, 1024u32, 1048576u32),
        ("nf_conntrack_tcp_timeout_established"@, "/proc/sys/net/netfilter/nf_conntrack_tcp_timeout_established"@, 60u32, 432000u32),
        ("nf_conntrack_tcp_timeout_time_wait"@, "/proc/sys/net/netfilter/nf_conntrack_tcp_timeout_time_wait"@, 1u32, 600u32)
    ]
}

/// Looks a key up in the advanced sysctl table.
pub fn find_advanced(key: &[char]) -> (r: Option<(&'static str, &'static str, u32, u32)>)
    ensures
        r matches Some(e) ==> e.0@ == key@ && advanced_entry(key@) == Some((e.1@, e.2, e.3)),
        r is None ==> advanced_entry(key@) is None,
{
    if chars_eq_str(key, "tcp_keepalive_time") {
        Some(("tcp_keepalive_time", "/proc/sys/net/ipv4/tcp_keepalive_time", 10, 7200))
    }
    else if chars_eq_str(key, "tcp_keepalive_intvl") {
        Some(("tcp_keepalive_intvl", "/proc/sys/net/ipv4/tcp_keepalive_intvl", 1, 300))
    }
    else if chars_eq_str(key, "tcp_keepalive_probes") {
        Some(("tcp_keepalive_probes", "/proc/sys/net/ipv4/tcp_keepalive_probes", 1, 30))
    }
    else if chars_eq_str(key, "tcp_fin_timeout") {
        Some(("tcp_fin_timeout", "/proc/sys/net/ipv4/tcp_fin_timeout", 5, 120))
    }
    else if chars_eq_str(key, "tcp_syn_retries") {
        Some(("tcp_syn_retries", "/proc/sys/net/ipv4/tcp_syn_retries", 1, 10))
    }
    else if chars_eq_str(key, "tcp_synack_retries") {
        Some(("tcp_synack_retries", "/proc/sys/net/ipv4/tcp_synack_retries", 1, 10))
    }
    else if chars_eq_str(key, "tcp_retries2") {
        Some(("tcp_retries2", "/proc/sys/net/ipv4/tcp_retries2", 3, 20))
    }
    else if chars_eq_str(key, "rmem_max") {
        Some(("rmem_max", "/proc/sys/net/core/rmem_max", 65536, 134217728))
    }
    else if chars_eq_str(key, "wmem_max") {
        Some(("wmem_max", "/proc/sys/net/core/wmem_max", 65536, 134217728))
    }
    else if chars_eq_str(key, "optmem_max") {
        Some(("optmem_max", "/proc/sys/net/core/optmem_max", 10240, 4194304))
    }
    else if chars_eq_str(key, "tcp_notsent_lowat") {
        Some(("tcp_notsent_lowat", "/proc/sys/net/ipv4/tcp_notsent_lowat", 0, 4294967295))
    }
    else if chars_eq_str(key, "somaxconn") {
        Some(("somaxconn", "/proc/sys/net/core/somaxconn", 128, 65535))
    }
    else if chars_eq_str(key, "netdev_max_backlog") {
        Some(("netdev_max_backlog", "/proc/sys/net/core/netdev_max_backlog", 256, 65535))
    }
    else if chars_eq_str(key, "tcp_max_syn_backlog") {
        Some(("tcp_max_syn_backlog", "/proc/sys/net/ipv4/tcp_max_syn_backlog", 128, 65535))
    }
    else if chars_eq_str(key, "netdev_budget") {
        Some(("netdev_budget", "/proc/sys/net/core/netdev_budget", 64, 4096))
    }
    else if chars_eq_str(key, "netdev_budget_usecs") {
        Some(("netdev_budget_usecs", "/proc/sys/net/core/netdev_budget_usecs", 500, 50000))
    }
    else if chars_eq_str(key, "tcp_mtu_probing") {
        Some(("tcp_mtu_probing", "/proc/sys/net/ipv4/tcp_mtu_probing", 0, 2))
    }
    else if chars_eq_str(key, "tcp_sack") {
        Some(("tcp_sack", "/proc/sys/net/ipv4/tcp_sack", 0, 1))
    }
    else if chars_eq_str(key, "tcp_dsack") {
        Some(("tcp_dsack", "/proc/sys/net/ipv4/tcp_dsack", 0, 1))
    }
    else if chars_eq_str(key, "tcp_no_metrics_save") {
        Some(("tcp_no_metrics_save", "/proc/sys/net/ipv4/tcp_no_metrics_save", 0, 1))
    }
    else if chars_eq_str(key, "tcp_slow_start_after_idle") {
        Some(("tcp_slow_start_after_idle", "/proc/sys/net/ipv4/tcp_slow_start_after_idle", 0, 1))
    }
    else if chars_eq_str(key, "tcp_tw_reuse") {
        Some(("tcp_tw_reuse", "/proc/sys/net/ipv4/tcp_tw_reuse", 0, 2))
    }
    else if chars_eq_str(key, "tcp_autocorking") {
        Some(("tcp_autocorking", "/proc/sys/net/ipv4/tcp_autocorking", 0, 1))
    }
    else if chars_eq_str(key, "tcp_early_retrans") {
        Some(("tcp_early_retrans", "/proc/sys/net/ipv4/tcp_early_retrans", 0, 4))
    }
    else if chars_eq_str(key, "tcp_thin_linear_timeouts") {
        Some(("tcp_thin_linear_timeouts", "/proc/sys/net/ipv4/tcp_thin_linear_timeouts", 0, 1))
    }
    else if chars_eq_str(key, "tcp_thin_dupack") {
        Some(("tcp_thin_dupack", "/proc/sys/net/ipv4/tcp_thin_dupack", 0, 1))
    }
    else if chars_eq_str(key, "tcp_rto_max_ms") {
        Some(("tcp_rto_max_ms", "/proc/sys/net/ipv4/tcp_rto_max_ms", 1000, 120000))
    }
    else if chars_eq_str(key, "tcp_plb_enabled") {
        Some(("tcp_plb_enabled", "/proc/sys/net/ipv4/tcp_plb_enabled", 0, 1))
    }
    else if chars_eq_str(key, "tcp_plb_idle_rehash_rounds") {
        Some(("tcp_plb_idle_rehash_rounds", "/proc/sys/net/ipv4/tcp_plb_idle_rehash_rounds", 0, 31))
    }
    else if chars_eq_str(key, "tcp_plb_rehash_rounds") {
        Some(("tcp_plb_rehash_rounds", "/proc/sys/net/ipv4/tcp_plb_rehash_rounds", 0, 31))
    }
    else if chars_eq_str(key, "tcp_plb_suspend_rto_sec") {
        Some(("tcp_plb_suspend_rto_sec", "/proc/sys/net/ipv4/tcp_plb_suspend_rto_sec", 0, 255))
    }
    else if chars_eq_str(key, "tcp_plb_cong_thresh") {
        Some(("tcp_plb_cong_thresh", "/proc/sys/net/ipv4/tcp_plb_cong_thresh", 0, 256))
    }
    else if chars_eq_str(key, "busy_poll") {
        Some(("busy_poll", "/proc/sys/net/core/busy_poll", 0, 100000))
    }
    else if chars_eq_str(key, "busy_read") {
        Some(("busy_read", "/proc/sys/net/core/busy_read", 0, 100000))
    }
    else if chars_eq_str(key, "nf_conntrack_max") {
        Some(("nf_conntrack_max", "/proc/sys/net/netfilter/nf_conntrack_max", 1024, 1048576))
    }
    else if chars_eq_str(key, "nf_conntrack_tcp_timeout_established") {
        Some(("nf_conntrack_tcp_timeout_established", "/proc/sys/net/netfilter/nf_conntrack_tcp_timeout_established", 60, 432000))
    }
    else if chars_eq_str(key, "nf_conntrack_tcp_timeout_time_wait") {
        Some(("nf_conntrack_tcp_timeout_time_wait", "/proc/sys/net/netfilter/nf_conntrack_tcp_timeout_time_wait", 1, 600))
    } else {
        None
    }
}

/// The advanced sysctl table.
pub fn advanced_sysctls() -> (v: Vec<(&'static str, &'static str, u32, u32)>)
    ensures
        v@.map_values(|e: (&'static str, &'static str, u32, u32)| (e.0@, e.1@, e.2, e.3))
            == advanced_table(),
{
    let mut v: Vec<(&'static str, &'static str, u32, u32)> = Vec::new();
    v.push(("tcp_keepalive_time", "/proc/sys/net/ipv4/tcp_keepalive_time", 10, 7200));
    v.push(("tcp_keepalive_intvl", "/proc/sys/net/ipv4/tcp_keepalive_intvl", 1, 300));
    v.push(("tcp_keepalive_probes", "/proc/sys/net/ipv4/tcp_keepalive_probes", 1, 30));
    v.push(("tcp_fin_timeout", "/proc/sys/net/ipv4/tcp_fin_timeout", 5, 120));
    v.push(("tcp_syn_retries", "/proc/sys/net/ipv4/tcp_syn_retries", 1, 10));
    v.push(("tcp_synack_retries", "/proc/sys/net/ipv4/tcp_synack_retries", 1, 10));
    v.push(("tcp_retries2", "/proc/sys/net/ipv4/tcp_retries2", 3, 20));
    v.push(("rmem_max", "/proc/sys/net/core/rmem_max", 65536, 134217728));
    v.push(("wmem_max", "/proc/sys/net/core/wmem_max", 65536, 134217728));
    v.push(("optmem_max", "/proc/sys/net/core/optmem_max", 10240, 4194304));
    v.push(("tcp_notsent_lowat", "/proc/sys/net/ipv4/tcp_notsent_lowat", 0, 4294967295));
    v.push(("somaxconn", "/proc/sys/net/core/somaxconn", 128, 65535));
    v.push(("netdev_max_backlog", "/proc/sys/net/core/netdev_max_backlog", 256, 65535));
    v.push(("tcp_max_syn_backlog", "/proc/sys/net/ipv4/tcp_max_syn_backlog", 128, 65535));
    v.push(("netdev_budget", "/proc/sys/net/core/netdev_budget", 64, 4096));
    v.push(("netdev_budget_usecs", "/proc/sys/net/core/netdev_budget_usecs", 500, 50000));
    v.push(("tcp_mtu_probing", "/proc/sys/net/ipv4/tcp_mtu_probing", 0, 2));
    v.push(("tcp_sack", "/proc/sys/net/ipv4/tcp_sack", 0, 1));
    v.push(("tcp_dsack", "/proc/sys/net/ipv4/tcp_dsack", 0, 1));
    v.push(("tcp_no_metrics_save", "/proc/sys/net/ipv4/tcp_no_metrics_save", 0, 1));
    v.push(("tcp_slow_start_after_idle", "/proc/sys/net/ipv4/tcp_slow_start_after_idle", 0, 1));
    v.push(("tcp_tw_reuse", "/proc/sys/net/ipv4/tcp_tw_reuse", 0, 2));
    v.push(("tcp_autocorking", "/proc/sys/net/ipv4/tcp_autocorking", 0, 1));
    v.push(("tcp_early_retrans", "/proc/sys/net/ipv4/tcp_early_retrans", 0, 4));
    v.push(("tcp_thin_linear_timeouts", "/proc/sys/net/ipv4/tcp_thin_linear_timeouts", 0, 1));
    v.push(("tcp_thin_dupack", "/proc/sys/net/ipv4/tcp_thin_dupack", 0, 1));
    v.push(("tcp_rto_max_ms", "/proc/sys/net/ipv4/tcp_rto_max_ms", 1000, 120000));
    v.push(("tcp_plb_enabled", "/proc/sys/net/ipv4/tcp_plb_enabled", 0, 1));
    v.push(("tcp_plb_idle_rehash_rounds", "/proc/sys/net/ipv4/tcp_plb_idle_rehash_rounds", 0, 31));
    v.push(("tcp_plb_rehash_rounds", "/proc/sys/net/ipv4/tcp_plb_rehash_rounds", 0, 31));
    v.push(("tcp_plb_suspend_rto_sec", "/proc/sys/net/ipv4/tcp_plb_suspend_rto_sec", 0, 255));
    v.push(("tcp_plb_cong_thresh", "/proc/sys/net/ipv4/tcp_plb_cong_thresh", 0, 256));
    v.push(("busy_poll", "/proc/sys/net/core/busy_poll", 0, 100000));
    v.push(("busy_read", "/proc/sys/net/core/busy_read", 0, 100000));
    v.push(("nf_conntrack_max", "/proc/sys/net/netfilter/nf_conntrack_max", 1024, 1048576));
    v.push(("nf_conntrack_tcp_timeout_established", "/proc/sys/net/netfilter/nf_conntrack_tcp_timeout_established", 60, 432000));
    v.push(("nf_conntrack_tcp_timeout_time_wait", "/proc/sys/net/netfilter/nf_conntrack_tcp_timeout_time_wait", 1, 600));
    assert(v@.map_values(|e: (&'static str, &'static str, u32, u32)| (e.0@, e.1@, e.2, e.3))
        =~= advanced_table());
    v
}

/// A trimmed unsigned value within `min..=max`.
pub open spec fn bounded_value(value: Seq<char>, min: u32, max: u32) -> Option<u32> {
    match parse_u32(trim(value)) {
        Some(v) => if min <= v <= max {
            Some(v)
        } else {
            None
        },
        None => None,
    }
}

pub fn parse_bounded_value(value: &str, min: u32, max: u32) -> (r: Option<u32>)
    ensures
        r == bounded_value(value@, min, max),
{
    let v = chars_of(value);
    let t = trim_chars(v.as_slice());
    match parse_u32_chars(t.as_slice()) {
        Some(x) => if min <= x && x <= max {
            Some(x)
        } else {
            None
        },
        None => None,
    }
}

/// `read_sysctl` keeps the trimmed file content.
pub fn read_sysctl_value(raw: &str) -> (r: String)
    ensures
        r@ == trim(raw@),
{
    let v = chars_of(raw);
    let t = trim_chars(v.as_slice());
    string_of(t.as_slice())
}

/// A numeric sysctl read as `str::parse::<u32>` reads its trimmed content,
/// with the kind of failure.
pub fn parse_u32_value(raw: &str) -> (r: Result<u32, IntErrorKind>)
    ensures
        match r {
            Ok(v) => unsigned_outcome(trim(raw@), u32::MAX as int) == Ok::<int, IntErrorKind>(v as int),
            Err(k) => unsigned_outcome(trim(raw@), u32::MAX as int) == Err::<int, IntErrorKind>(k),
        },
{
    let v = chars_of(raw);
    let t = trim_chars(v.as_slice());
    match parse_unsigned_checked(t.as_slice(), 0xffff_ffff) {
        Ok(x) => Ok(x as u32),
        Err(k) => Err(k),
    }
}

/// Index of the first word of `ws` that is not an unsigned 32-bit number.
pub open spec fn first_unparsable(ws: Seq<Seq<char>>) -> int {
    choose|i: int|
        0 <= i < ws.len() && parse_u32(ws[i]) is None && forall|j: int|
            0 <= j < i ==> parse_u32(ws[j]) is Some
}

pub open spec fn all_parse(ws: Seq<Seq<char>>) -> bool {
    forall|i: int| 0 <= i < ws.len() ==> parse_u32(#[trigger] ws[i]) is Some
}

/// `min default max` from a triplet sysctl: the first token that is not a
/// number is reported, then a count other than three.
pub open spec fn triplet_outcome(raw: Seq<char>, r: Result<(u32, u32, u32), SysctlError>) -> bool {
    let ws = words(raw);
    if !all_parse(ws) {
        r matches Err(SysctlError::InvalidValue(t)) && t@ == ws[first_unparsable(ws)]
    } else if ws.len() != 3 {
        r == Err::<(u32, u32, u32), SysctlError>(SysctlError::WrongCount(ws.len() as usize))
    } else {
        r == Ok::<(u32, u32, u32), SysctlError>(
            (parse_u32(ws[0]).unwrap(), parse_u32(ws[1]).unwrap(), parse_u32(ws[2]).unwrap()),
        )
    }
}

pub fn parse_sysctl_triplet(raw: &str) -> (r: Result<(u32, u32, u32), SysctlError>)
    ensures
        triplet_outcome(raw@, r),
{
    let v = chars_of(raw);
    let ws = split_whitespace(v.as_slice());
    let n = ws.len();
    let mut values: Vec<u32> = Vec::new();
    let mut i: usize = 0;
    while i < n
        invariant
            n == ws@.len(),
            i <= n,
            views(ws@) == words(raw@),
            values@.len() == i,
            forall|j: int| 0 <= j < i ==> parse_u32(views(ws@)[j]) == Some(values@[j]),
        decreases n - i,
    {
        assert(views(ws@)[i as int] == ws@[i as int]@);
        match parse_u32_chars(ws[i].as_slice()) {
            Some(x) => values.push(x),
            None => {
                proof {
                    let w = views(ws@);
                    let k = i as int;
                    assert(parse_u32(w[k]) is None);
                    assert forall|j: int| 0 <= j < k implies parse_u32(w[j]) is Some by {
                        assert(parse_u32(w[j]) == Some(values@[j]));
                    }
                    let f = first_unparsable(w);
                    if f < k {
                        assert(parse_u32(w[f]) is Some);
                    }
                    if k < f {
                        assert(parse_u32(w[k]) is Some);
                    }
                }
                return Err(SysctlError::InvalidValue(string_of(ws[i].as_slice())));
            },
        }
        i += 1;
    }
    assert forall|j: int| 0 <= j < views(ws@).len() implies parse_u32(
        #[trigger] views(ws@)[j],
    ) is Some by {
        assert(parse_u32(views(ws@)[j]) == Some(values@[j]));
    }
    assert(all_parse(views(ws@)));
    if n != 3 {
        return Err(SysctlError::WrongCount(n));
    }
    Ok((values[0], values[1], values[2]))
}

/// What one line of `advanced.conf` contributes.
pub enum AdvancedLine {
    /// Empty after trimming.
    Blank,
    /// A key outside the table: ignored.
    Unknown,
    /// No `=` in the trimmed line.
    Malformed(Seq<char>),
    /// A known key whose value is outside its bounds or not a number.
    Invalid(Seq<char>),
    /// An accepted override: key, path, value.
    Accepted(Seq<char>, Seq<char>, u32),
}

pub open spec fn advanced_line(raw: Seq<char>) -> AdvancedLine {
    let line = trim(raw);
    if line.len() == 0 {
        AdvancedLine::Blank
    } else {
        match split_once(line, '=') {
            None => AdvancedLine::Malformed(line),
            Some((key, value)) => match advanced_entry(key) {
                None => AdvancedLine::Unknown,
                Some((path, min, max)) => match bounded_value(value, min, max) {
                    None => AdvancedLine::Invalid(key),
                    Some(v) => AdvancedLine::Accepted(key, path, v),
                },
            },
        }
    }
}

pub open spec fn malformed_message(line: Seq<char>) -> Seq<char> {
    "advanced.conf: malformed entry "@ + debug_text(line)
}

pub open spec fn invalid_message(key: Seq<char>) -> Seq<char> {
    "advanced.conf: invalid value for "@ + key
}

/// Overrides and failure messages of the lines `ls[i..]`.
pub open spec fn advanced_scan(ls: Seq<Seq<char>>, i: int) -> (
    Seq<(Seq<char>, Seq<char>, u32)>,
    Seq<Seq<char>>,
)
    decreases ls.len() - i,
{
    if i < 0 || i >= ls.len() {
        (seq![], seq![])
    } else {
        let rest = advanced_scan(ls, i + 1);
        match advanced_line(ls[i]) {
            AdvancedLine::Accepted(k, p, v) => (seq![(k, p, v)] + rest.0, rest.1),
            AdvancedLine::Malformed(l) => (rest.0, seq![malformed_message(l)] + rest.1),
            AdvancedLine::Invalid(k) => (rest.0, seq![invalid_message(k)] + rest.1),
            _ => rest,
        }
    }
}

/// The overrides of `advanced.conf` and the failures of its rejected lines.
pub open spec fn advanced_overrides(content: Seq<char>) -> (
    Seq<(Seq<char>, Seq<char>, u32)>,
    Seq<Seq<char>>,
) {
    advanced_scan(lines(content), 0)
}

fn advanced_line_exec(raw: &[char]) -> (r: (Option<AdvancedOverride>, Option<String>))
    ensures
        match advanced_line(raw@) {
            AdvancedLine::Accepted(k, p, v) => r.0 matches Some(o) && o.view_tuple() == (k, p, v)
                && r.1 is None,
            AdvancedLine::Malformed(l) => r.0 is None && (r.1 matches Some(m) && m@
                == malformed_message(l)),
            AdvancedLine::Invalid(k) => r.0 is None && (r.1 matches Some(m) && m@ == invalid_message(
                k,
            )),
            _ => r.0 is None && r.1 is None,
        },
{
    let line = trim_chars(raw);
    if line.len() == 0 {
        return (None, None);
    }
    match split_once_char(line.as_slice(), '=') {
        None => {
            let text = string_of(line.as_slice());
            let quoted = debug_quoted(text.as_str());
            let mut m = owned("advanced.conf: malformed entry ");
            push_str(&mut m, quoted.as_str());
            (None, Some(m))
        },
        Some((key, value)) => match find_advanced(key.as_slice()) {
            None => (None, None),
            Some((known_key, path, min, max)) => {
                let value_text = string_of(value.as_slice());
                match parse_bounded_value(value_text.as_str(), min, max) {
                    None => {
                        let mut m = owned("advanced.conf: invalid value for ");
                        let key_text = string_of(key.as_slice());
                        push_str(&mut m, key_text.as_str());
                        (None, Some(m))
                    },
                    Some(v) => (Some(AdvancedOverride { key: known_key, path, value: v }), None),
                }
            },
        },
    }
}

/// Parses `advanced.conf`: known keys with in-range values become overrides;
/// lines without `=` and known keys with bad values become failures;
/// unknown keys are ignored.
pub fn parse_advanced_overrides(content: &str) -> (r: (Vec<AdvancedOverride>, Vec<String>))
    ensures
        (override_views(r.0@), string_views(r.1@)) == advanced_overrides(content@),
{
    let v = chars_of(content);
    let ls = split_lines(v.as_slice());
    let n = ls.len();
    let mut overrides: Vec<AdvancedOverride> = Vec::new();
    let mut failures: Vec<String> = Vec::new();
    let mut i: usize = 0;
    let ghost all = lines(content@);
    assert(override_views(overrides@) =~= seq![]);
    assert(string_views(failures@) =~= seq![]);
    assert(advanced_scan(all, 0).0 =~= seq![] + advanced_scan(all, 0).0);
    assert(advanced_scan(all, 0).1 =~= seq![] + advanced_scan(all, 0).1);
    while i < n
        invariant
            n == ls@.len(),
            i <= n,
            views(ls@) == all,
            advanced_scan(all, 0).0 == override_views(overrides@) + advanced_scan(all, i as int).0,
            advanced_scan(all, 0).1 == string_views(failures@) + advanced_scan(all, i as int).1,
        decreases n - i,
    {
        assert(all[i as int] == ls@[i as int]@);
        let ghost ov = override_views(overrides@);
        let ghost fv = string_views(failures@);
        let ghost rest = advanced_scan(all, i + 1);
        let (o, f) = advanced_line_exec(ls[i].as_slice());
        match o {
            Some(x) => {
                overrides.push(x);
                assert(override_views(overrides@) =~= ov + seq![x.view_tuple()]);
                assert(ov + (seq![x.view_tuple()] + rest.0) =~= (ov + seq![x.view_tuple()])
                    + rest.0);
            },
            None => {},
        }
        match f {
            Some(m) => {
                let ghost mv = m@;
                failures.push(m);
                assert(string_views(failures@) =~= fv + seq![mv]);
                assert(fv + (seq![mv] + rest.1) =~= (fv + seq![mv]) + rest.1);
            },
            None => {},
        }
        i += 1;
    }
    assert(override_views(overrides@) + seq![] =~= override_views(overrides@));
    assert(string_views(failures@) + seq![] =~= string_views(failures@));
    (overrides, failures)
}

/// The overrides configured in `advanced.conf`, from its content when it
/// could be read; an unreadable file configures nothing.
pub fn configured_advanced_overrides(content: Option<&str>) -> (r: (
    Vec<AdvancedOverride>,
    Vec<String>,
))
    ensures
        content is None ==> r.0@.len() == 0 && r.1@.len() == 0,
        content matches Some(c) ==> (override_views(r.0@), string_views(r.1@))
            == advanced_overrides(c@),
{
    match content {
        Some(c) => parse_advanced_overrides(c),
        None => (Vec::new(), Vec::new()),
    }
}

/// The congestion algorithms listed by the kernel.
pub fn available_algorithms(raw: &str) -> (r: Vec<String>)
    ensures
        string_views(r@) == words(raw@),
{
    let v = chars_of(raw);
    let ws = split_whitespace(v.as_slice());
    let mut out: Vec<String> = Vec::new();
    let mut i: usize = 0;
    while i < ws.len()
        invariant
            i <= ws@.len(),
            views(ws@) == words(raw@),
            string_views(out@) == views(ws@).subrange(0, i as int),
        decreases ws@.len() - i,
    {
        assert(views(ws@)[i as int] == ws@[i as int]@);
        let ghost old = string_views(out@);
        let w = string_of(ws[i].as_slice());
        assert(w@ == views(ws@)[i as int]);
        out.push(w);
        assert(string_views(out@) =~= old.push(w@));
        assert(views(ws@).subrange(0, i + 1) =~= views(ws@).subrange(0, i as int).push(w@));
        i += 1;
    }
    assert(views(ws@).subrange(0, ws@.len() as int) =~= views(ws@));
    out
}

/// Whether the kernel's algorithm list names `algo`.
pub fn algo_available(raw: &str, algo: &str) -> (r: bool)
    ensures
        r == seq_has(words(raw@), algo@),
{
    let v = chars_of(raw);
    let ws = split_whitespace(v.as_slice());
    let mut i: usize = 0;
    while i < ws.len()
        invariant
            i <= ws@.len(),
            views(ws@) == words(raw@),
            forall|j: int| 0 <= j < i ==> views(ws@)[j] != algo@,
        decreases ws@.len() - i,
    {
        if chars_eq_str(ws[i].as_slice(), algo) {
            assert(views(ws@)[i as int] == algo@);
            return true;
        }
        i += 1;
    }
    false
}

/// The current congestion algorithm or default qdisc: the trimmed sysctl.
pub fn current_algorithm(raw: &str) -> (r: String)
    ensures
        r@ == trim(raw@),
{
    read_sysctl_value(raw)
}

/// The current default qdisc: the trimmed sysctl.
pub fn default_qdisc(raw: &str) -> (r: String)
    ensures
        r@ == trim(raw@),
{
    read_sysctl_value(raw)
}

/// The receive memory triplet.
pub fn tcp_rmem(raw: &str) -> (r: Result<(u32, u32, u32), SysctlError>)
    ensures
        triplet_outcome(trim(raw@), r),
{
    let t = read_sysctl_value(raw);
    parse_sysctl_triplet(t.as_str())
}

pub fn sysctl_write(path: &str, value: String) -> (w: SysctlWrite)
    ensures
        w.path@ == path@,
        w.value@ == value@,
{
    SysctlWrite { path: owned(path), value }
}

/// Write of the congestion algorithm; only allowlisted names are written.
pub fn set_congestion_control(algo: &str) -> (r: Result<SysctlWrite, SysctlError>)
    ensures
        known_algorithm(algo@) <==> r is Ok,
        r matches Ok(w) ==> w.path@ == "/proc/sys/net/ipv4/tcp_congestion_control"@ && w.value@
            == algo@,
        r matches Err(e) ==> e matches SysctlError::UnsupportedAlgorithm(a) && a@ == algo@,
{
    if !is_known_algorithm(algo) {
        return Err(SysctlError::UnsupportedAlgorithm(owned(algo)));
    }
    Ok(sysctl_write("/proc/sys/net/ipv4/tcp_congestion_control", owned(algo)))
}

/// Write of the default queue discipline; only allowlisted names are written.
pub fn set_default_qdisc(qdisc: &str) -> (r: Result<SysctlWrite, SysctlError>)
    ensures
        known_qdisc(qdisc@) <==> r is Ok,
        r matches Ok(w) ==> w.path@ == "/proc/sys/net/core/default_qdisc"@ && w.value@ == qdisc@,
        r matches Err(e) ==> e matches SysctlError::UnsupportedQdisc(q) && q@ == qdisc@,
{
    if !is_known_qdisc(qdisc) {
        return Err(SysctlError::UnsupportedQdisc(owned(qdisc)));
    }
    Ok(sysctl_write("/proc/sys/net/core/default_qdisc", owned(qdisc)))
}

/// Writes of the TCP pacing ratios, congestion avoidance first.
pub fn set_pacing(ca_ratio: u32, ss_ratio: u32) -> (r: (SysctlWrite, SysctlWrite))
    ensures
        r.0.path@ == "/proc/sys/net/ipv4/tcp_pacing_ca_ratio"@,
        r.0.value@ == decimal(ca_ratio as nat),
        r.1.path@ == "/proc/sys/net/ipv4/tcp_pacing_ss_ratio"@,
        r.1.value@ == decimal(ss_ratio as nat),
{
    (
        sysctl_write("/proc/sys/net/ipv4/tcp_pacing_ca_ratio", u32_to_string(ca_ratio)),
        sysctl_write("/proc/sys/net/ipv4/tcp_pacing_ss_ratio", u32_to_string(ss_ratio)),
    )
}

/// What reading a sysctl node gave.
#[derive(Debug, Clone)]
pub enum SysctlReading {
    /// The node does not exist.
    Absent,
    /// The node exists but could not be read.
    Unreadable,
    /// The node's content, as read.
    Present(String),
}

/// One step of applying the base policy, in order.
#[derive(Debug, Clone)]
pub enum SysctlStep {
    /// Write this value if the node exists; a failed write is a failure.
    Write(SysctlWrite),
    /// A failure to report.
    Failure(String),
}

/// The abstract step: `(true, path, value)` for a write, `(false, message, _)`
/// for a failure.
pub open spec fn step_view(s: SysctlStep) -> (bool, Seq<char>, Seq<char>) {
    match s {
        SysctlStep::Write(w) => (true, w.path@, w.value@),
        SysctlStep::Failure(m) => (false, m@, seq![]),
    }
}

pub open spec fn step_views(v: Seq<SysctlStep>) -> Seq<(bool, Seq<char>, Seq<char>)> {
    v.map_values(|s: SysctlStep| step_view(s))
}

/// What the base policy reads before it writes.
#[derive(Debug, Clone)]
pub struct BaseSysctlInputs {
    /// Content of the module's `tcp_ecn` override file, when readable.
    pub tcp_ecn_override: Option<String>,
    /// Content of the module's `tcp_fastopen` override file, when readable.
    pub tcp_fastopen_override: Option<String>,
    pub tcp_rmem: SysctlReading,
    pub tcp_wmem: SysctlReading,
    pub rmem_max: SysctlReading,
    pub wmem_max: SysctlReading,
    /// Content of `advanced.conf`, when readable.
    pub advanced_conf: Option<String>,
}

/// A bounded override read from a file, or the default.
pub open spec fn override_or(content: Option<String>, min: u32, max: u32, default: u32) -> u32 {
    match content {
        Some(c) => match bounded_value(c@, min, max) {
            Some(v) => v,
            None => default,
        },
        None => default,
    }
}

pub fn override_or_exec(content: &Option<String>, min: u32, max: u32, default: u32) -> (r: u32)
    ensures
        r == override_or(*content, min, max, default),
{
    match content {
        Some(c) => match parse_bounded_value(c.as_str(), min, max) {
            Some(v) => v,
            None => default,
        },
        None => default,
    }
}

pub open spec fn max_u32(a: u32, b: u32) -> u32 {
    if a >= b {
        a
    } else {
        b
    }
}

/// The value written to a triplet node: each current value raised to its
/// floor, or the floor where the node cannot be read or parsed; nothing
/// where the node does not exist.
pub open spec fn raised_triplet(reading: SysctlReading, floor: (u32, u32, u32)) -> Option<
    (u32, u32, u32),
> {
    match reading {
        SysctlReading::Absent => None,
        SysctlReading::Unreadable => Some(floor),
        SysctlReading::Present(raw) => {
            let ws = words(trim(raw@));
            if all_parse(ws) && ws.len() == 3 {
                Some(
                    (
                        max_u32(parse_u32(ws[0]).unwrap(), floor.0),
                        max_u32(parse_u32(ws[1]).unwrap(), floor.1),
                        max_u32(parse_u32(ws[2]).unwrap(), floor.2),
                    ),
                )
            } else {
                Some(floor)
            }
        },
    }
}

/// The value written to a scalar node: the current value raised to the floor.
pub open spec fn raised_scalar(reading: SysctlReading, floor: u32) -> Option<u32> {
    match reading {
        SysctlReading::Absent => None,
        SysctlReading::Unreadable => Some(floor),
        SysctlReading::Present(raw) => match parse_u32(trim(raw@)) {
            Some(v) => Some(max_u32(v, floor)),
            None => Some(floor),
        },
    }
}

pub open spec fn triplet_text(t: (u32, u32, u32)) -> Seq<char> {
    decimal(t.0 as nat) + " "@ + decimal(t.1 as nat) + " "@ + decimal(t.2 as nat)
}

pub open spec fn write_view(path: Seq<char>, value: Seq<char>) -> (bool, Seq<char>, Seq<char>) {
    (true, path, value)
}

pub open spec fn optional_write(path: Seq<char>, value: Option<Seq<char>>) -> Seq<
    (bool, Seq<char>, Seq<char>),
> {
    match value {
        Some(v) => seq![write_view(path, v)],
        None => seq![],
    }
}

pub open spec fn failure_views(msgs: Seq<Seq<char>>) -> Seq<(bool, Seq<char>, Seq<char>)> {
    msgs.map_values(|m: Seq<char>| (false, m, Seq::<char>::empty()))
}

pub open spec fn override_writes(ovs: Seq<(Seq<char>, Seq<char>, u32)>) -> Seq<
    (bool, Seq<char>, Seq<char>),
> {
    ovs.map_values(|o: (Seq<char>, Seq<char>, u32)| write_view(o.1, decimal(o.2 as nat)))
}

/// The advanced part of the plan: the failures of `advanced.conf`, then a
/// write for each of its overrides.
pub open spec fn advanced_steps(content: Option<String>) -> Seq<(bool, Seq<char>, Seq<char>)> {
    match content {
        Some(c) => failure_views(advanced_overrides(c@).1) + override_writes(
            advanced_overrides(c@).0,
        ),
        None => seq![],
    }
}

/// The fixed part of the base TCP policy, with ECN and Fast Open from their
/// bounded overrides (defaults 1 and 3).
pub open spec fn fixed_plan(inp: BaseSysctlInputs) -> Seq<(bool, Seq<char>, Seq<char>)> {
    seq![
        write_view(
            "/proc/sys/net/ipv4/tcp_ecn"@,
            decimal(override_or(inp.tcp_ecn_override, 0, 2, 1) as nat),
        ),
        write_view("/proc/sys/net/ipv4/tcp_pacing_ca_ratio"@, "150"@),
        write_view("/proc/sys/net/ipv4/tcp_pacing_ss_ratio"@, "200"@),
        write_view("/proc/sys/net/ipv4/tcp_window_scaling"@, "1"@),
        write_view("/proc/sys/net/ipv4/tcp_max_syn_backlog"@, "4096"@),
        write_view("/proc/sys/net/ipv4/tcp_mtu_probing"@, "1"@),
        write_view(
            "/proc/sys/net/ipv4/tcp_fastopen"@,
            decimal(override_or(inp.tcp_fastopen_override, 0, 3, 3) as nat),
        ),
        write_view("/proc/sys/net/ipv4/tcp_tw_reuse"@, "1"@)
    ]
}

/// Socket buffer sizes raised to their floors, never lowered.
pub open spec fn buffer_plan(inp: BaseSysctlInputs) -> Seq<(bool, Seq<char>, Seq<char>)> {
    optional_write(
        "/proc/sys/net/ipv4/tcp_rmem"@,
        match raised_triplet(inp.tcp_rmem, (4096, 87380, 16_777_216)) {
            Some(t) => Some(triplet_text(t)),
            None => None,
        },
    ) + optional_write(
        "/proc/sys/net/ipv4/tcp_wmem"@,
        match raised_triplet(inp.tcp_wmem, (4096, 65536, 16_777_216)) {
            Some(t) => Some(triplet_text(t)),
            None => None,
        },
    ) + optional_write(
        "/proc/sys/net/core/rmem_max"@,
        match raised_scalar(inp.rmem_max, 16_777_216) {
            Some(v) => Some(decimal(v as nat)),
            None => None,
        },
    ) + optional_write(
        "/proc/sys/net/core/wmem_max"@,
        match raised_scalar(inp.wmem_max, 16_777_216) {
            Some(v) => Some(decimal(v as nat)),
            None => None,
        },
    )
}

/// The base TCP policy: fixed writes, raised buffers, then the advanced
/// overrides.
pub open spec fn base_plan(inp: BaseSysctlInputs) -> Seq<(bool, Seq<char>, Seq<char>)> {
    fixed_plan(inp) + buffer_plan(inp) + advanced_steps(inp.advanced_conf)
}

fn push_write(steps: &mut Vec<SysctlStep>, path: &str, value: String)
    ensures
        step_views(final(steps)@) == step_views(old(steps)@).push(write_view(path@, value@)),
{
    let ghost before = step_views(steps@);
    let w = sysctl_write(path, value);
    steps.push(SysctlStep::Write(w));
    assert(step_views(steps@) =~= before.push(write_view(path@, w.value@)));
}

fn raised_triplet_exec(reading: &SysctlReading, floor: (u32, u32, u32)) -> (r: Option<String>)
    ensures
        match raised_triplet(*reading, floor) {
            Some(t) => r matches Some(s) && s@ == triplet_text(t),
            None => r is None,
        },
{
    let t = match reading {
        SysctlReading::Absent => return None,
        SysctlReading::Unreadable => floor,
        SysctlReading::Present(raw) => match tcp_rmem(raw.as_str()) {
            Ok((a, b, c)) => (
                if a >= floor.0 {
                    a
                } else {
                    floor.0
                },
                if b >= floor.1 {
                    b
                } else {
                    floor.1
                },
                if c >= floor.2 {
                    c
                } else {
                    floor.2
                },
            ),
            Err(_) => floor,
        },
    };
    let mut s = u32_to_string(t.0);
    push_str(&mut s, " ");
    let b = u32_to_string(t.1);
    push_str(&mut s, b.as_str());
    push_str(&mut s, " ");
    let c = u32_to_string(t.2);
    push_str(&mut s, c.as_str());
    Some(s)
}

fn raised_scalar_exec(reading: &SysctlReading, floor: u32) -> (r: Option<String>)
    ensures
        match raised_scalar(*reading, floor) {
            Some(v) => r matches Some(s) && s@ == decimal(v as nat),
            None => r is None,
        },
{
    let v = match reading {
        SysctlReading::Absent => return None,
        SysctlReading::Unreadable => floor,
        SysctlReading::Present(raw) => {
            let cs = chars_of(raw.as_str());
            let t = trim_chars(cs.as_slice());
            match parse_u32_chars(t.as_slice()) {
                Some(x) => if x >= floor {
                    x
                } else {
                    floor
                },
                None => floor,
            }
        },
    };
    Some(u32_to_string(v))
}

fn fixed_steps(inp: &BaseSysctlInputs) -> (r: Vec<SysctlStep>)
    ensures
        step_views(r@) == fixed_plan(*inp),
{
    let mut steps: Vec<SysctlStep> = Vec::new();
    let ecn = override_or_exec(&inp.tcp_ecn_override, 0, 2, 1);
    let fastopen = override_or_exec(&inp.tcp_fastopen_override, 0, 3, 3);
    push_write(&mut steps, "/proc/sys/net/ipv4/tcp_ecn", u32_to_string(ecn));
    push_write(&mut steps, "/proc/sys/net/ipv4/tcp_pacing_ca_ratio", owned("150"));
    push_write(&mut steps, "/proc/sys/net/ipv4/tcp_pacing_ss_ratio", owned("200"));
    push_write(&mut steps, "/proc/sys/net/ipv4/tcp_window_scaling", owned("1"));
    push_write(&mut steps, "/proc/sys/net/ipv4/tcp_max_syn_backlog", owned("4096"));
    push_write(&mut steps, "/proc/sys/net/ipv4/tcp_mtu_probing", owned("1"));
    push_write(&mut steps, "/proc/sys/net/ipv4/tcp_fastopen", u32_to_string(fastopen));
    push_write(&mut steps, "/proc/sys/net/ipv4/tcp_tw_reuse", owned("1"));
    assert(step_views(steps@) =~= fixed_plan(*inp));
    steps
}

fn optional_step(steps: &mut Vec<SysctlStep>, path: &str, value: Option<String>)
    ensures
        step_views(final(steps)@) == step_views(old(steps)@) + optional_write(
            path@,
            match value {
                Some(v) => Some(v@),
                None => None,
            },
        ),
{
    match value {
        Some(v) => {
            let ghost vv = v@;
            push_write(steps, path, v);
            assert(step_views(steps@) =~= step_views(old(steps)@) + seq![write_view(path@, vv)]);
        },
        None => {
            assert(step_views(steps@) =~= step_views(old(steps)@) + seq![]);
        },
    }
}

fn buffer_steps(inp: &BaseSysctlInputs) -> (r: Vec<SysctlStep>)
    ensures
        step_views(r@) == buffer_plan(*inp),
{
    let mut steps: Vec<SysctlStep> = Vec::new();
    assert(step_views(steps@) =~= seq![]);
    optional_step(
        &mut steps,
        "/proc/sys/net/ipv4/tcp_rmem",
        raised_triplet_exec(&inp.tcp_rmem, (4096, 87380, 16_777_216)),
    );
    optional_step(
        &mut steps,
        "/proc/sys/net/ipv4/tcp_wmem",
        raised_triplet_exec(&inp.tcp_wmem, (4096, 65536, 16_777_216)),
    );
    optional_step(
        &mut steps,
        "/proc/sys/net/core/rmem_max",
        raised_scalar_exec(&inp.rmem_max, 16_777_216),
    );
    optional_step(
        &mut steps,
        "/proc/sys/net/core/wmem_max",
        raised_scalar_exec(&inp.wmem_max, 16_777_216),
    );
    assert(step_views(steps@) =~= buffer_plan(*inp));
    steps
}

fn advanced_steps_exec(content: &Option<String>) -> (r: Vec<SysctlStep>)
    ensures
        step_views(r@) == advanced_steps(*content),
{
    let mut steps: Vec<SysctlStep> = Vec::new();
    let c = match content {
        Some(c) => c.as_str(),
        None => {
            assert(step_views(steps@) =~= seq![]);
            return steps;
        },
    };
    let (overrides, failures) = parse_advanced_overrides(c);
    let mut i: usize = 0;
    assert(step_views(steps@) =~= failure_views(string_views(failures@).subrange(0, 0)));
    while i < failures.len()
        invariant
            i <= failures@.len(),
            step_views(steps@) == failure_views(string_views(failures@).subrange(0, i as int)),
        decreases failures@.len() - i,
    {
        let ghost before = step_views(steps@);
        let m = failures[i].clone();
        steps.push(SysctlStep::Failure(m));
        assert(step_views(steps@) =~= before.push((false, m@, Seq::<char>::empty())));
        assert(failure_views(string_views(failures@).subrange(0, i + 1)) =~= failure_views(
            string_views(failures@).subrange(0, i as int),
        ).push((false, m@, Seq::<char>::empty())));
        i += 1;
    }
    assert(string_views(failures@).subrange(0, failures@.len() as int) =~= string_views(
        failures@,
    ));
    let ghost mid = step_views(steps@);
    let mut j: usize = 0;
    assert(mid + override_writes(override_views(overrides@).subrange(0, 0)) =~= mid);
    while j < overrides.len()
        invariant
            j <= overrides@.len(),
            step_views(steps@) == mid + override_writes(override_views(overrides@).subrange(
                0,
                j as int,
            )),
        decreases overrides@.len() - j,
    {
        let o = &overrides[j];
        push_write(&mut steps, o.path, u32_to_string(o.value));
        assert(override_writes(override_views(overrides@).subrange(0, j + 1)) =~= override_writes(
            override_views(overrides@).subrange(0, j as int),
        ).push(write_view(o.path@, decimal(o.value as nat))));
        j += 1;
    }
    assert(override_views(overrides@).subrange(0, overrides@.len() as int) =~= override_views(
        overrides@,
    ));
    steps
}

/// The steps of the base TCP policy; the caller performs the writes in
/// order, skipping nodes that do not exist and reporting failed writes.
pub fn apply_base_sysctls(inp: &BaseSysctlInputs) -> (r: Vec<SysctlStep>)
    ensures
        step_views(r@) == base_plan(*inp),
{
    let mut steps = fixed_steps(inp);
    let mut buffers = buffer_steps(inp);
    let mut advanced = advanced_steps_exec(&inp.advanced_conf);
    let ghost a = steps@;
    let ghost b = buffers@;
    let ghost c = advanced@;
    steps.append(&mut buffers);
    steps.append(&mut advanced);
    assert(steps@ == a + b + c);
    assert(step_views(steps@) =~= step_views(a) + step_views(b) + step_views(c));
    steps
}

} // verus!
