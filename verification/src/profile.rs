//! The device's network profile and the automatic tuning recommendations
//! derived from it: buffer floors, queue lengths and connection tracking.
use vstd::prelude::*;

use crate::clock::now_epoch;
use crate::network::{iface_mode, mode_of, IfaceMode};
use crate::proxy::ProxySnapshot;
use crate::text::{
    chars_eq_str, chars_of, chars_starts_with, decimal, lines, owned, parse_u64,
    parse_u64_chars, push_str, slice_of, split_lines, split_whitespace, starts_with, string_of,
    trim, trim_str, u32_to_string, views, words, str_eq, string_views,
};

verus! {

/// Version of the profile document.
pub const PROFILE_SCHEMA: u32 = 1;

#[derive(Debug, Clone, PartialEq, Eq)]
pub struct AutoRecommendations {
    pub socket_buffer_floor: u32,
    pub somaxconn: u32,
    pub netdev_max_backlog: u32,
    pub nf_conntrack_max: Option<u32>,
    pub tcp_mtu_probing: u32,
    pub tcp_sack: u32,
    pub tcp_dsack: u32,
    pub tcp_no_metrics_save: u32,
    pub tcp_autocorking: u32,
}

#[derive(Debug, Clone, PartialEq, Eq)]
pub struct NetworkProfile {
    pub schema: u32,
    pub generated_epoch: u64,
    pub auto_tuning_enabled: bool,
    pub kernel_release: String,
    pub kmi: Option<String>,
    pub arch: String,
    pub memory_kib: Option<u64>,
    pub active_iface: Option<String>,
    pub iface_mode: String,
    pub iface_mtu: Option<u32>,
    pub proxy: ProxySnapshot,
    pub available_algorithms: Vec<String>,
    pub bundled_algorithms: Vec<String>,
    pub bundled_qdiscs: Vec<String>,
    pub wifi_algorithm: Option<String>,
    pub cellular_algorithm: Option<String>,
    pub qdisc_policy: String,
    pub recommendations: AutoRecommendations,
}

/// Automatic tuning is on unless its disable marker exists.
pub fn auto_tuning_enabled(disable_marker_exists: bool) -> (r: bool)
    ensures
        r == !disable_marker_exists,
{
    !disable_marker_exists
}

/// Whole GiB of memory, 0 when unknown.
pub open spec fn memory_gib(memory: Option<u64>) -> int {
    match memory {
        Some(m) => (m / 1048576) as int,
        None => 0,
    }
}

/// The socket buffer floor: 16 MiB below 8 GiB of memory, 24 MiB below
/// 12 GiB, 32 MiB above.
pub open spec fn buffer_floor(memory: Option<u64>) -> u32 {
    let g = memory_gib(memory);
    if g <= 7 {
        16777216
    } else if g <= 11 {
        25165824
    } else {
        33554432
    }
}

fn memory_gib_exec(memory: Option<u64>) -> (r: u64)
    ensures
        r == memory_gib(memory),
{
    match memory {
        Some(m) => m / 1048576,
        None => 0,
    }
}

pub fn socket_buffer_floor_for_memory(memory: Option<u64>) -> (r: u32)
    ensures
        r == buffer_floor(memory),
{
    let g = memory_gib_exec(memory);
    if g <= 7 {
        16777216
    } else if g <= 11 {
        25165824
    } else {
        33554432
    }
}

/// The first `MemTotal:` line, from the `i`-th on, whose first word is a
/// number: that number of KiB.
pub open spec fn meminfo_scan(ls: Seq<Seq<char>>, i: int) -> Option<u64>
    decreases ls.len() - i,
{
    if i < 0 || i >= ls.len() {
        None
    } else if starts_with(ls[i], "MemTotal:"@) {
        let w = words(ls[i].subrange(9, ls[i].len() as int));
        if w.len() > 0 && parse_u64(w[0]) is Some {
            parse_u64(w[0])
        } else {
            meminfo_scan(ls, i + 1)
        }
    } else {
        meminfo_scan(ls, i + 1)
    }
}

/// The total memory in KiB that `/proc/meminfo` reports.
pub fn memory_kib(meminfo: &str) -> (r: Option<u64>)
    ensures
        r == meminfo_scan(lines(meminfo@), 0),
{
    let cs = chars_of(meminfo);
    let ls = split_lines(cs.as_slice());
    let ghost lv = views(ls@);
    let mut i: usize = 0;
    proof {
        reveal_strlit("MemTotal:");
    }
    while i < ls.len()
        invariant
            lv == views(ls@),
            lv == lines(meminfo@),
            i <= ls@.len(),
            meminfo_scan(lv, 0) == meminfo_scan(lv, i as int),
            "MemTotal:"@.len() == 9,
        decreases ls@.len() - i,
    {
        assert(lv[i as int] == ls@[i as int]@);
        if chars_starts_with(ls[i].as_slice(), "MemTotal:") {
            let rest = slice_of(ls[i].as_slice(), 9, ls[i].len());
            let w = split_whitespace(rest.as_slice());
            if w.len() > 0 {
                assert(views(w@)[0] == w@[0]@);
                let v = parse_u64_chars(w[0].as_slice());
                if v.is_some() {
                    return v;
                }
            }
        }
        i += 1;
    }
    None
}

/// The socket buffer floor for the memory that `/proc/meminfo` reports
/// (when it could be read).
pub fn recommended_socket_buffer_floor(meminfo: Option<&str>) -> (r: u32)
    ensures
        r == buffer_floor(
            match meminfo {
                Some(m) => meminfo_scan(lines(m@), 0),
                None => None,
            },
        ),
{
    let memory = match meminfo {
        Some(m) => memory_kib(m),
        None => None,
    };
    socket_buffer_floor_for_memory(memory)
}

/// The recommendations for a device: buffer floor, listen and input queue
/// lengths by memory, and, behind a transparent proxy, a connection table
/// at least 256 Ki entries (8 GiB or more) or 128 Ki, never below what the
/// kernel has now.
pub open spec fn recommended(memory: Option<u64>, transparent: bool, conntrack_current: Option<u32>) -> AutoRecommendations {
    let g = memory_gib(memory);
    let floor: u32 = if g >= 8 {
        262144
    } else {
        131072
    };
    AutoRecommendations {
        socket_buffer_floor: buffer_floor(memory),
        somaxconn: if g <= 4 {
            1024
        } else if g <= 8 {
            2048
        } else {
            4096
        },
        netdev_max_backlog: if g <= 4 {
            2048
        } else if g <= 8 {
            4096
        } else {
            8192
        },
        nf_conntrack_max: if transparent {
            Some(
                match conntrack_current {
                    Some(c) => if c > floor {
                        c
                    } else {
                        floor
                    },
                    None => floor,
                },
            )
        } else {
            None
        },
        tcp_mtu_probing: 1,
        tcp_sack: 1,
        tcp_dsack: 1,
        tcp_no_metrics_save: 0,
        tcp_autocorking: 1,
    }
}

/// The automatic tuning recommendations, from the memory size, the proxy
/// in use and the connection table size the kernel has now.
pub fn recommendations(memory: Option<u64>, proxy: &ProxySnapshot, conntrack_current: Option<u32>) -> (r:
    AutoRecommendations)
    ensures
        r == recommended(memory, proxy.transparent, conntrack_current),
{
    let g = memory_gib_exec(memory);
    let somaxconn = if g <= 4 {
        1024
    } else if g <= 8 {
        2048
    } else {
        4096
    };
    let netdev_max_backlog = if g <= 4 {
        2048
    } else if g <= 8 {
        4096
    } else {
        8192
    };
    let nf_conntrack_max = if proxy.transparent {
        let floor: u32 = if g >= 8 {
            262144
        } else {
            131072
        };
        Some(
            match conntrack_current {
                Some(c) => if c > floor {
                    c
                } else {
                    floor
                },
                None => floor,
            },
        )
    } else {
        None
    };
    AutoRecommendations {
        socket_buffer_floor: socket_buffer_floor_for_memory(memory),
        somaxconn,
        netdev_max_backlog,
        nf_conntrack_max,
        tcp_mtu_probing: 1,
        tcp_sack: 1,
        tcp_dsack: 1,
        tcp_no_metrics_save: 0,
        tcp_autocorking: 1,
    }
}

pub open spec fn config_line(key: Seq<char>, value: u32) -> Seq<char> {
    key + "="@ + decimal(value as nat) + "\n"@
}

/// `auto.conf`: one `key=value` line per recommendation, keys in byte
/// order, the connection table only when recommended.
pub open spec fn managed_config(r: AutoRecommendations) -> Seq<char> {
    config_line("netdev_max_backlog"@, r.netdev_max_backlog) + match r.nf_conntrack_max {
        Some(v) => config_line("nf_conntrack_max"@, v),
        None => seq![],
    } + config_line("somaxconn"@, r.somaxconn) + config_line("tcp_autocorking"@, r.tcp_autocorking)
        + config_line("tcp_dsack"@, r.tcp_dsack) + config_line(
        "tcp_mtu_probing"@,
        r.tcp_mtu_probing,
    ) + config_line("tcp_no_metrics_save"@, r.tcp_no_metrics_save) + config_line(
        "tcp_sack"@,
        r.tcp_sack,
    )
}

fn push_config_line(out: &mut String, key: &str, value: u32)
    ensures
        final(out)@ == old(out)@ + config_line(key@, value),
{
    push_str(out, key);
    push_str(out, "=");
    let v = u32_to_string(value);
    push_str(out, v.as_str());
    push_str(out, "\n");
    assert(out@ =~= old(out)@ + config_line(key@, value));
}

/// Renders the managed `auto.conf` of a profile.
pub fn render_managed_config(profile: &NetworkProfile) -> (r: String)
    ensures
        r@ == managed_config(profile.recommendations),
{
    let r = &profile.recommendations;
    let mut out = String::new();
    push_config_line(&mut out, "netdev_max_backlog", r.netdev_max_backlog);
    let ghost a = out@;
    match r.nf_conntrack_max {
        Some(v) => push_config_line(&mut out, "nf_conntrack_max", v),
        None => {
            assert(out@ =~= a + seq![]);
        },
    }
    push_config_line(&mut out, "somaxconn", r.somaxconn);
    push_config_line(&mut out, "tcp_autocorking", r.tcp_autocorking);
    push_config_line(&mut out, "tcp_dsack", r.tcp_dsack);
    push_config_line(&mut out, "tcp_mtu_probing", r.tcp_mtu_probing);
    push_config_line(&mut out, "tcp_no_metrics_save", r.tcp_no_metrics_save);
    push_config_line(&mut out, "tcp_sack", r.tcp_sack);
    assert(out@ =~= managed_config(profile.recommendations));
    out
}

/// A file of the module directory: its name, and whether it is a regular
/// file.
pub open spec fn entry_view(e: (String, bool)) -> (Seq<char>, bool) {
    (e.0@, e.1)
}

/// The selection marker `<prefix>_<algorithm>` is a file of the module
/// directory.
pub open spec fn marked_algorithm(entries: Seq<(String, bool)>, prefix: Seq<char>, algo: Seq<char>) -> bool {
    exists|j: int| 0 <= j < entries.len() && entries[j].0@ == prefix + "_"@ + algo && entries[j].1
}

/// The known algorithms in byte order.
pub open spec fn ordered_algorithms() -> Seq<Seq<char>> {
    seq!["bbr"@, "bbr3"@, "cubic"@, "reno"@, "vegas"@]
}

/// The first known algorithm, in byte order, from the `k`-th on, that is
/// marked for the prefix: the least of the marked ones.
pub open spec fn selected_from(entries: Seq<(String, bool)>, prefix: Seq<char>, k: int) -> Option<Seq<char>>
    decreases 5 - k,
{
    if k < 0 || k >= 5 {
        None
    } else if marked_algorithm(entries, prefix, ordered_algorithms()[k]) {
        Some(ordered_algorithms()[k])
    } else {
        selected_from(entries, prefix, k + 1)
    }
}

fn ordered_algorithm(k: usize) -> (r: &'static str)
    requires
        k < 5,
    ensures
        r@ == ordered_algorithms()[k as int],
{
    match k {
        0 => "bbr",
        1 => "bbr3",
        2 => "cubic",
        3 => "reno",
        _ => "vegas",
    }
}

fn is_marked(entries: &Vec<(String, bool)>, prefix: &str, algo: &str) -> (r: bool)
    ensures
        r == marked_algorithm(entries@, prefix@, algo@),
{
    let mut name = owned(prefix);
    push_str(&mut name, "_");
    push_str(&mut name, algo);
    let mut j: usize = 0;
    while j < entries.len()
        invariant
            name@ == prefix@ + "_"@ + algo@,
            j <= entries@.len(),
            forall|k: int| 0 <= k < j ==> !(entries@[k].0@ == name@ && entries@[k].1),
        decreases entries@.len() - j,
    {
        if entries[j].1 && crate::text::str_eq(entries[j].0.as_str(), name.as_str()) {
            return true;
        }
        j += 1;
    }
    false
}

/// The algorithm selected for a prefix by the marker files of the module
/// directory (name and regular-file flag of each entry): the least of the
/// known algorithms that have a marker.
pub fn selected_algorithm(prefix: &str, entries: &Vec<(String, bool)>) -> (r: Option<String>)
    ensures
        match selected_from(entries@, prefix@, 0) {
            Some(a) => r matches Some(s) && s@ == a,
            None => r is None,
        },
{
    let mut k: usize = 0;
    while k < 5
        invariant
            k <= 5,
            selected_from(entries@, prefix@, 0) == selected_from(entries@, prefix@, k as int),
        decreases 5 - k,
    {
        let algo = ordered_algorithm(k);
        if is_marked(entries, prefix, algo) {
            return Some(owned(algo));
        }
        k += 1;
    }
    None
}

/// The kernel release: the trimmed content of `osrelease` when it is not
/// empty, otherwise the trimmed output of `uname -r` when it ran.
pub open spec fn release_of(osrelease: Option<Seq<char>>, uname: Option<Seq<char>>) -> Option<Seq<char>> {
    match osrelease {
        Some(r) if trim(r).len() > 0 => Some(trim(r)),
        _ => match uname {
            Some(o) => Some(trim(o)),
            None => None,
        },
    }
}

pub open spec fn str_opt(o: Option<&str>) -> Option<Seq<char>> {
    match o {
        Some(s) => Some(s@),
        None => None,
    }
}

pub fn kernel_release(osrelease: Option<&str>, uname: Option<&str>) -> (r: Option<String>)
    ensures
        match release_of(str_opt(osrelease), str_opt(uname)) {
            Some(v) => r matches Some(s) && s@ == v,
            None => r is None,
        },
{
    match osrelease {
        Some(raw) => {
            let t = trim_str(raw);
            if t.len() > 0 {
                return Some(string_of(t.as_slice()));
            }
        },
        None => {},
    }
    match uname {
        Some(o) => {
            let t = trim_str(o);
            Some(string_of(t.as_slice()))
        },
        None => None,
    }
}

/// What a profile is built from.
#[derive(Debug, Clone)]
pub struct ProfileInputs {
    pub memory_kib: Option<u64>,
    pub proxy: ProxySnapshot,
    pub active_iface: Option<String>,
    pub iface_mtu: Option<u32>,
    pub available_algorithms: Vec<String>,
    pub auto_tuning_enabled: bool,
    pub kernel_release: Option<String>,
    pub kmi: Option<String>,
    pub arch: String,
    pub bundled_algorithms: Vec<String>,
    pub bundled_qdiscs: Vec<String>,
    pub wifi_algorithm: Option<String>,
    pub cellular_algorithm: Option<String>,
    pub manual_qdisc: bool,
    pub conntrack_max: Option<u32>,
}

/// Builds the profile of the device at the current time.
pub fn collect_profile(inp: ProfileInputs) -> (r: NetworkProfile)
    ensures
        r.schema == PROFILE_SCHEMA,
        r.auto_tuning_enabled == inp.auto_tuning_enabled,
        r.kernel_release@ == match inp.kernel_release {
            Some(k) => k@,
            None => "unknown"@,
        },
        r.kmi == inp.kmi,
        r.arch == inp.arch,
        r.memory_kib == inp.memory_kib,
        r.active_iface == inp.active_iface,
        r.iface_mode@ == match inp.active_iface {
            Some(i) => mode_of(i@).name(),
            None => IfaceMode::Unknown.name(),
        },
        r.iface_mtu == inp.iface_mtu,
        r.proxy == inp.proxy,
        r.available_algorithms == inp.available_algorithms,
        r.bundled_algorithms == inp.bundled_algorithms,
        r.bundled_qdiscs == inp.bundled_qdiscs,
        r.wifi_algorithm == inp.wifi_algorithm,
        r.cellular_algorithm == inp.cellular_algorithm,
        r.qdisc_policy@ == if inp.manual_qdisc {
            "manual"@
        } else {
            "per_algorithm"@
        },
        r.recommendations == recommended(inp.memory_kib, inp.proxy.transparent, inp.conntrack_max),
{
    let mode = match &inp.active_iface {
        Some(i) => iface_mode(i.as_str()),
        None => IfaceMode::Unknown,
    };
    let recommendations = recommendations(inp.memory_kib, &inp.proxy, inp.conntrack_max);
    let kernel_release = match inp.kernel_release {
        Some(k) => k,
        None => owned("unknown"),
    };
    let qdisc_policy = if inp.manual_qdisc {
        owned("manual")
    } else {
        owned("per_algorithm")
    };
    NetworkProfile {
        schema: PROFILE_SCHEMA,
        generated_epoch: now_epoch(),
        auto_tuning_enabled: inp.auto_tuning_enabled,
        kernel_release,
        kmi: inp.kmi,
        arch: inp.arch,
        memory_kib: inp.memory_kib,
        active_iface: inp.active_iface,
        iface_mode: owned(mode.as_str()),
        iface_mtu: inp.iface_mtu,
        proxy: inp.proxy,
        available_algorithms: inp.available_algorithms,
        bundled_algorithms: inp.bundled_algorithms,
        bundled_qdiscs: inp.bundled_qdiscs,
        wifi_algorithm: inp.wifi_algorithm,
        cellular_algorithm: inp.cellular_algorithm,
        qdisc_policy,
        recommendations,
    }
}

// ---------------------------------------------------------------------------
// Keeping the generation time of an unchanged profile
pub open spec fn opt_text(o: Option<String>) -> Option<Seq<char>> {
    match o {
        Some(t) => Some(t@),
        None => None,
    }
}

pub open spec fn proxy_view(p: ProxySnapshot) -> (Seq<char>, Seq<char>, Seq<char>, bool, bool, Option<Seq<char>>) {
    (p.family@, p.label@, p.mode@, p.transparent, p.tproxy, opt_text(p.virtual_iface))
}

/// Two profiles that differ at most in their generation time.
pub open spec fn same_except_epoch(a: NetworkProfile, b: NetworkProfile) -> bool {
    &&& a.schema == b.schema
    &&& a.auto_tuning_enabled == b.auto_tuning_enabled
    &&& a.kernel_release@ == b.kernel_release@
    &&& opt_text(a.kmi) == opt_text(b.kmi)
    &&& a.arch@ == b.arch@
    &&& a.memory_kib == b.memory_kib
    &&& opt_text(a.active_iface) == opt_text(b.active_iface)
    &&& a.iface_mode@ == b.iface_mode@
    &&& a.iface_mtu == b.iface_mtu
    &&& proxy_view(a.proxy) == proxy_view(b.proxy)
    &&& string_views(a.available_algorithms@) == string_views(b.available_algorithms@)
    &&& string_views(a.bundled_algorithms@) == string_views(b.bundled_algorithms@)
    &&& string_views(a.bundled_qdiscs@) == string_views(b.bundled_qdiscs@)
    &&& opt_text(a.wifi_algorithm) == opt_text(b.wifi_algorithm)
    &&& opt_text(a.cellular_algorithm) == opt_text(b.cellular_algorithm)
    &&& a.qdisc_policy@ == b.qdisc_policy@
    &&& a.recommendations == b.recommendations
}

fn opt_text_eq(a: &Option<String>, b: &Option<String>) -> (r: bool)
    ensures
        r == (opt_text(*a) == opt_text(*b)),
{
    match (a, b) {
        (Some(x), Some(y)) => str_eq(x.as_str(), y.as_str()),
        (None, None) => true,
        _ => false,
    }
}

fn texts_eq(a: &Vec<String>, b: &Vec<String>) -> (r: bool)
    ensures
        r == (string_views(a@) == string_views(b@)),
{
    if a.len() != b.len() {
        proof {
            assert(string_views(a@).len() != string_views(b@).len());
        }
        return false;
    }
    let mut i: usize = 0;
    while i < a.len()
        invariant
            a@.len() == b@.len(),
            i <= a@.len(),
            forall|j: int| 0 <= j < i ==> string_views(a@)[j] == string_views(b@)[j],
        decreases a@.len() - i,
    {
        if !str_eq(a[i].as_str(), b[i].as_str()) {
            assert(string_views(a@)[i as int] != string_views(b@)[i as int]);
            return false;
        }
        i += 1;
    }
    assert(string_views(a@) =~= string_views(b@));
    true
}

fn recommendations_eq(a: &AutoRecommendations, b: &AutoRecommendations) -> (r: bool)
    ensures
        r == (*a == *b),
{
    a.socket_buffer_floor == b.socket_buffer_floor && a.somaxconn == b.somaxconn
        && a.netdev_max_backlog == b.netdev_max_backlog && a.nf_conntrack_max == b.nf_conntrack_max
        && a.tcp_mtu_probing == b.tcp_mtu_probing && a.tcp_sack == b.tcp_sack && a.tcp_dsack
        == b.tcp_dsack && a.tcp_no_metrics_save == b.tcp_no_metrics_save && a.tcp_autocorking
        == b.tcp_autocorking
}

pub fn same_profile_except_epoch(a: &NetworkProfile, b: &NetworkProfile) -> (r: bool)
    ensures
        r == same_except_epoch(*a, *b),
{
    a.schema == b.schema && a.auto_tuning_enabled == b.auto_tuning_enabled && str_eq(
        a.kernel_release.as_str(),
        b.kernel_release.as_str(),
    ) && opt_text_eq(&a.kmi, &b.kmi) && str_eq(a.arch.as_str(), b.arch.as_str())
        && a.memory_kib == b.memory_kib && opt_text_eq(&a.active_iface, &b.active_iface) && str_eq(
        a.iface_mode.as_str(),
        b.iface_mode.as_str(),
    ) && a.iface_mtu == b.iface_mtu && str_eq(a.proxy.family.as_str(), b.proxy.family.as_str())
        && str_eq(a.proxy.label.as_str(), b.proxy.label.as_str()) && str_eq(
        a.proxy.mode.as_str(),
        b.proxy.mode.as_str(),
    ) && a.proxy.transparent == b.proxy.transparent && a.proxy.tproxy == b.proxy.tproxy
        && opt_text_eq(&a.proxy.virtual_iface, &b.proxy.virtual_iface) && texts_eq(
        &a.available_algorithms,
        &b.available_algorithms,
    ) && texts_eq(&a.bundled_algorithms, &b.bundled_algorithms) && texts_eq(
        &a.bundled_qdiscs,
        &b.bundled_qdiscs,
    ) && opt_text_eq(&a.wifi_algorithm, &b.wifi_algorithm) && opt_text_eq(
        &a.cellular_algorithm,
        &b.cellular_algorithm,
    ) && str_eq(a.qdisc_policy.as_str(), b.qdisc_policy.as_str()) && recommendations_eq(
        &a.recommendations,
        &b.recommendations,
    )
}

/// A freshly collected profile keeps the generation time of the stored one
/// when nothing else differs, so that an unchanged profile is not
/// rewritten.
pub fn settle_epoch(profile: NetworkProfile, previous: Option<&NetworkProfile>) -> (r: NetworkProfile)
    ensures
        r == (NetworkProfile {
            generated_epoch: match previous {
                Some(p) => if same_except_epoch(profile, *p) {
                    p.generated_epoch
                } else {
                    profile.generated_epoch
                },
                None => profile.generated_epoch,
            },
            ..profile
        }),
{
    let mut profile = profile;
    match previous {
        Some(p) => {
            if same_profile_except_epoch(&profile, p) {
                profile.generated_epoch = p.generated_epoch;
            }
        },
        None => {},
    }
    profile
}

/// The value of the `--auto` switch: `on`, `true` or `1` enable automatic
/// tuning, `off`, `false` or `0` disable it; anything else is refused.
pub fn auto_switch(value: &str) -> (r: Option<bool>)
    ensures
        r == (if value@ == "on"@ || value@ == "true"@ || value@ == "1"@ {
            Some(true)
        } else if value@ == "off"@ || value@ == "false"@ || value@ == "0"@ {
            Some(false)
        } else {
            None::<bool>
        }),
{
    if str_eq(value, "on") || str_eq(value, "true") || str_eq(value, "1") {
        Some(true)
    } else if str_eq(value, "off") || str_eq(value, "false") || str_eq(value, "0") {
        Some(false)
    } else {
        None
    }
}

/// Memory in KiB, 0 when unknown.
pub open spec fn known_kib(memory: Option<u64>) -> int {
    match memory {
        Some(m) => m as int,
        None => 0,
    }
}

/// The recommendations grow with memory (thresholds of 5, 8, 9 and 12 GiB,
/// in KiB), and a connection-table size is recommended exactly behind a
/// transparent proxy: at least 256 Ki entries with 8 GiB or more, 128 Ki
/// below, never below the kernel's current size, and no larger than the
/// greater of the two.
pub proof fn lemma_recommendations_follow_memory_and_proxy(
    memory: Option<u64>,
    transparent: bool,
    conntrack_current: Option<u32>,
)
    ensures
        recommended(memory, transparent, conntrack_current).nf_conntrack_max is Some <==> transparent,
        transparent && known_kib(memory) >= 8 * 1048576 ==> recommended(
            memory,
            transparent,
            conntrack_current,
        ).nf_conntrack_max->0 >= 262144,
        transparent && known_kib(memory) < 8 * 1048576 ==> recommended(
            memory,
            transparent,
            conntrack_current,
        ).nf_conntrack_max->0 >= 131072,
        transparent && conntrack_current is Some ==> recommended(
            memory,
            transparent,
            conntrack_current,
        ).nf_conntrack_max->0 >= conntrack_current->0,
        transparent ==> (recommended(memory, transparent, conntrack_current).nf_conntrack_max
            == Some(if known_kib(memory) >= 8 * 1048576 {
            262144u32
        } else {
            131072u32
        }) || conntrack_current == recommended(memory, transparent, conntrack_current).nf_conntrack_max),
        known_kib(memory) < 5 * 1048576 ==> recommended(memory, transparent, conntrack_current).somaxconn
            == 1024 && recommended(memory, transparent, conntrack_current).netdev_max_backlog == 2048,
        5 * 1048576 <= known_kib(memory) < 9 * 1048576 ==> recommended(
            memory,
            transparent,
            conntrack_current,
        ).somaxconn == 2048 && recommended(memory, transparent, conntrack_current).netdev_max_backlog
            == 4096,
        known_kib(memory) >= 9 * 1048576 ==> recommended(memory, transparent, conntrack_current).somaxconn
            == 4096 && recommended(memory, transparent, conntrack_current).netdev_max_backlog == 8192,
        known_kib(memory) < 8 * 1048576 ==> recommended(
            memory,
            transparent,
            conntrack_current,
        ).socket_buffer_floor == 16 * 1048576,
        8 * 1048576 <= known_kib(memory) < 12 * 1048576 ==> recommended(
            memory,
            transparent,
            conntrack_current,
        ).socket_buffer_floor == 24 * 1048576,
        known_kib(memory) >= 12 * 1048576 ==> recommended(
            memory,
            transparent,
            conntrack_current,
        ).socket_buffer_floor == 32 * 1048576,
{
    let k = known_kib(memory);
    let g = memory_gib(memory);
    assert(g == k / 1048576);
    assert(k >= 8 * 1048576 <==> g >= 8) by (nonlinear_arith)
        requires
            g == k / 1048576,
            k >= 0,
    ;
    assert(k >= 5 * 1048576 <==> g >= 5) by (nonlinear_arith)
        requires
            g == k / 1048576,
            k >= 0,
    ;
    assert(k >= 9 * 1048576 <==> g >= 9) by (nonlinear_arith)
        requires
            g == k / 1048576,
            k >= 0,
    ;
    assert(k >= 12 * 1048576 <==> g >= 12) by (nonlinear_arith)
        requires
            g == k / 1048576,
            k >= 0,
    ;
}

proof fn lemma_selected_from_marked(entries: Seq<(String, bool)>, prefix: Seq<char>, k: int)
    requires
        0 <= k <= 5,
    ensures
        selected_from(entries, prefix, k) matches Some(a) ==> marked_algorithm(entries, prefix, a)
            && crate::config::known_algorithm(a),
        selected_from(entries, prefix, k) is None ==> forall|j: int|
            k <= j < 5 ==> !marked_algorithm(entries, prefix, #[trigger] ordered_algorithms()[j]),
    decreases 5 - k,
{
    if k < 5 {
        lemma_selected_from_marked(entries, prefix, k + 1);
    }
}

/// The algorithm selected by the marker files is a known algorithm whose
/// marker exists; none is selected only when no known algorithm has a
/// marker.
pub proof fn lemma_marker_selection_is_marked(entries: Seq<(String, bool)>, prefix: Seq<char>)
    ensures
        selected_from(entries, prefix, 0) matches Some(a) ==> marked_algorithm(entries, prefix, a)
            && crate::config::known_algorithm(a),
        selected_from(entries, prefix, 0) is None ==> forall|a: Seq<char>|
            crate::config::known_algorithm(a) ==> !marked_algorithm(entries, prefix, a),
{
    lemma_selected_from_marked(entries, prefix, 0);
    let o = ordered_algorithms();
    assert(o[0] == "bbr"@ && o[1] == "bbr3"@ && o[2] == "cubic"@ && o[3] == "reno"@ && o[4]
        == "vegas"@);
    if selected_from(entries, prefix, 0) is None {
        assert forall|a: Seq<char>| crate::config::known_algorithm(a) implies !marked_algorithm(
            entries,
            prefix,
            a,
        ) by {
            if a == "bbr"@ {
                assert(!marked_algorithm(entries, prefix, o[0]));
            } else if a == "bbr3"@ {
                assert(!marked_algorithm(entries, prefix, o[1]));
            } else if a == "cubic"@ {
                assert(!marked_algorithm(entries, prefix, o[2]));
            } else if a == "reno"@ {
                assert(!marked_algorithm(entries, prefix, o[3]));
            } else {
                assert(!marked_algorithm(entries, prefix, o[4]));
            }
        }
    }
}

} // verus!


