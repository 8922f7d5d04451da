//! Policy resolution of the daemon: which algorithm, queue discipline and
//! pacing ratios an interface gets, and the timing rules of the daemon loop.
use vstd::prelude::*;

use crate::config::{algo_entry, get_algo_config, is_known_algorithm, known_algorithm, known_qdisc};
use crate::network::IfaceMode;
use crate::text::{
    chars_eq_str, chars_of, chars_starts_with, lines, owned, parse_u32, parse_u32_chars,
    push_chars, push_str, seq_has, split_lines, starts_with, str_eq, string_of, string_views,
    trim, trim_chars, views,
};

verus! {

pub const DEBOUNCE_TIME: u64 = 10;

pub const VOWIFI_CONNECT_TIME: u64 = 10;

pub const VOWIFI_PROBE_INTERVAL: u64 = 5;

pub const ADAPTIVE_FAST_CYCLES: u32 = 3;

pub const SLEEP_FAST: u64 = 2;

pub const SLEEP_NORMAL: u64 = 30;

pub const QDISC_CHECK_WIFI: u64 = 60;

pub const QDISC_CHECK_CELLULAR: u64 = 120;

pub const ADAPTIVE_STATE_PERSIST: u64 = 30;

/// The policy resolved for an interface.
#[derive(Debug, Clone, PartialEq, Eq)]
pub struct ResolvedPolicy {
    pub algorithm: String,
    pub qdisc: String,
    pub pacing_ca: u32,
    pub pacing_ss: u32,
    pub wifi_frequency_mhz: Option<u32>,
}

/// Pacing ratios adjusted to the Wi-Fi band: three quarters on 2.4 GHz,
/// five quarters on 6 GHz, unchanged otherwise.
pub open spec fn pacing_for_band(base_ca: u32, base_ss: u32, wifi_frequency_mhz: Option<u32>) -> (
    u32,
    u32,
) {
    match wifi_frequency_mhz {
        Some(f) => if f < 3000 {
            ((base_ca * 3 / 4) as u32, (base_ss * 3 / 4) as u32)
        } else if f >= 6000 {
            ((base_ca * 5 / 4) as u32, (base_ss * 5 / 4) as u32)
        } else {
            (base_ca, base_ss)
        },
        None => (base_ca, base_ss),
    }
}

/// Ratios whose adjustment for the band does not overflow: only the 2.4 GHz
/// and 6 GHz bands multiply.
pub open spec fn pacing_in_range(base_ca: u32, base_ss: u32, wifi_frequency_mhz: Option<u32>) -> bool {
    match wifi_frequency_mhz {
        Some(f) => if f < 3000 {
            base_ca * 3 <= u32::MAX && base_ss * 3 <= u32::MAX
        } else if f >= 6000 {
            base_ca * 5 <= u32::MAX && base_ss * 5 <= u32::MAX
        } else {
            true
        },
        None => true,
    }
}

pub fn adjusted_pacing(base_ca: u32, base_ss: u32, wifi_frequency_mhz: Option<u32>) -> (r: (
    u32,
    u32,
))
    requires
        pacing_in_range(base_ca, base_ss, wifi_frequency_mhz),
    ensures
        r == pacing_for_band(base_ca, base_ss, wifi_frequency_mhz),
{
    match wifi_frequency_mhz {
        Some(frequency) => if frequency < 3000 {
            (base_ca * 3 / 4, base_ss * 3 / 4)
        } else if frequency >= 6000 {
            (base_ca * 5 / 4, base_ss * 5 / 4)
        } else {
            (base_ca, base_ss)
        },
        None => (base_ca, base_ss),
    }
}

/// Seconds between qdisc reconciliations for a mode.
pub fn qdisc_check_interval(mode: IfaceMode) -> (r: u64)
    ensures
        r == (if mode == IfaceMode::WiFi {
            QDISC_CHECK_WIFI
        } else {
            QDISC_CHECK_CELLULAR
        }),
{
    match mode {
        IfaceMode::WiFi => QDISC_CHECK_WIFI,
        IfaceMode::Cellular => QDISC_CHECK_CELLULAR,
        IfaceMode::Unknown => QDISC_CHECK_CELLULAR,
    }
}

/// Probe VoWiFi registration at most every five seconds.
pub fn should_probe_vowifi(last_probe_elapsed_secs: Option<u64>) -> (r: bool)
    ensures
        r == match last_probe_elapsed_secs {
            Some(e) => e >= VOWIFI_PROBE_INTERVAL,
            None => true,
        },
{
    match last_probe_elapsed_secs {
        Some(elapsed) => elapsed >= VOWIFI_PROBE_INTERVAL,
        None => true,
    }
}

/// Apply Wi-Fi settings once: when VoWiFi is registered or after ten
/// seconds on the network.
pub fn should_apply_wifi(already_applied: bool, vowifi_active: bool, elapsed_secs: u64) -> (r: bool)
    ensures
        r == (!already_applied && (vowifi_active || elapsed_secs >= VOWIFI_CONNECT_TIME)),
{
    !already_applied && (vowifi_active || elapsed_secs >= VOWIFI_CONNECT_TIME)
}

/// The algorithm used when the configured one cannot be loaded: CUBIC when
/// the kernel has it, else the first known algorithm it has.
pub open spec fn fallback_algorithm(available: Seq<Seq<char>>) -> Option<Seq<char>> {
    if seq_has(available, "cubic"@) {
        Some("cubic"@)
    } else if exists|i: int| 0 <= i < available.len() && known_algorithm(available[i]) {
        Some(available[first_known(available)])
    } else {
        None
    }
}

/// Index of the first known algorithm of a list.
pub open spec fn first_known(available: Seq<Seq<char>>) -> int {
    choose|i: int|
        0 <= i < available.len() && known_algorithm(available[i]) && forall|j: int|
            0 <= j < i ==> !known_algorithm(available[j])
}

fn find_known(available: &Vec<String>) -> (r: Option<usize>)
    ensures
        r is None <==> !(exists|i: int|
            0 <= i < available@.len() && known_algorithm(string_views(available@)[i])),
        r matches Some(i) ==> i < available@.len() && i == first_known(string_views(available@)),
{
    let ghost a = string_views(available@);
    let mut i: usize = 0;
    while i < available.len()
        invariant
            i <= available@.len(),
            a == string_views(available@),
            forall|j: int| 0 <= j < i ==> !known_algorithm(a[j]),
        decreases available@.len() - i,
    {
        if is_known_algorithm(available[i].as_str()) {
            proof {
                let k = i as int;
                assert(known_algorithm(a[k]));
                let f = first_known(a);
                assert(0 <= f < a.len() && known_algorithm(a[f]) && forall|j: int|
                    0 <= j < f ==> !known_algorithm(a[j]));
                if f < k {
                    assert(!known_algorithm(a[f]));
                }
                if k < f {
                    assert(!known_algorithm(a[k]));
                }
            }
            return Some(i);
        }
        i += 1;
    }
    None
}

pub(crate) fn position_of(list: &Vec<String>, name: &str) -> (r: bool)
    ensures
        r == seq_has(string_views(list@), name@),
{
    let mut i: usize = 0;
    while i < list.len()
        invariant
            i <= list@.len(),
            forall|j: int| 0 <= j < i ==> string_views(list@)[j] != name@,
        decreases list@.len() - i,
    {
        if str_eq(list[i].as_str(), name) {
            assert(string_views(list@)[i as int] == name@);
            return true;
        }
        i += 1;
    }
    false
}

pub fn runtime_fallback_algorithm(available: &Vec<String>) -> (r: Option<String>)
    ensures
        r matches Some(a) ==> fallback_algorithm(string_views(available@)) == Some(a@),
        r is None ==> fallback_algorithm(string_views(available@)) is None,
{
    if position_of(available, "cubic") {
        return Some(owned("cubic"));
    }
    match find_known(available) {
        Some(i) => Some(available[i].clone()),
        None => None,
    }
}

/// The algorithm selected for a mode: the first algorithm of the table that
/// the kernel offers and whose selection marker exists, else the fallback,
/// else CUBIC.
pub open spec fn selected_algorithm(marked: Seq<Seq<char>>, available: Seq<Seq<char>>) -> Seq<char> {
    if seq_has(available, "bbr"@) && seq_has(marked, "bbr"@) {
        "bbr"@
    } else if seq_has(available, "bbr3"@) && seq_has(marked, "bbr3"@) {
        "bbr3"@
    } else if seq_has(available, "cubic"@) && seq_has(marked, "cubic"@) {
        "cubic"@
    } else if seq_has(available, "reno"@) && seq_has(marked, "reno"@) {
        "reno"@
    } else if seq_has(available, "vegas"@) && seq_has(marked, "vegas"@) {
        "vegas"@
    } else {
        match fallback_algorithm(available) {
            Some(a) => a,
            None => "cubic"@,
        }
    }
}

/// Selects the algorithm of a mode; `marked` lists the algorithms whose
/// `<prefix>_<algorithm>` marker file exists.
pub fn select_algorithm(marked: &Vec<String>, available: &Vec<String>) -> (r: String)
    ensures
        r@ == selected_algorithm(string_views(marked@), string_views(available@)),
{
    if position_of(available, "bbr") && position_of(marked, "bbr") {
        return owned("bbr");
    }
    if position_of(available, "bbr3") && position_of(marked, "bbr3") {
        return owned("bbr3");
    }
    if position_of(available, "cubic") && position_of(marked, "cubic") {
        return owned("cubic");
    }
    if position_of(available, "reno") && position_of(marked, "reno") {
        return owned("reno");
    }
    if position_of(available, "vegas") && position_of(marked, "vegas") {
        return owned("vegas");
    }
    match runtime_fallback_algorithm(available) {
        Some(a) => a,
        None => owned("cubic"),
    }
}

/// The queue discipline used instead of `requested`: the first of fq_codel,
/// fq, codel and pfifo_fast that differs from it and is not marked
/// unavailable.
pub open spec fn fallback_qdisc(requested: Seq<char>, unavailable: Seq<Seq<char>>) -> Option<
    Seq<char>,
> {
    if "fq_codel"@ != requested && !seq_has(unavailable, "fq_codel"@) {
        Some("fq_codel"@)
    } else if "fq"@ != requested && !seq_has(unavailable, "fq"@) {
        Some("fq"@)
    } else if "codel"@ != requested && !seq_has(unavailable, "codel"@) {
        Some("codel"@)
    } else if "pfifo_fast"@ != requested && !seq_has(unavailable, "pfifo_fast"@) {
        Some("pfifo_fast"@)
    } else {
        None
    }
}

pub fn runtime_fallback_qdisc(requested: &str, unavailable: &Vec<String>) -> (r: Option<String>)
    ensures
        r matches Some(q) ==> fallback_qdisc(requested@, string_views(unavailable@)) == Some(q@),
        r is None ==> fallback_qdisc(requested@, string_views(unavailable@)) is None,
{
    if !str_eq("fq_codel", requested) && !position_of(unavailable, "fq_codel") {
        Some(owned("fq_codel"))
    } else if !str_eq("fq", requested) && !position_of(unavailable, "fq") {
        Some(owned("fq"))
    } else if !str_eq("codel", requested) && !position_of(unavailable, "codel") {
        Some(owned("codel"))
    } else if !str_eq("pfifo_fast", requested) && !position_of(unavailable, "pfifo_fast") {
        Some(owned("pfifo_fast"))
    } else {
        None
    }
}

/// The requested queue discipline, or its fallback (fq_codel at last) when
/// it is marked unavailable.
pub open spec fn runtime_qdisc_spec(requested: Seq<char>, unavailable: Seq<Seq<char>>) -> Seq<char> {
    if !seq_has(unavailable, requested) {
        requested
    } else {
        match fallback_qdisc(requested, unavailable) {
            Some(q) => q,
            None => "fq_codel"@,
        }
    }
}

pub fn runtime_qdisc(requested: &str, unavailable: &Vec<String>) -> (r: String)
    ensures
        r@ == runtime_qdisc_spec(requested@, string_views(unavailable@)),
{
    if !position_of(unavailable, requested) {
        return owned(requested);
    }
    match runtime_fallback_qdisc(requested, unavailable) {
        Some(q) => q,
        None => owned("fq_codel"),
    }
}

/// The queue discipline named by the module's `qdisc` file, when it is one
/// of the known ones.
pub open spec fn qdisc_override_spec(content: Option<Seq<char>>) -> Option<Seq<char>> {
    match content {
        Some(c) => if known_qdisc(trim(c)) {
            Some(trim(c))
        } else {
            None
        },
        None => None,
    }
}

pub fn qdisc_override(content: Option<&str>) -> (r: Option<String>)
    ensures
        r matches Some(q) ==> qdisc_override_spec(
            match content {
                Some(c) => Some(c@),
                None => None,
            },
        ) == Some(q@),
        r is None ==> qdisc_override_spec(
            match content {
                Some(c) => Some(c@),
                None => None,
            },
        ) is None,
{
    match content {
        Some(c) => {
            let v = chars_of(c);
            let t = trim_chars(v.as_slice());
            let s = string_of(t.as_slice());
            if crate::config::is_known_qdisc(s.as_str()) {
                Some(s)
            } else {
                None
            }
        },
        None => None,
    }
}

/// A pacing override: a trimmed number within 1..=1000.
pub open spec fn pacing_value(content: Option<Seq<char>>) -> Option<u32> {
    match content {
        Some(c) => match parse_u32(trim(c)) {
            Some(v) => if 1 <= v <= 1000 {
                Some(v)
            } else {
                None
            },
            None => None,
        },
        None => None,
    }
}

pub open spec fn opt_view(o: Option<&str>) -> Option<Seq<char>> {
    match o {
        Some(c) => Some(c@),
        None => None,
    }
}

fn pacing_value_exec(content: Option<&str>) -> (r: Option<u32>)
    ensures
        r == pacing_value(opt_view(content)),
{
    match content {
        Some(c) => {
            let v = chars_of(c);
            let t = trim_chars(v.as_slice());
            match parse_u32_chars(t.as_slice()) {
                Some(x) => if 1 <= x && x <= 1000 {
                    Some(x)
                } else {
                    None
                },
                None => None,
            }
        },
        None => None,
    }
}

/// Both pacing overrides, when both files hold valid values.
pub open spec fn pacing_override_spec(ca: Option<Seq<char>>, ss: Option<Seq<char>>) -> Option<
    (u32, u32),
> {
    match (pacing_value(ca), pacing_value(ss)) {
        (Some(a), Some(b)) => Some((a, b)),
        _ => None,
    }
}

pub fn pacing_override(ca: Option<&str>, ss: Option<&str>) -> (r: Option<(u32, u32)>)
    ensures
        r == pacing_override_spec(opt_view(ca), opt_view(ss)),
{
    let a = match pacing_value_exec(ca) {
        Some(a) => a,
        None => return None,
    };
    let b = match pacing_value_exec(ss) {
        Some(b) => b,
        None => return None,
    };
    Some((a, b))
}

/// What policy resolution reads from the module directory and the kernel.
#[derive(Debug, Clone)]
pub struct PolicyInputs {
    /// Algorithms the kernel offers, with the loadable bundled ones.
    pub available: Vec<String>,
    /// Algorithms whose selection marker exists for the mode's prefix.
    pub marked: Vec<String>,
    /// Content of the `pacing_ca` file, when readable.
    pub pacing_ca: Option<String>,
    /// Content of the `pacing_ss` file, when readable.
    pub pacing_ss: Option<String>,
    /// Content of the `qdisc` file, when readable.
    pub qdisc: Option<String>,
    /// Wi-Fi frequency of the interface, when known.
    pub wifi_frequency_mhz: Option<u32>,
    /// Queue disciplines marked unavailable.
    pub unavailable_qdiscs: Vec<String>,
}

pub open spec fn string_opt(o: Option<String>) -> Option<Seq<char>> {
    match o {
        Some(s) => Some(s@),
        None => None,
    }
}

/// The resolved policy of a mode: the selected algorithm; its pacing, or
/// the override, adjusted to the Wi-Fi band; its queue discipline, or the
/// override, replaced when marked unavailable.
pub open spec fn resolved(mode: IfaceMode, inp: PolicyInputs, p: ResolvedPolicy) -> bool {
    let algorithm = selected_algorithm(string_views(inp.marked@), string_views(inp.available@));
    let entry = algo_entry(algorithm);
    let base = match pacing_override_spec(string_opt(inp.pacing_ca), string_opt(inp.pacing_ss)) {
        Some(o) => o,
        None => (entry.1, entry.2),
    };
    let frequency = if mode == IfaceMode::WiFi {
        inp.wifi_frequency_mhz
    } else {
        None
    };
    let requested = match qdisc_override_spec(string_opt(inp.qdisc)) {
        Some(q) => q,
        None => entry.0,
    };
    &&& p.algorithm@ == algorithm
    &&& p.wifi_frequency_mhz == frequency
    &&& (p.pacing_ca, p.pacing_ss) == pacing_for_band(base.0, base.1, frequency)
    &&& p.qdisc@ == runtime_qdisc_spec(requested, string_views(inp.unavailable_qdiscs@))
}

fn opt_str(o: &Option<String>) -> (r: Option<&str>)
    ensures
        opt_view(r) == string_opt(*o),
{
    match o {
        Some(s) => Some(s.as_str()),
        None => None,
    }
}

/// Resolves the policy of an interface of the given mode.
pub fn resolve_policy(mode: IfaceMode, inp: &PolicyInputs) -> (r: ResolvedPolicy)
    ensures
        resolved(mode, *inp, r),
{
    let algorithm = select_algorithm(&inp.marked, &inp.available);
    let cfg = get_algo_config(algorithm.as_str());
    proof {
        crate::config::lemma_table_is_consistent(algorithm@);
    }
    let (base_ca, base_ss) = match pacing_override(opt_str(&inp.pacing_ca), opt_str(&inp.pacing_ss)) {
        Some(o) => o,
        None => (cfg.pacing_ca, cfg.pacing_ss),
    };
    proof {
        reveal_strlit("bbr");
        reveal_strlit("bbr3");
        reveal_strlit("cubic");
        reveal_strlit("reno");
    }
    assert(base_ca <= 1000 && base_ss <= 1000);
    let frequency = if mode == IfaceMode::WiFi {
        inp.wifi_frequency_mhz
    } else {
        None
    };
    let (pacing_ca, pacing_ss) = adjusted_pacing(base_ca, base_ss, frequency);
    let requested = match qdisc_override(opt_str(&inp.qdisc)) {
        Some(q) => q,
        None => owned(cfg.qdisc),
    };
    let qdisc = runtime_qdisc(requested.as_str(), &inp.unavailable_qdiscs);
    ResolvedPolicy { algorithm, qdisc, pacing_ca, pacing_ss, wifi_frequency_mhz: frequency }
}

// ---------------------------------------------------------------------------
// module.prop description
/// The description shown while a policy is applied on an interface.
pub open spec fn active_description(mode: IfaceMode, algo: Seq<char>) -> Seq<char> {
    "TCP Optimisations & dynamic congestion control | iface: "@ + mode.name() + " "@
        + mode.icon_of() + " | algo: "@ + algo
}

pub fn module_description(mode: IfaceMode, algo: &str) -> (r: String)
    ensures
        r@ == active_description(mode, algo@),
{
    let mut out = owned("TCP Optimisations & dynamic congestion control | iface: ");
    push_str(&mut out, mode.as_str());
    push_str(&mut out, " ");
    push_str(&mut out, mode.icon());
    push_str(&mut out, " | algo: ");
    push_str(&mut out, algo);
    out
}

/// A line of `module.prop` with its description replaced.
pub open spec fn described_line(line: Seq<char>, desc: Seq<char>) -> Seq<char> {
    if starts_with(line, "description="@) {
        "description="@ + desc
    } else {
        line
    }
}

/// Lines `ls[a..]` with the description replaced, each followed by a line
/// break.
pub open spec fn described_from(ls: Seq<Seq<char>>, desc: Seq<char>, a: int) -> Seq<char>
    decreases ls.len() - a,
{
    if a < 0 || a >= ls.len() {
        seq![]
    } else {
        described_line(ls[a], desc) + "\n"@ + described_from(ls, desc, a + 1)
    }
}

/// `module.prop` with every `description=` line set to `desc`: its lines
/// joined by line breaks, and one line break at the end.
pub open spec fn with_description(content: Seq<char>, desc: Seq<char>) -> Seq<char> {
    let ls = lines(content);
    if ls.len() == 0 {
        "\n"@
    } else {
        described_from(ls, desc, 0)
    }
}

pub fn set_description(content: &str, desc: &str) -> (r: String)
    ensures
        r@ == with_description(content@, desc@),
{
    let cs = chars_of(content);
    let ls = split_lines(cs.as_slice());
    let ghost lv = views(ls@);
    if ls.len() == 0 {
        return owned("\n");
    }
    let mut out = String::new();
    let mut i: usize = 0;
    assert(out@ + described_from(lv, desc@, 0) =~= described_from(lv, desc@, 0));
    while i < ls.len()
        invariant
            lv == views(ls@),
            i <= ls@.len(),
            described_from(lv, desc@, 0) == out@ + described_from(lv, desc@, i as int),
        decreases ls@.len() - i,
    {
        assert(lv[i as int] == ls@[i as int]@);
        let ghost before = out@;
        if chars_starts_with(ls[i].as_slice(), "description=") {
            push_str(&mut out, "description=");
            push_str(&mut out, desc);
        } else {
            push_chars(&mut out, ls[i].as_slice());
        }
        push_str(&mut out, "\n");
        assert(described_from(lv, desc@, i as int) == described_line(lv[i as int], desc@) + "\n"@
            + described_from(lv, desc@, i + 1));
        assert(before + described_from(lv, desc@, i as int) =~= out@ + described_from(
            lv,
            desc@,
            i + 1,
        ));
        i += 1;
    }
    assert(described_from(lv, desc@, ls@.len() as int) =~= seq![]);
    assert(out@ + seq![] =~= out@);
    out
}

/// The algorithms of the table, in the order a marker is looked for.
pub open spec fn selection_order() -> Seq<Seq<char>> {
    seq!["bbr"@, "bbr3"@, "cubic"@, "reno"@, "vegas"@]
}

/// The `k`-th algorithm of the table is offered by the kernel and marked.
pub open spec fn offered_and_marked(marked: Seq<Seq<char>>, available: Seq<Seq<char>>, k: int) -> bool {
    seq_has(available, selection_order()[k]) && seq_has(marked, selection_order()[k])
}

/// Selection honours the markers: the first algorithm of the table that
/// the kernel offers and that is marked is the one selected, so an
/// unmarked algorithm is never chosen while a marked one is offered; with
/// no such algorithm, CUBIC is selected when offered, else the first known
/// algorithm the kernel offers, else CUBIC.
pub proof fn lemma_selection_honours_markers(marked: Seq<Seq<char>>, available: Seq<Seq<char>>, k: int)
    requires
        0 <= k < selection_order().len(),
        offered_and_marked(marked, available, k),
        forall|j: int| 0 <= j < k ==> !offered_and_marked(marked, available, j),
    ensures
        selected_algorithm(marked, available) == selection_order()[k],
        seq_has(marked, selected_algorithm(marked, available)),
        seq_has(available, selected_algorithm(marked, available)),
{
    let o = selection_order();
    assert(o[0] == "bbr"@ && o[1] == "bbr3"@ && o[2] == "cubic"@ && o[3] == "reno"@ && o[4]
        == "vegas"@);
    if k > 0 {
        assert(!offered_and_marked(marked, available, 0));
    }
    if k > 1 {
        assert(!offered_and_marked(marked, available, 1));
    }
    if k > 2 {
        assert(!offered_and_marked(marked, available, 2));
    }
    if k > 3 {
        assert(!offered_and_marked(marked, available, 3));
    }
}

/// With no offered algorithm marked, the selection is the fallback: CUBIC
/// when the kernel offers it, else the first known algorithm it offers,
/// else CUBIC.
pub proof fn lemma_selection_without_marker(marked: Seq<Seq<char>>, available: Seq<Seq<char>>)
    requires
        forall|j: int| 0 <= j < selection_order().len() ==> !offered_and_marked(marked, available, j),
    ensures
        seq_has(available, "cubic"@) ==> selected_algorithm(marked, available) == "cubic"@,
        !seq_has(available, "cubic"@) && (exists|i: int|
            0 <= i < available.len() && known_algorithm(available[i])) ==> (exists|i: int|
            0 <= i < available.len() && known_algorithm(available[i]) && (forall|j: int|
                0 <= j < i ==> !known_algorithm(available[j])) && selected_algorithm(marked, available)
                == available[i]),
        !(exists|i: int| 0 <= i < available.len() && known_algorithm(available[i]))
            ==> selected_algorithm(marked, available) == "cubic"@,
{
    let o = selection_order();
    assert(o[0] == "bbr"@ && o[1] == "bbr3"@ && o[2] == "cubic"@ && o[3] == "reno"@ && o[4]
        == "vegas"@);
    assert(!offered_and_marked(marked, available, 0));
    assert(!offered_and_marked(marked, available, 1));
    assert(!offered_and_marked(marked, available, 2));
    assert(!offered_and_marked(marked, available, 3));
    assert(!offered_and_marked(marked, available, 4));
    if !seq_has(available, "cubic"@) && (exists|i: int|
        0 <= i < available.len() && known_algorithm(available[i])) {
        let i = choose|i: int| 0 <= i < available.len() && known_algorithm(available[i]);
        lemma_first_known_exists(available, i);
        let f = first_known(available);
        assert(0 <= f < available.len() && known_algorithm(available[f]) && forall|j: int|
            0 <= j < f ==> !known_algorithm(available[j]));
    }
}

proof fn lemma_first_known_exists(available: Seq<Seq<char>>, i: int)
    requires
        0 <= i < available.len(),
        known_algorithm(available[i]),
    ensures
        exists|f: int|
            0 <= f < available.len() && known_algorithm(available[f]) && forall|j: int|
                0 <= j < f ==> !known_algorithm(available[j]),
    decreases i,
{
    if exists|j: int| 0 <= j < i && known_algorithm(available[j]) {
        let j = choose|j: int| 0 <= j < i && known_algorithm(available[j]);
        lemma_first_known_exists(available, j);
    } else {
        assert(forall|j: int| 0 <= j < i ==> !known_algorithm(available[j]));
    }
}

/// The queue disciplines tried, in order, when one cannot be used.
pub open spec fn qdisc_fallback_order() -> Seq<Seq<char>> {
    seq!["fq_codel"@, "fq"@, "codel"@, "pfifo_fast"@]
}

/// A fallback queue discipline differs from the requested one, is not
/// marked unavailable, and is the first such one of the fallback order;
/// there is none only when every one of them is the requested one or
/// unavailable.
pub proof fn lemma_qdisc_fallback_is_first_usable(requested: Seq<char>, unavailable: Seq<Seq<char>>)
    ensures
        fallback_qdisc(requested, unavailable) matches Some(q) ==> exists|k: int|
            0 <= k < 4 && q == qdisc_fallback_order()[k] && q != requested && !seq_has(unavailable, q)
                && forall|j: int|
                0 <= j < k ==> (qdisc_fallback_order()[j] == requested || seq_has(
                    unavailable,
                    #[trigger] qdisc_fallback_order()[j],
                )),
        fallback_qdisc(requested, unavailable) is None ==> forall|j: int|
            0 <= j < 4 ==> (qdisc_fallback_order()[j] == requested || seq_has(
                unavailable,
                #[trigger] qdisc_fallback_order()[j],
            )),
{
    let o = qdisc_fallback_order();
    assert(o[0] == "fq_codel"@ && o[1] == "fq"@ && o[2] == "codel"@ && o[3] == "pfifo_fast"@);
    match fallback_qdisc(requested, unavailable) {
        Some(q) => {
            if q == "fq_codel"@ {
                assert(q == o[0]);
            } else if q == "fq"@ {
                assert(q == o[1]);
            } else if q == "codel"@ {
                assert(q == o[2]);
            } else {
                assert(q == o[3]);
            }
        },
        None => {},
    }
}

/// The queue discipline applied is the requested one unless it is marked
/// unavailable; a replacement is never marked unavailable unless every
/// fallback is, and it is then fq_codel.
pub proof fn lemma_runtime_qdisc_keeps_usable_request(requested: Seq<char>, unavailable: Seq<Seq<char>>)
    ensures
        !seq_has(unavailable, requested) ==> runtime_qdisc_spec(requested, unavailable) == requested,
        seq_has(unavailable, requested) ==> runtime_qdisc_spec(requested, unavailable) != requested
            || requested == "fq_codel"@,
        seq_has(unavailable, requested) && fallback_qdisc(requested, unavailable) is Some ==> !seq_has(
            unavailable,
            runtime_qdisc_spec(requested, unavailable),
        ),
{
    lemma_qdisc_fallback_is_first_usable(requested, unavailable);
}

/// On 2.4 GHz Wi-Fi (below 3000 MHz) the pacing ratios are three quarters
/// of the base, rounded down; on 6 GHz (from 6000 MHz) five quarters,
/// rounded down; otherwise, and off Wi-Fi, they are the base.
pub proof fn lemma_pacing_scales_with_band(base_ca: u32, base_ss: u32, wifi_frequency_mhz: Option<u32>)
    requires
        pacing_in_range(base_ca, base_ss, wifi_frequency_mhz),
    ensures
        wifi_frequency_mhz matches Some(f) && f < 3000 ==> {
            let r = pacing_for_band(base_ca, base_ss, wifi_frequency_mhz);
            4 * r.0 <= 3 * base_ca < 4 * r.0 + 4 && 4 * r.1 <= 3 * base_ss < 4 * r.1 + 4
        },
        wifi_frequency_mhz matches Some(f) && f >= 6000 ==> {
            let r = pacing_for_band(base_ca, base_ss, wifi_frequency_mhz);
            4 * r.0 <= 5 * base_ca < 4 * r.0 + 4 && 4 * r.1 <= 5 * base_ss < 4 * r.1 + 4
        },
        (wifi_frequency_mhz is None || (wifi_frequency_mhz matches Some(f) && 3000 <= f < 6000))
            ==> pacing_for_band(base_ca, base_ss, wifi_frequency_mhz) == (base_ca, base_ss),
{
}

} // verus!
