//! Recognition of proxy applications, hosts-file blocking and Wi-Fi calling
//! from process lists, the hosts file and `dumpsys` output.
use vstd::prelude::*;

use vstd::utf8::{decode_utf8, valid_utf8};

use crate::integrity::utf8_text;
use crate::text::{
    fields, split_char, string_of,
    bytes_at_least, byte_len, chars_contains_str, chars_eq_str, chars_of, chars_starts_with,
    contains_seq, decimal, find_chars, find_from, lines, owned, push_str, slice_of, split_lines,
    starts_with, trim, trim_chars, trim_start, trim_start_chars, u32_to_string, views,
};

verus! {

/// Proxy family detected.
#[derive(Debug, Clone, Copy, PartialEq, Eq, Structural)]
pub enum ProxyType {
    NotDetected,
    Mihomo,
    Clash,
    Surfing,
    V2Ray,
    SingBox,
    Shadowsocks,
    Other,
    Multiple,
    Unknown,
}

impl ProxyType {
    pub open spec fn label_of(self) -> Seq<char> {
        match self {
            ProxyType::NotDetected => "\u{2014}"@,
            ProxyType::Mihomo => "Mihomo"@,
            ProxyType::Clash => "Clash"@,
            ProxyType::Surfing => "Surfing"@,
            ProxyType::V2Ray => "V2Ray / Xray"@,
            ProxyType::SingBox => "sing-box"@,
            ProxyType::Shadowsocks => "Shadowsocks"@,
            ProxyType::Other => "Detected"@,
            ProxyType::Multiple => "Multiple"@,
            ProxyType::Unknown => "..."@,
        }
    }

    pub fn label(&self) -> (r: &'static str)
        ensures
            r@ == self.label_of(),
    {
        match self {
            ProxyType::NotDetected => "\u{2014}",
            ProxyType::Mihomo => "Mihomo",
            ProxyType::Clash => "Clash",
            ProxyType::Surfing => "Surfing",
            ProxyType::V2Ray => "V2Ray / Xray",
            ProxyType::SingBox => "sing-box",
            ProxyType::Shadowsocks => "Shadowsocks",
            ProxyType::Other => "Detected",
            ProxyType::Multiple => "Multiple",
            ProxyType::Unknown => "...",
        }
    }
}

/// The proxy in use: its family and label, how it routes traffic, and the
/// virtual interface it owns.
#[derive(Debug, Clone, PartialEq, Eq)]
pub struct ProxySnapshot {
    pub family: String,
    pub label: String,
    pub mode: String,
    pub transparent: bool,
    pub tproxy: bool,
    pub virtual_iface: Option<String>,
}

/// The Unicode lowercase of a text.
pub uninterp spec fn unicode_lowercase(s: Seq<char>) -> Seq<char>;

/// `str::to_lowercase`: the full Unicode lowercase mapping, named rather
/// than stated.
#[verifier::external_body]
fn to_lowercase(s: &str) -> (r: String)
    ensures
        r@ == unicode_lowercase(s@),
{
    s.to_lowercase()
}

/// Which of the seven proxy families a lowercased process list mentions.
pub open spec fn family_hits(t: Seq<char>) -> Seq<bool> {
    seq![
        contains_seq(t, "mihomo"@),
        contains_seq(t, "clash"@),
        contains_seq(t, "surfing"@),
        contains_seq(t, "v2ray"@) || contains_seq(t, "xray"@),
        contains_seq(t, "sing-box"@),
        contains_seq(t, "ss-local"@) || contains_seq(t, "ss-redir"@) || contains_seq(
            t,
            "shadowsocks"@,
        ),
        contains_seq(t, "nekobox"@) || contains_seq(t, "nekoray"@) || contains_seq(t, "hiddify"@)
            || contains_seq(t, "trojan"@) || contains_seq(t, "naive"@) || contains_seq(
            t,
            "hysteria"@,
        ) || contains_seq(t, "tuic"@),
    ]
}

/// The family of the `k`-th entry of the table.
pub open spec fn family(k: int) -> ProxyType {
    if k == 0 {
        ProxyType::Mihomo
    } else if k == 1 {
        ProxyType::Clash
    } else if k == 2 {
        ProxyType::Surfing
    } else if k == 3 {
        ProxyType::V2Ray
    } else if k == 4 {
        ProxyType::SingBox
    } else if k == 5 {
        ProxyType::Shadowsocks
    } else {
        ProxyType::Other
    }
}

pub open spec fn count_true(h: Seq<bool>) -> nat
    decreases h.len(),
{
    if h.len() == 0 {
        0
    } else {
        count_true(h.drop_last()) + if h.last() {
            1nat
        } else {
            0nat
        }
    }
}

/// Position of the last set flag (the only one, when one is set).
pub open spec fn last_true(h: Seq<bool>) -> int
    decreases h.len(),
{
    if h.len() == 0 {
        -1
    } else if h.last() {
        h.len() - 1
    } else {
        last_true(h.drop_last())
    }
}

/// No family is none, several are `Multiple`, one is that family.
pub open spec fn proxy_from_lowered(t: Seq<char>) -> ProxyType {
    let h = family_hits(t);
    if count_true(h) == 0 {
        ProxyType::NotDetected
    } else if count_true(h) > 1 {
        ProxyType::Multiple
    } else {
        family(last_true(h))
    }
}

fn family_hit(t: &[char], k: usize) -> (r: bool)
    requires
        k < 7,
    ensures
        r == family_hits(t@)[k as int],
{
    match k {
        0 => chars_contains_str(t, "mihomo"),
        1 => chars_contains_str(t, "clash"),
        2 => chars_contains_str(t, "surfing"),
        3 => chars_contains_str(t, "v2ray") || chars_contains_str(t, "xray"),
        4 => chars_contains_str(t, "sing-box"),
        5 => chars_contains_str(t, "ss-local") || chars_contains_str(t, "ss-redir")
            || chars_contains_str(t, "shadowsocks"),
        _ => chars_contains_str(t, "nekobox") || chars_contains_str(t, "nekoray")
            || chars_contains_str(t, "hiddify") || chars_contains_str(t, "trojan")
            || chars_contains_str(t, "naive") || chars_contains_str(t, "hysteria")
            || chars_contains_str(t, "tuic"),
    }
}

fn family_exec(k: usize) -> (r: ProxyType)
    ensures
        r == family(k as int),
{
    match k {
        0 => ProxyType::Mihomo,
        1 => ProxyType::Clash,
        2 => ProxyType::Surfing,
        3 => ProxyType::V2Ray,
        4 => ProxyType::SingBox,
        5 => ProxyType::Shadowsocks,
        _ => ProxyType::Other,
    }
}

/// The proxy family named by an already lowercased process list.
pub fn classify_processes(lowered: &str) -> (r: ProxyType)
    ensures
        r == proxy_from_lowered(lowered@),
{
    let t = chars_of(lowered);
    let ghost h = family_hits(lowered@);
    let mut count: usize = 0;
    let mut last: usize = 0;
    let mut k: usize = 0;
    assert(h.subrange(0, 0) =~= seq![]);
    while k < 7
        invariant
            h == family_hits(t@),
            h.len() == 7,
            k <= 7,
            count == count_true(h.subrange(0, k as int)),
            count <= k,
            count > 0 ==> last == last_true(h.subrange(0, k as int)),
            count == 0 ==> last_true(h.subrange(0, k as int)) == -1,
        decreases 7 - k,
    {
        let ghost pre = h.subrange(0, k + 1);
        assert(pre.drop_last() =~= h.subrange(0, k as int));
        if family_hit(t.as_slice(), k) {
            count += 1;
            last = k;
        }
        k += 1;
    }
    assert(h.subrange(0, 7) =~= h);
    if count == 0 {
        ProxyType::NotDetected
    } else if count > 1 {
        ProxyType::Multiple
    } else {
        family_exec(last)
    }
}

/// The proxy family named by a process list, matched case-insensitively.
pub fn detect_proxy_from_text(process_text: &str) -> (r: ProxyType)
    ensures
        r == proxy_from_lowered(unicode_lowercase(process_text@)),
{
    let lowered = to_lowercase(process_text);
    classify_processes(lowered.as_str())
}

/// The proxy families and the process-name keywords that reveal each.
pub open spec fn proxy_keywords() -> Seq<(ProxyType, Seq<Seq<char>>)> {
    seq![
        (ProxyType::Mihomo, seq!["mihomo"@]),
        (ProxyType::Clash, seq!["clash"@]),
        (ProxyType::Surfing, seq!["surfing"@]),
        (ProxyType::V2Ray, seq!["v2ray"@, "xray"@]),
        (ProxyType::SingBox, seq!["sing-box"@]),
        (ProxyType::Shadowsocks, seq!["ss-local"@, "ss-redir"@, "shadowsocks"@]),
        (
            ProxyType::Other,
            seq!["nekobox"@, "nekoray"@, "hiddify"@, "trojan"@, "naive"@, "hysteria"@, "tuic"@],
        ),
    ]
}

/// The text contains one of the keywords of the `k`-th family.
pub open spec fn mentions_family(t: Seq<char>, k: int) -> bool {
    exists|i: int|
        0 <= i < proxy_keywords()[k].1.len() && contains_seq(t, #[trigger] proxy_keywords()[k].1[i])
}

proof fn lemma_hit_is_mention(t: Seq<char>, k: int)
    requires
        0 <= k < 7,
    ensures
        family_hits(t)[k] == mentions_family(t, k),
{
    let ks = proxy_keywords()[k].1;
    if k == 0 {
        assert(ks == seq!["mihomo"@]);
        assert(ks[0] == "mihomo"@);
        if contains_seq(t, "mihomo"@) {
            assert(contains_seq(t, ks[0]));
        }
    } else if k == 1 {
        assert(ks == seq!["clash"@]);
        assert(ks[0] == "clash"@);
        if contains_seq(t, "clash"@) {
            assert(contains_seq(t, ks[0]));
        }
    } else if k == 2 {
        assert(ks == seq!["surfing"@]);
        assert(ks[0] == "surfing"@);
        if contains_seq(t, "surfing"@) {
            assert(contains_seq(t, ks[0]));
        }
    } else if k == 3 {
        assert(ks == seq!["v2ray"@, "xray"@]);
        assert(ks[0] == "v2ray"@);
        if contains_seq(t, "v2ray"@) {
            assert(contains_seq(t, ks[0]));
        }
        assert(ks[1] == "xray"@);
        if contains_seq(t, "xray"@) {
            assert(contains_seq(t, ks[1]));
        }
    } else if k == 4 {
        assert(ks == seq!["sing-box"@]);
        assert(ks[0] == "sing-box"@);
        if contains_seq(t, "sing-box"@) {
            assert(contains_seq(t, ks[0]));
        }
    } else if k == 5 {
        assert(ks == seq!["ss-local"@, "ss-redir"@, "shadowsocks"@]);
        assert(ks[0] == "ss-local"@);
        if contains_seq(t, "ss-local"@) {
            assert(contains_seq(t, ks[0]));
        }
        assert(ks[1] == "ss-redir"@);
        if contains_seq(t, "ss-redir"@) {
            assert(contains_seq(t, ks[1]));
        }
        assert(ks[2] == "shadowsocks"@);
        if contains_seq(t, "shadowsocks"@) {
            assert(contains_seq(t, ks[2]));
        }
    } else if k == 6 {
        assert(ks == seq!["nekobox"@, "nekoray"@, "hiddify"@, "trojan"@, "naive"@, "hysteria"@, "tuic"@]);
        assert(ks[0] == "nekobox"@);
        if contains_seq(t, "nekobox"@) {
            assert(contains_seq(t, ks[0]));
        }
        assert(ks[1] == "nekoray"@);
        if contains_seq(t, "nekoray"@) {
            assert(contains_seq(t, ks[1]));
        }
        assert(ks[2] == "hiddify"@);
        if contains_seq(t, "hiddify"@) {
            assert(contains_seq(t, ks[2]));
        }
        assert(ks[3] == "trojan"@);
        if contains_seq(t, "trojan"@) {
            assert(contains_seq(t, ks[3]));
        }
        assert(ks[4] == "naive"@);
        if contains_seq(t, "naive"@) {
            assert(contains_seq(t, ks[4]));
        }
        assert(ks[5] == "hysteria"@);
        if contains_seq(t, "hysteria"@) {
            assert(contains_seq(t, ks[5]));
        }
        assert(ks[6] == "tuic"@);
        if contains_seq(t, "tuic"@) {
            assert(contains_seq(t, ks[6]));
        }
    }
    if mentions_family(t, k) {
        let i = choose|i: int| 0 <= i < ks.len() && contains_seq(t, #[trigger] ks[i]);
        assert(0 <= i < ks.len() && contains_seq(t, ks[i]));
    }
}

/// A lowercased process list is classified by the families whose keywords
/// it contains: none gives `NotDetected`, two or more give `Multiple`, and
/// exactly one gives that family.
pub proof fn lemma_processes_name_their_family(t: Seq<char>)
    ensures
        (forall|k: int| 0 <= k < 7 ==> !mentions_family(t, k)) ==> proxy_from_lowered(t)
            == ProxyType::NotDetected,
        forall|j: int, k: int|
            0 <= j < k < 7 && mentions_family(t, j) && mentions_family(t, k) ==> proxy_from_lowered(t)
                == ProxyType::Multiple,
        forall|k: int|
            0 <= k < 7 && mentions_family(t, k) && (forall|j: int|
                0 <= j < 7 && j != k ==> !mentions_family(t, j)) ==> proxy_from_lowered(t)
                == proxy_keywords()[k].0,
{
    let h = family_hits(t);
    lemma_hit_is_mention(t, 0);
    lemma_hit_is_mention(t, 1);
    lemma_hit_is_mention(t, 2);
    lemma_hit_is_mention(t, 3);
    lemma_hit_is_mention(t, 4);
    lemma_hit_is_mention(t, 5);
    lemma_hit_is_mention(t, 6);
    reveal_with_fuel(count_true, 8);
    reveal_with_fuel(last_true, 8);
    assert(h.len() == 7);
    assert(h.drop_last().drop_last().drop_last().drop_last().drop_last().drop_last().drop_last()
        =~= seq![]);
}

/// Hosts modification status.
#[derive(Debug, Clone, Copy, PartialEq, Eq, Structural)]
pub enum HostsStatus {
    Unmodified,
    Systemless,
    BirdHost,
    AdAway,
    Blocker,
    Blocked(u32),
    Modified,
    Unknown,
}

impl HostsStatus {
    pub open spec fn label_of(self) -> Seq<char> {
        match self {
            HostsStatus::Unmodified => "\u{2014}"@,
            HostsStatus::Systemless => "Systemless"@,
            HostsStatus::BirdHost => "BirdHost"@,
            HostsStatus::AdAway => "AdAway"@,
            HostsStatus::Blocker => "Blocker App"@,
            HostsStatus::Blocked(n) => decimal(n as nat) + " blocked"@,
            HostsStatus::Modified => "Modified"@,
            HostsStatus::Unknown => "\u{2014}"@,
        }
    }

    pub fn label(&self) -> (r: String)
        ensures
            r@ == self.label_of(),
    {
        match self {
            HostsStatus::Unmodified => owned("\u{2014}"),
            HostsStatus::Systemless => owned("Systemless"),
            HostsStatus::BirdHost => owned("BirdHost"),
            HostsStatus::AdAway => owned("AdAway"),
            HostsStatus::Blocker => owned("Blocker App"),
            HostsStatus::Blocked(n) => {
                let mut s = u32_to_string(*n);
                push_str(&mut s, " blocked");
                s
            },
            HostsStatus::Modified => owned("Modified"),
            HostsStatus::Unknown => owned("\u{2014}"),
        }
    }
}

/// A hosts line that blocks a name: after trimming it starts with
/// `0.0.0.0 ` or `127.0.0.1 `.
pub open spec fn blocking_line(l: Seq<char>) -> bool {
    starts_with(trim(l), "0.0.0.0 "@) || starts_with(trim(l), "127.0.0.1 "@)
}

pub open spec fn count_blocking(ls: Seq<Seq<char>>) -> nat
    decreases ls.len(),
{
    if ls.len() == 0 {
        0
    } else {
        count_blocking(ls.drop_last()) + if blocking_line(ls.last()) {
            1nat
        } else {
            0nat
        }
    }
}

/// What the hosts file shows: untouched when it is small (under 200 bytes)
/// with at most three blocking lines, a block list when more than five
/// lines block, otherwise modified.
pub open spec fn hosts_file_status(content: Seq<char>) -> HostsStatus {
    let blocked = count_blocking(lines(content)) as u32;
    if byte_len(content) < 200 && blocked <= 3 {
        HostsStatus::Unmodified
    } else if blocked > 5 {
        HostsStatus::Blocked(blocked)
    } else {
        HostsStatus::Modified
    }
}

/// A lowercased process list names an ad blocker.
pub open spec fn names_blocker(t: Seq<char>) -> bool {
    contains_seq(t, "blokada"@) || contains_seq(t, "dns66"@) || contains_seq(t, "netguard"@)
        || contains_seq(t, "block this"@) || contains_seq(t, "rethink"@) || contains_seq(
        t,
        "personaldns"@,
    )
}

/// The hosts status from the process list (when `ps` succeeded), whether a
/// systemless hosts module is installed, and the hosts file (when it could
/// be read); running blockers come first, then the module, then the file.
pub open spec fn hosts_outcome(procs: Option<Seq<char>>, systemless: bool, hosts: Option<Seq<char>>) -> HostsStatus {
    let from_procs = match procs {
        Some(p) => {
            let t = unicode_lowercase(p);
            if contains_seq(t, "birdhost"@) {
                Some(HostsStatus::BirdHost)
            } else if contains_seq(t, "adaway"@) {
                Some(HostsStatus::AdAway)
            } else if names_blocker(t) {
                Some(HostsStatus::Blocker)
            } else {
                None
            }
        },
        None => None,
    };
    match from_procs {
        Some(s) => s,
        None => if systemless {
            HostsStatus::Systemless
        } else {
            match hosts {
                None => HostsStatus::Unknown,
                Some(c) => hosts_file_status(c),
            }
        },
    }
}

proof fn lemma_count_blocking_filter(ls: Seq<Seq<char>>)
    ensures
        count_blocking(ls) == ls.filter(|l: Seq<char>| blocking_line(l)).len(),
    decreases ls.len(),
{
    if ls.len() > 0 {
        lemma_count_blocking_filter(ls.drop_last());
        ls.drop_last().lemma_filter_push(ls.last(), |l: Seq<char>| blocking_line(l));
        assert(ls.drop_last().push(ls.last()) =~= ls);
    }
}

/// The hosts file is judged by its blocking lines (`0.0.0.0 ` or
/// `127.0.0.1 ` after trimming): more than five make it a block list that
/// reports their number; a file under 200 bytes with at most three is
/// untouched; anything else is modified.
pub proof fn lemma_hosts_file_judged_by_blocking_lines(content: Seq<char>)
    requires
        lines(content).filter(|l: Seq<char>| blocking_line(l)).len() <= u32::MAX,
    ensures
        ({
            let n = lines(content).filter(|l: Seq<char>| blocking_line(l)).len();
            &&& n > 5 ==> hosts_file_status(content) == HostsStatus::Blocked(n as u32)
            &&& n <= 3 && byte_len(content) < 200 ==> hosts_file_status(content)
                == HostsStatus::Unmodified
            &&& n <= 5 && !(n <= 3 && byte_len(content) < 200) ==> hosts_file_status(content)
                == HostsStatus::Modified
        }),
{
    lemma_count_blocking_filter(lines(content));
}

/// Running blockers decide first (BirdHost, then AdAway, then another
/// known blocker), then an installed systemless hosts module, then the
/// hosts file; with none of them readable the status is unknown.
pub proof fn lemma_hosts_evidence_order(procs: Option<Seq<char>>, systemless: bool, hosts: Option<Seq<char>>)
    ensures
        procs matches Some(p) && contains_seq(unicode_lowercase(p), "birdhost"@) ==> hosts_outcome(
            procs,
            systemless,
            hosts,
        ) == HostsStatus::BirdHost,
        procs matches Some(p) && !contains_seq(unicode_lowercase(p), "birdhost"@) && contains_seq(
            unicode_lowercase(p),
            "adaway"@,
        ) ==> hosts_outcome(procs, systemless, hosts) == HostsStatus::AdAway,
        (procs is None || (procs matches Some(p) && !contains_seq(unicode_lowercase(p), "birdhost"@)
            && !contains_seq(unicode_lowercase(p), "adaway"@) && !names_blocker(unicode_lowercase(p))))
            ==> (systemless ==> hosts_outcome(procs, systemless, hosts) == HostsStatus::Systemless)
            && (!systemless && hosts is None ==> hosts_outcome(procs, systemless, hosts)
            == HostsStatus::Unknown) && (!systemless && hosts is Some ==> hosts_outcome(
            procs,
            systemless,
            hosts,
        ) == hosts_file_status(hosts->0)),
{
}

pub open spec fn str_opt(o: Option<&str>) -> Option<Seq<char>> {
    match o {
        Some(s) => Some(s@),
        None => None,
    }
}

fn count_blocking_exec(ls: &Vec<Vec<char>>) -> (r: usize)
    ensures
        r == count_blocking(views(ls@)),
{
    let ghost lv = views(ls@);
    let mut n: usize = 0;
    let mut i: usize = 0;
    assert(lv.subrange(0, 0) =~= seq![]);
    while i < ls.len()
        invariant
            lv == views(ls@),
            i <= ls@.len(),
            n == count_blocking(lv.subrange(0, i as int)),
            n <= i,
        decreases ls@.len() - i,
    {
        let ghost pre = lv.subrange(0, i + 1);
        assert(pre.drop_last() =~= lv.subrange(0, i as int));
        assert(pre.last() == ls@[i as int]@);
        let t = trim_chars(ls[i].as_slice());
        if chars_starts_with(t.as_slice(), "0.0.0.0 ") || chars_starts_with(
            t.as_slice(),
            "127.0.0.1 ",
        ) {
            n += 1;
        }
        i += 1;
    }
    assert(lv.subrange(0, lv.len() as int) =~= lv);
    n
}

/// Classifies the hosts file.
pub fn hosts_file_state(content: &str) -> (r: HostsStatus)
    ensures
        r == hosts_file_status(content@),
{
    let cs = chars_of(content);
    let ls = split_lines(cs.as_slice());
    let blocked = count_blocking_exec(&ls) as u32;
    let large = bytes_at_least(cs.as_slice(), 200);
    if !large && blocked <= 3 {
        HostsStatus::Unmodified
    } else if blocked > 5 {
        HostsStatus::Blocked(blocked)
    } else {
        HostsStatus::Modified
    }
}

/// Detects hosts-file blocking from the process list, the systemless hosts
/// module and the hosts file.
pub fn detect_hosts(procs: Option<&str>, systemless: bool, hosts: Option<&str>) -> (r: HostsStatus)
    ensures
        r == hosts_outcome(str_opt(procs), systemless, str_opt(hosts)),
{
    match procs {
        Some(p) => {
            let lowered = to_lowercase(p);
            let t = chars_of(lowered.as_str());
            if chars_contains_str(t.as_slice(), "birdhost") {
                return HostsStatus::BirdHost;
            }
            if chars_contains_str(t.as_slice(), "adaway") {
                return HostsStatus::AdAway;
            }
            if chars_contains_str(t.as_slice(), "blokada") || chars_contains_str(
                t.as_slice(),
                "dns66",
            ) || chars_contains_str(t.as_slice(), "netguard") || chars_contains_str(
                t.as_slice(),
                "block this",
            ) || chars_contains_str(t.as_slice(), "rethink") || chars_contains_str(
                t.as_slice(),
                "personaldns",
            ) {
                return HostsStatus::Blocker;
            }
        },
        None => {},
    }
    if systemless {
        return HostsStatus::Systemless;
    }
    match hosts {
        None => HostsStatus::Unknown,
        Some(c) => hosts_file_state(c),
    }
}

// ---------------------------------------------------------------------------
// Wi-Fi calling
pub open spec fn is_ascii_alpha(c: char) -> bool {
    ('a' as u32 <= c as u32 <= 'z' as u32) || ('A' as u32 <= c as u32 <= 'Z' as u32)
}

/// Length of the leading run of ASCII letters.
pub open spec fn alpha_run(s: Seq<char>, i: int) -> int
    decreases s.len() - i,
{
    if i < 0 || i >= s.len() || !is_ascii_alpha(s[i]) {
        i
    } else {
        alpha_run(s, i + 1)
    }
}

/// The value of the `mImsRegistered` field of a line: after the first
/// occurrence of the name, optional white space, `=` or `:`, optional white
/// space, and the word `true` or `false` (up to the first character that is
/// not an ASCII letter).
pub open spec fn ims_registration(line: Seq<char>) -> Option<bool> {
    match find_from(line, "mImsRegistered"@, 0) {
        None => None,
        Some(i) => {
            let v1 = trim_start(line.subrange(i + 14, line.len() as int));
            if v1.len() > 0 && (v1[0] == '=' || v1[0] == ':') {
                let v2 = trim_start(v1.drop_first());
                let word = v2.subrange(0, alpha_run(v2, 0));
                if word == "true"@ {
                    Some(true)
                } else if word == "false"@ {
                    Some(false)
                } else {
                    None
                }
            } else {
                None
            }
        },
    }
}

fn alpha_run_exec(s: &[char]) -> (r: usize)
    ensures
        r == alpha_run(s@, 0),
        r <= s@.len(),
{
    let mut i: usize = 0;
    loop
        invariant
            i <= s@.len(),
            alpha_run(s@, 0) == alpha_run(s@, i as int),
        decreases s@.len() - i,
    {
        if i >= s.len() {
            return i;
        }
        let u = s[i] as u32;
        if !((97 <= u && u <= 122) || (65 <= u && u <= 90)) {
            return i;
        }
        i += 1;
    }
}

/// Reads the IMS registration flag of a `telephony.registry` line.
pub fn parse_ims_registration(line: &str) -> (r: Option<bool>)
    ensures
        r == ims_registration(line@),
{
    let l = chars_of(line);
    let marker = chars_of("mImsRegistered");
    proof {
        reveal_strlit("mImsRegistered");
    }
    let i = match find_chars(l.as_slice(), marker.as_slice()) {
        Some(i) => i,
        None => return None,
    };
    let start: usize = l.len() - (l.len() - i - 14);
    let rest = slice_of(l.as_slice(), start, l.len());
    let v1 = trim_start_chars(rest.as_slice());
    if v1.len() == 0 || (v1[0] != '=' && v1[0] != ':') {
        return None;
    }
    let after = slice_of(v1.as_slice(), 1, v1.len());
    assert(after@ =~= v1@.drop_first());
    let v2 = trim_start_chars(after.as_slice());
    let end = alpha_run_exec(v2.as_slice());
    let word = slice_of(v2.as_slice(), 0, end);
    if chars_eq_str(word.as_slice(), "true") {
        Some(true)
    } else if chars_eq_str(word.as_slice(), "false") {
        Some(false)
    } else {
        None
    }
}

/// Some line of the registry reports this registration flag.
pub open spec fn reports(ls: Seq<Seq<char>>, v: bool) -> bool {
    exists|i: int| 0 <= i < ls.len() && ims_registration(ls[i]) == Some(v)
}

/// Wi-Fi calling from `telephony.registry`: registered when some line says
/// so, unregistered when lines report only `false`, and undecided (`None`)
/// when no line reports the flag.
pub open spec fn registry_outcome(text: Seq<char>) -> Option<bool> {
    let ls = lines(text);
    if reports(ls, true) {
        Some(true)
    } else if reports(ls, false) {
        Some(false)
    } else {
        None
    }
}

/// The IMS registration state that `telephony.registry` output reports.
pub fn ims_registration_state(text: &str) -> (r: Option<bool>)
    ensures
        r == registry_outcome(text@),
{
    let cs = chars_of(text);
    let ls = split_lines(cs.as_slice());
    let ghost lv = views(ls@);
    let mut found = false;
    let mut i: usize = 0;
    while i < ls.len()
        invariant
            lv == views(ls@),
            lv == lines(text@),
            i <= ls@.len(),
            forall|j: int| 0 <= j < i ==> ims_registration(lv[j]) != Some(true),
            found <==> exists|j: int| 0 <= j < i && ims_registration(lv[j]) == Some(false),
        decreases ls@.len() - i,
    {
        assert(lv[i as int] == ls@[i as int]@);
        let line = crate::text::string_of(ls[i].as_slice());
        match parse_ims_registration(line.as_str()) {
            Some(true) => {
                return Some(true);
            },
            Some(false) => {
                found = true;
            },
            None => {},
        }
        i += 1;
    }
    if found {
        Some(false)
    } else {
        None
    }
}

/// A line of the status bar service shows a visible Wi-Fi calling slot.
pub open spec fn vowifi_line(l: Seq<char>) -> bool {
    contains_seq(l, "slot='vowifi'"@) && contains_seq(l, "visible user="@)
}

/// Whether the `SystemUIService` dump shows a visible Wi-Fi calling icon.
pub fn systemui_has_vowifi(output: &str) -> (r: bool)
    ensures
        r == exists|i: int| 0 <= i < lines(output@).len() && vowifi_line(lines(output@)[i]),
{
    let cs = chars_of(output);
    let ls = split_lines(cs.as_slice());
    let ghost lv = views(ls@);
    let mut i: usize = 0;
    while i < ls.len()
        invariant
            lv == views(ls@),
            lv == lines(output@),
            i <= ls@.len(),
            forall|j: int| 0 <= j < i ==> !vowifi_line(lv[j]),
        decreases ls@.len() - i,
    {
        assert(lv[i as int] == ls@[i as int]@);
        if chars_contains_str(ls[i].as_slice(), "slot='vowifi'") && chars_contains_str(
            ls[i].as_slice(),
            "visible user=",
        ) {
            return true;
        }
        i += 1;
    }
    false
}

// ---------------------------------------------------------------------------
// Process names
/// A path component that names something: not empty and not `.`.
pub open spec fn named_component(p: Seq<char>) -> bool {
    p.len() > 0 && p != "."@
}

/// The last named component among `/`-separated pieces.
pub open spec fn last_named(parts: Seq<Seq<char>>) -> Option<Seq<char>>
    decreases parts.len(),
{
    if parts.len() == 0 {
        None
    } else if named_component(parts.last()) {
        Some(parts.last())
    } else {
        last_named(parts.drop_last())
    }
}

/// `Path::file_name` on Unix: the last component once empty pieces and `.`
/// are dropped; none when no component is left or the last one is `..`.
pub open spec fn file_name(path: Seq<char>) -> Option<Seq<char>> {
    match last_named(fields(path, '/')) {
        Some(p) => if p == ".."@ {
            None
        } else {
            Some(p)
        },
        None => None,
    }
}

/// The final component of a path, as `Path::file_name` gives it.
pub fn path_file_name(path: &str) -> (r: Option<String>)
    ensures
        match r {
            Some(s) => file_name(path@) == Some(s@),
            None => file_name(path@) is None,
        },
{
    let v = chars_of(path);
    let parts = split_char(v.as_slice(), '/');
    let ghost all = views(parts@);
    let mut i: usize = parts.len();
    assert(all.subrange(0, i as int) =~= all);
    while i > 0
        invariant
            i <= parts@.len(),
            all == views(parts@),
            all == fields(path@, '/'),
            last_named(all) == last_named(all.subrange(0, i as int)),
        decreases i,
    {
        let p = &parts[i - 1];
        let ghost head = all.subrange(0, i as int);
        assert(head.last() == p@);
        if p.len() > 0 && !chars_eq_str(p.as_slice(), ".") {
            if chars_eq_str(p.as_slice(), "..") {
                return None;
            }
            return Some(string_of(p.as_slice()));
        }
        assert(head.drop_last() =~= all.subrange(0, i - 1));
        i -= 1;
    }
    None
}

/// The bytes of a command line before its first NUL: the first argument.
pub open spec fn before_nul(b: Seq<u8>) -> Seq<u8>
    decreases b.len(),
{
    if b.len() == 0 {
        b
    } else if b[0] == 0 {
        seq![]
    } else {
        seq![b[0]] + before_nul(b.drop_first())
    }
}

/// The program a `/proc/<pid>/cmdline` names: the file name of its first
/// argument, when that argument is UTF-8.
pub open spec fn program_named(cmdline: Seq<u8>) -> Option<Seq<char>> {
    let arg = before_nul(cmdline);
    if valid_utf8(arg) {
        file_name(decode_utf8(arg))
    } else {
        None
    }
}

pub fn program_name(cmdline: &[u8]) -> (r: Option<String>)
    ensures
        match r {
            Some(s) => program_named(cmdline@) == Some(s@),
            None => program_named(cmdline@) is None,
        },
{
    let n = cmdline.len();
    let mut arg: Vec<u8> = Vec::new();
    let mut i: usize = 0;
    assert(cmdline@.subrange(0, n as int) =~= cmdline@);
    while i < n && cmdline[i] != 0
        invariant
            i <= n,
            n == cmdline@.len(),
            before_nul(cmdline@) == arg@ + before_nul(cmdline@.subrange(i as int, n as int)),
        decreases n - i,
    {
        let ghost rest = cmdline@.subrange(i as int, n as int);
        assert(rest.drop_first() =~= cmdline@.subrange(i + 1, n as int));
        assert(arg@.push(cmdline[i as int]) + before_nul(rest.drop_first()) =~= arg@ + (seq![
            cmdline[i as int],
        ] + before_nul(rest.drop_first())));
        arg.push(cmdline[i]);
        i += 1;
    }
    assert(before_nul(cmdline@.subrange(i as int, n as int)) =~= seq![]);
    assert(arg@ + seq![] =~= arg@);
    match utf8_text(arg.as_slice()) {
        Some(text) => path_file_name(text.as_str()),
        None => None,
    }
}

} // verus!

