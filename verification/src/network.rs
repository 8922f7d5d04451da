//! Interface classification and the parsers for `ip`, `iw` and route output.
use vstd::prelude::*;

use crate::config::{is_known_qdisc, known_qdisc};
use crate::text::{
    chars_contains_str, chars_eq_str, chars_of, chars_starts_with, decimal, find_word,
    owned, parse_u32, parse_u32_chars, seq_first_pos, seq_has, slice_of, split_lines,
    split_whitespace, starts_with, string_of, string_views, u32_to_string, views, words,
    lines, contains_seq, join_strings, joined, push_str, u64_to_string,
};

verus! {

/// Network interface mode.
#[derive(Debug, Clone, Copy, PartialEq, Eq, Structural)]
pub enum IfaceMode {
    WiFi,
    Cellular,
    Unknown,
}

/// What went wrong while reading or changing the network configuration.
#[derive(Debug, Clone, PartialEq, Eq)]
pub enum NetError {
    /// A tool exited unsuccessfully; its name and its trimmed standard error.
    CommandFailed(String, String),
    /// The route output names no interface.
    NoInterface,
    /// The active route uses this virtual interface and no physical default
    /// route exists.
    VirtualOnly(String),
    /// The MTU of the interface cannot be read.
    MtuUnavailable(String),
    /// The MTU leaves no room for a TCP segment.
    InvalidMtu(u32),
    /// No route uses the interface.
    NoRoutes(String),
    /// The queue discipline is outside the allowlist.
    UnsupportedQdisc(String),
    /// Some route updates failed; the message.
    RoutesFailed(String),
}

impl IfaceMode {
    pub open spec fn name(self) -> Seq<char> {
        match self {
            IfaceMode::WiFi => "Wi-Fi"@,
            IfaceMode::Cellular => "Cellular"@,
            IfaceMode::Unknown => "Unknown"@,
        }
    }

    pub fn as_str(&self) -> (r: &'static str)
        ensures
            r@ == self.name(),
    {
        match self {
            IfaceMode::WiFi => "Wi-Fi",
            IfaceMode::Cellular => "Cellular",
            IfaceMode::Unknown => "Unknown",
        }
    }

    pub open spec fn icon_of(self) -> Seq<char> {
        match self {
            IfaceMode::WiFi => "\u{1f6dc}"@,
            IfaceMode::Cellular => "\u{1f4f6}"@,
            IfaceMode::Unknown => "\u{2049}\u{fe0f}"@,
        }
    }

    pub fn icon(&self) -> (r: &'static str)
        ensures
            r@ == self.icon_of(),
    {
        match self {
            IfaceMode::WiFi => "\u{1f6dc}",
            IfaceMode::Cellular => "\u{1f4f6}",
            IfaceMode::Unknown => "\u{2049}\u{fe0f}",
        }
    }

    /// File-name prefix of the per-mode algorithm selection.
    pub open spec fn prefix_of(self) -> Seq<char> {
        match self {
            IfaceMode::WiFi => "wlan"@,
            IfaceMode::Cellular => "rmnet_data"@,
            IfaceMode::Unknown => "unknown"@,
        }
    }

    pub fn prefix(&self) -> (r: &'static str)
        ensures
            r@ == self.prefix_of(),
    {
        match self {
            IfaceMode::WiFi => "wlan",
            IfaceMode::Cellular => "rmnet_data",
            IfaceMode::Unknown => "unknown",
        }
    }
}

/// Mode of an interface, decided by its name.
pub open spec fn mode_of(iface: Seq<char>) -> IfaceMode {
    if starts_with(iface, "wlan"@) || starts_with(iface, "swlan"@) || starts_with(iface, "wifi"@) {
        IfaceMode::WiFi
    } else if starts_with(iface, "rmnet"@) || starts_with(iface, "ccmni"@) || starts_with(
        iface,
        "ccemni"@,
    ) || starts_with(iface, "wwan"@) || starts_with(iface, "pdp"@) || starts_with(
        iface,
        "v4-rmnet"@,
    ) {
        IfaceMode::Cellular
    } else {
        IfaceMode::Unknown
    }
}

/// Determine the mode of an interface.
pub fn iface_mode(iface: &str) -> (r: IfaceMode)
    ensures
        r == mode_of(iface@),
{
    let v = chars_of(iface);
    let s = v.as_slice();
    if chars_starts_with(s, "wlan") || chars_starts_with(s, "swlan") || chars_starts_with(s, "wifi") {
        IfaceMode::WiFi
    } else if chars_starts_with(s, "rmnet") || chars_starts_with(s, "ccmni") || chars_starts_with(
        s,
        "ccemni",
    ) || chars_starts_with(s, "wwan") || chars_starts_with(s, "pdp") || chars_starts_with(
        s,
        "v4-rmnet",
    ) {
        IfaceMode::Cellular
    } else {
        IfaceMode::Unknown
    }
}

/// Tunnel interfaces that never carry the physical route.
pub open spec fn virtual_iface(iface: Seq<char>) -> bool {
    starts_with(iface, "tun"@) || starts_with(iface, "tap"@) || starts_with(iface, "wg"@)
}

pub fn is_virtual_iface(iface: &str) -> (r: bool)
    ensures
        r == virtual_iface(iface@),
{
    let v = chars_of(iface);
    let s = v.as_slice();
    chars_starts_with(s, "tun") || chars_starts_with(s, "tap") || chars_starts_with(s, "wg")
}

/// The word after the first `dev` word.
pub open spec fn iface_after_dev(ws: Seq<Seq<char>>) -> Option<Seq<char>> {
    if seq_has(ws, "dev"@) && seq_first_pos(ws, "dev"@) + 1 < ws.len() {
        Some(ws[seq_first_pos(ws, "dev"@) + 1])
    } else {
        None
    }
}

fn word_after_dev(ws: &Vec<Vec<char>>) -> (r: Option<Vec<char>>)
    ensures
        r matches Some(w) ==> iface_after_dev(views(ws@)) == Some(w@),
        r is None ==> iface_after_dev(views(ws@)) is None,
{
    match find_word(ws, "dev") {
        Some(pos) => {
            let n = ws.len();
            if pos + 1 < n {
                let w = slice_of(ws[pos + 1].as_slice(), 0, ws[pos + 1].len());
                assert(w@ =~= ws@[pos + 1]@);
                Some(w)
            } else {
                None
            }
        },
        None => None,
    }
}

/// The interface named after `dev` in `ip route get` output.
pub fn parse_iface_after_dev(output: &str) -> (r: Option<String>)
    ensures
        r matches Some(s) ==> iface_after_dev(words(output@)) == Some(s@),
        r is None ==> iface_after_dev(words(output@)) is None,
{
    let v = chars_of(output);
    let ws = split_whitespace(v.as_slice());
    match word_after_dev(&ws) {
        Some(w) => Some(string_of(w.as_slice())),
        None => None,
    }
}

/// The interface of a default route line, when the line is one whose first
/// word is `default` and whose interface is physical.
pub open spec fn default_route_iface(line: Seq<char>) -> Option<Seq<char>> {
    let ws = words(line);
    if ws.len() > 0 && ws[0] == "default"@ {
        match iface_after_dev(ws) {
            Some(i) => if virtual_iface(i) {
                None
            } else {
                Some(i)
            },
            None => None,
        }
    } else {
        None
    }
}

/// First physical default route among `ls[i..]`.
pub open spec fn first_default_iface(ls: Seq<Seq<char>>, i: int) -> Option<Seq<char>>
    decreases ls.len() - i,
{
    if i < 0 || i >= ls.len() {
        None
    } else {
        match default_route_iface(ls[i]) {
            Some(x) => Some(x),
            None => first_default_iface(ls, i + 1),
        }
    }
}

/// The physical interface of the first default route in `ip route show`
/// output.
pub fn default_physical_iface(routes: &str) -> (r: Option<String>)
    ensures
        r matches Some(s) ==> first_default_iface(lines(routes@), 0) == Some(s@),
        r is None ==> first_default_iface(lines(routes@), 0) is None,
{
    let v = chars_of(routes);
    let ls = split_lines(v.as_slice());
    let n = ls.len();
    let mut i: usize = 0;
    while i < n
        invariant
            n == ls@.len(),
            i <= n,
            views(ls@) == lines(routes@),
            first_default_iface(lines(routes@), 0) == first_default_iface(lines(routes@), i as int),
        decreases n - i,
    {
        let ws = split_whitespace(ls[i].as_slice());
        assert(views(ls@)[i as int] == ls@[i as int]@);
        if ws.len() > 0 && chars_eq_str(ws[0].as_slice(), "default") {
            match word_after_dev(&ws) {
                Some(w) => {
                    let name = string_of(w.as_slice());
                    if !is_virtual_iface(name.as_str()) {
                        return Some(name);
                    }
                },
                None => {},
            }
        }
        i += 1;
    }
    None
}

/// Get the active network interface name from the interface of the route to
/// a public address and the physical default route.
pub fn active_iface(route: Result<String, NetError>, fallback: Option<String>) -> (r: Result<
    String,
    NetError,
>)
    ensures
        match (route, fallback, r) {
            (Ok(i), _, Ok(a)) => if !virtual_iface(i@) {
                a@ == i@
            } else {
                fallback matches Some(f) && a@ == f@
            },
            (Ok(i), _, Err(e)) => virtual_iface(i@) && fallback is None && e == NetError::VirtualOnly(
                i,
            ),
            (Err(_), Some(f), res) => res matches Ok(a) && a@ == f@,
            (Err(e0), None, res) => res == Err::<String, NetError>(e0),
        },
{
    match route {
        Ok(iface) => {
            if !is_virtual_iface(iface.as_str()) {
                Ok(iface)
            } else {
                match fallback {
                    Some(f) => Ok(f),
                    None => Err(NetError::VirtualOnly(iface)),
                }
            }
        },
        Err(e) => match fallback {
            Some(f) => Ok(f),
            None => Err(e),
        },
    }
}

/// The result of the first line holding `freq:` as a word, parsed as the
/// word after it.
pub open spec fn freq_scan(ls: Seq<Seq<char>>, i: int) -> Option<u32>
    decreases ls.len() - i,
{
    if i < 0 || i >= ls.len() {
        None
    } else {
        let ws = words(ls[i]);
        if contains_seq(ls[i], "freq:"@) && seq_has(ws, "freq:"@) && seq_first_pos(ws, "freq:"@)
            + 1 < ws.len() {
            parse_u32(ws[seq_first_pos(ws, "freq:"@) + 1])
        } else {
            freq_scan(ls, i + 1)
        }
    }
}

/// Wi-Fi frequency in MHz from `iw dev <iface> link` output.
pub fn parse_wifi_freq(stdout: &str) -> (r: Option<u32>)
    ensures
        r == freq_scan(lines(stdout@), 0),
{
    let v = chars_of(stdout);
    let ls = split_lines(v.as_slice());
    let n = ls.len();
    let mut i: usize = 0;
    while i < n
        invariant
            n == ls@.len(),
            i <= n,
            views(ls@) == lines(stdout@),
            freq_scan(lines(stdout@), 0) == freq_scan(lines(stdout@), i as int),
        decreases n - i,
    {
        assert(views(ls@)[i as int] == ls@[i as int]@);
        if chars_contains_str(ls[i].as_slice(), "freq:") {
            let ws = split_whitespace(ls[i].as_slice());
            match find_word(&ws, "freq:") {
                Some(pos) => {
                    if pos + 1 < ws.len() {
                        assert(views(ws@)[pos + 1] == ws@[pos + 1]@);
                        return parse_u32_chars(ws[pos + 1].as_slice());
                    }
                },
                None => {},
            }
        }
        i += 1;
    }
    None
}

/// `s` with every leading repetition of `p` removed, as
/// `str::trim_start_matches` does.
pub open spec fn strip_all_prefix(s: Seq<char>, p: Seq<char>) -> Seq<char>
    decreases s.len(),
{
    if p.len() > 0 && starts_with(s, p) {
        strip_all_prefix(s.subrange(p.len() as int, s.len() as int), p)
    } else {
        s
    }
}

fn strip_all_prefix_chars(s: &[char], p: &str) -> (r: Vec<char>)
    ensures
        r@ == strip_all_prefix(s@, p@),
{
    let pv = chars_of(p);
    if pv.len() == 0 {
        return slice_of(s, 0, s.len());
    }
    let n = s.len();
    let mut i: usize = 0;
    assert(s@.subrange(0, n as int) =~= s@);
    while pv.len() <= n - i && chars_starts_with(slice_of(s, i, n).as_slice(), p)
        invariant
            n == s@.len(),
            i <= n,
            pv@ == p@,
            pv@.len() > 0,
            strip_all_prefix(s@, p@) == strip_all_prefix(s@.subrange(i as int, n as int), p@),
        decreases n - i,
    {
        assert(s@.subrange(i as int, n as int).subrange(
            pv@.len() as int,
            (n - i) as int,
        ) =~= s@.subrange(i + pv@.len(), n as int));
        i += pv.len();
    }
    slice_of(s, i, n)
}

/// The MTU found by `iface_mtu`: scanning words from `i`, the first word that
/// starts with `mtu` gives the number after the prefix, or, where nothing
/// follows the prefix, the word after the first `mtu` word.
pub open spec fn mtu_scan(ws: Seq<Seq<char>>, i: int) -> Option<u32>
    decreases ws.len() - i,
{
    if i < 0 || i >= ws.len() {
        None
    } else if starts_with(ws[i], "mtu"@) {
        let rest = strip_all_prefix(ws[i], "mtu"@);
        if rest.len() == 0 {
            if seq_has(ws, "mtu"@) && seq_first_pos(ws, "mtu"@) + 1 < ws.len() {
                parse_u32(ws[seq_first_pos(ws, "mtu"@) + 1])
            } else {
                mtu_scan(ws, i + 1)
            }
        } else {
            parse_u32(rest)
        }
    } else {
        mtu_scan(ws, i + 1)
    }
}

/// Interface MTU from `ip link show <iface>` output.
pub fn parse_mtu(stdout: &str) -> (r: Option<u32>)
    ensures
        r == mtu_scan(words(stdout@), 0),
{
    let v = chars_of(stdout);
    let ws = split_whitespace(v.as_slice());
    let n = ws.len();
    let mut i: usize = 0;
    while i < n
        invariant
            n == ws@.len(),
            i <= n,
            views(ws@) == words(stdout@),
            mtu_scan(words(stdout@), 0) == mtu_scan(words(stdout@), i as int),
        decreases n - i,
    {
        assert(views(ws@)[i as int] == ws@[i as int]@);
        if chars_starts_with(ws[i].as_slice(), "mtu") {
            let rest = strip_all_prefix_chars(ws[i].as_slice(), "mtu");
            if rest.len() == 0 {
                match find_word(&ws, "mtu") {
                    Some(pos) => {
                        if pos + 1 < n {
                            assert(views(ws@)[pos + 1] == ws@[pos + 1]@);
                            return parse_u32_chars(ws[pos + 1].as_slice());
                        }
                    },
                    None => {},
                }
            } else {
                return parse_u32_chars(rest.as_slice());
            }
        }
        i += 1;
    }
    None
}

/// The numbers after `initcwnd` and `initrwnd` words of `ws[i..]`, in order,
/// skipping those that do not parse.
pub open spec fn window_scan(ws: Seq<Seq<char>>, i: int) -> Seq<u32>
    decreases ws.len() - i,
{
    if i < 0 || i >= ws.len() {
        seq![]
    } else {
        let next = if i + 1 < ws.len() {
            parse_u32(ws[i + 1])
        } else {
            None
        };
        let here: Seq<u32> = if (ws[i] == "initcwnd"@ || ws[i] == "initrwnd"@) && next is Some {
            seq![next.unwrap()]
        } else {
            seq![]
        };
        here + window_scan(ws, i + 1)
    }
}

/// initcwnd and initrwnd values of `ip route show` output.
pub fn parse_init_windows(stdout: &str) -> (r: Vec<u32>)
    ensures
        r@ == window_scan(words(stdout@), 0),
{
    let v = chars_of(stdout);
    let ws = split_whitespace(v.as_slice());
    let n = ws.len();
    let mut out: Vec<u32> = Vec::new();
    let mut i: usize = 0;
    while i < n
        invariant
            n == ws@.len(),
            i <= n,
            views(ws@) == words(stdout@),
            window_scan(words(stdout@), 0) == out@ + window_scan(words(stdout@), i as int),
        decreases n - i,
    {
        assert(views(ws@)[i as int] == ws@[i as int]@);
        let ghost old_out = out@;
        if chars_eq_str(ws[i].as_slice(), "initcwnd") || chars_eq_str(ws[i].as_slice(), "initrwnd") {
            if i + 1 < n {
                assert(views(ws@)[i + 1] == ws@[i + 1]@);
                match parse_u32_chars(ws[i + 1].as_slice()) {
                    Some(x) => out.push(x),
                    None => {},
                }
            }
        }
        assert(out@ + window_scan(words(stdout@), i + 1) =~= old_out + window_scan(
            words(stdout@),
            i as int,
        ));
        i += 1;
    }
    assert(out@ + seq![] =~= out@);
    out
}

/// Route words with every `initcwnd`/`initrwnd` pair removed.
pub open spec fn strip_window_metrics(ws: Seq<Seq<char>>) -> Seq<Seq<char>>
    decreases ws.len(),
{
    if ws.len() == 0 {
        seq![]
    } else if ws[0] == "initcwnd"@ || ws[0] == "initrwnd"@ {
        if ws.len() >= 2 {
            strip_window_metrics(ws.subrange(2, ws.len() as int))
        } else {
            seq![]
        }
    } else {
        seq![ws[0]] + strip_window_metrics(ws.drop_first())
    }
}

/// `ip` arguments that rewrite a route line of `iface` with initcwnd 10 and
/// the given initrwnd; `None` when the line's device is another interface.
pub open spec fn route_args(line: Seq<char>, iface: Seq<char>, initrwnd: u32) -> Option<
    Seq<Seq<char>>,
> {
    let ws = words(line);
    if seq_has(ws, "dev"@) && seq_first_pos(ws, "dev"@) + 1 < ws.len() && ws[seq_first_pos(
        ws,
        "dev"@,
    ) + 1] == iface {
        Some(seq!["route"@, "change"@] + strip_window_metrics(ws) + seq![
            "initcwnd"@,
            "10"@,
            "initrwnd"@,
            decimal(initrwnd as nat),
        ])
    } else {
        None
    }
}

fn strip_window_words(ws: &Vec<Vec<char>>) -> (r: Vec<String>)
    ensures
        string_views(r@) == strip_window_metrics(views(ws@)),
{
    let n = ws.len();
    let mut args: Vec<String> = Vec::new();
    let ghost all = views(ws@);
    let mut index: usize = 0;
    assert(all.subrange(0, n as int) =~= all);
    assert(string_views(args@) =~= seq![]);
    while index < n
        invariant
            n == ws@.len(),
            index <= n,
            all == views(ws@),
            strip_window_metrics(all) == string_views(args@) + strip_window_metrics(
                all.subrange(index as int, n as int),
            ),
        decreases n - index,
    {
        let ghost rest = all.subrange(index as int, n as int);
        assert(rest[0] == ws@[index as int]@);
        if chars_eq_str(ws[index].as_slice(), "initcwnd") || chars_eq_str(
            ws[index].as_slice(),
            "initrwnd",
        ) {
            if n - index >= 2 {
                assert(rest.subrange(2, rest.len() as int) =~= all.subrange(
                    index + 2,
                    n as int,
                ));
                index += 2;
            } else {
                assert(all.subrange(n as int, n as int) =~= seq![]);
                assert(string_views(args@) + seq![] =~= string_views(args@));
                index = n;
            }
        } else {
            let ghost old_args = string_views(args@);
            args.push(string_of(ws[index].as_slice()));
            assert(string_views(args@) =~= old_args + seq![rest[0]]);
            assert(rest.drop_first() =~= all.subrange(index + 1, n as int));
            assert(seq![rest[0]] + strip_window_metrics(rest.drop_first()) == strip_window_metrics(rest));
            assert(old_args + (seq![rest[0]] + strip_window_metrics(rest.drop_first())) =~= (old_args
                + seq![rest[0]]) + strip_window_metrics(rest.drop_first()));
            index += 1;
        }
    }
    assert(all.subrange(n as int, n as int) =~= seq![]);
    assert(string_views(args@) + seq![] =~= string_views(args@));
    args
}

pub fn route_change_args(line: &str, iface: &str, initrwnd: u32) -> (r: Option<Vec<String>>)
    ensures
        r matches Some(a) ==> route_args(line@, iface@, initrwnd) == Some(string_views(a@)),
        r is None ==> route_args(line@, iface@, initrwnd) is None,
{
    let v = chars_of(line);
    let ws = split_whitespace(v.as_slice());
    let n = ws.len();
    let pos = match find_word(&ws, "dev") {
        Some(p) => p,
        None => return None,
    };
    if pos + 1 >= n {
        return None;
    }
    assert(views(ws@)[pos + 1] == ws@[pos + 1]@);
    if !chars_eq_str(ws[pos + 1].as_slice(), iface) {
        return None;
    }
    let mut middle = strip_window_words(&ws);
    let mut args: Vec<String> = Vec::new();
    args.push(owned("route"));
    args.push(owned("change"));
    let ghost head = args@;
    let ghost mid = middle@;
    assert(string_views(head) =~= seq!["route"@, "change"@]);
    args.append(&mut middle);
    assert(args@ == head + mid);
    assert(string_views(args@) =~= string_views(head) + string_views(mid));
    let ghost before = string_views(args@);
    args.push(owned("initcwnd"));
    args.push(owned("10"));
    args.push(owned("initrwnd"));
    args.push(u32_to_string(initrwnd));
    assert(string_views(args@) =~= before + seq![
        "initcwnd"@,
        "10"@,
        "initrwnd"@,
        decimal(initrwnd as nat),
    ]);
    Some(args)
}

/// The `ip route change` arguments for each route of `ip route show` that
/// uses the interface, in the order of the lines.
pub open spec fn route_plan(ls: Seq<Seq<char>>, iface: Seq<char>, initrwnd: u32, n: int) -> Seq<
    Seq<Seq<char>>,
>
    decreases n,
{
    if n <= 0 {
        seq![]
    } else {
        let rest = route_plan(ls, iface, initrwnd, n - 1);
        match route_args(ls[n - 1], iface, initrwnd) {
            Some(a) => rest.push(a),
            None => rest,
        }
    }
}

pub open spec fn arg_views(v: Seq<Vec<String>>) -> Seq<Seq<Seq<char>>> {
    v.map_values(|a: Vec<String>| string_views(a@))
}

pub fn route_changes(routes: &str, iface: &str, initrwnd: u32) -> (r: Vec<Vec<String>>)
    ensures
        arg_views(r@) == route_plan(lines(routes@), iface@, initrwnd, lines(routes@).len() as int),
{
    let cs = chars_of(routes);
    let ls = split_lines(cs.as_slice());
    let ghost lv = views(ls@);
    let mut out: Vec<Vec<String>> = Vec::new();
    let mut i: usize = 0;
    assert(arg_views(out@) =~= seq![]);
    while i < ls.len()
        invariant
            lv == views(ls@),
            lv == lines(routes@),
            i <= ls@.len(),
            arg_views(out@) == route_plan(lv, iface@, initrwnd, i as int),
        decreases ls@.len() - i,
    {
        assert(lv[i as int] == ls@[i as int]@);
        let line = string_of(ls[i].as_slice());
        match route_change_args(line.as_str(), iface, initrwnd) {
            Some(a) => {
                let ghost before = arg_views(out@);
                let ghost av = string_views(a@);
                out.push(a);
                assert(arg_views(out@) =~= before.push(av));
            },
            None => {},
        }
        i += 1;
    }
    out
}

/// Whether updating the routes succeeded, from the number of matching routes
/// and the messages of the updates that failed.
pub fn route_update_result(iface: &str, matched: usize, failures: &Vec<String>) -> (r: Result<
    (),
    NetError,
>)
    ensures
        matched == 0 ==> (r matches Err(NetError::NoRoutes(i)) && i@ == iface@),
        matched > 0 && failures@.len() == 0 ==> r is Ok,
        matched > 0 && failures@.len() > 0 ==> (r matches Err(NetError::RoutesFailed(m)) && m@
            == "failed to update "@ + decimal(failures@.len()) + "/"@ + decimal(matched as nat)
            + " routes: "@ + joined(string_views(failures@), "; "@)),
{
    if matched == 0 {
        return Err(NetError::NoRoutes(owned(iface)));
    }
    if failures.len() == 0 {
        return Ok(());
    }
    let mut m = owned("failed to update ");
    let count = u64_to_string(failures.len() as u64);
    push_str(&mut m, count.as_str());
    push_str(&mut m, "/");
    let total = u64_to_string(matched as u64);
    push_str(&mut m, total.as_str());
    push_str(&mut m, " routes: ");
    let joined_failures = join_strings(failures, "; ");
    push_str(&mut m, joined_failures.as_str());
    Err(NetError::RoutesFailed(m))
}

/// The kind of the root queue discipline in `tc qdisc show dev <iface>`
/// output: the word after `qdisc` on the first line that starts with
/// `qdisc` and names `root`.
pub open spec fn root_qdisc_scan(ls: Seq<Seq<char>>, i: int) -> Option<Seq<char>>
    decreases ls.len() - i,
{
    if i < 0 || i >= ls.len() {
        None
    } else {
        let ws = words(ls[i]);
        if ws.len() >= 2 && ws[0] == "qdisc"@ && seq_has(ws, "root"@) {
            Some(ws[1])
        } else {
            root_qdisc_scan(ls, i + 1)
        }
    }
}

pub fn parse_root_qdisc(stdout: &str) -> (r: Option<String>)
    ensures
        match root_qdisc_scan(lines(stdout@), 0) {
            Some(q) => r matches Some(s) && s@ == q,
            None => r is None,
        },
{
    let cs = chars_of(stdout);
    let ls = split_lines(cs.as_slice());
    let ghost lv = views(ls@);
    let mut i: usize = 0;
    while i < ls.len()
        invariant
            lv == views(ls@),
            lv == lines(stdout@),
            i <= ls@.len(),
            root_qdisc_scan(lv, 0) == root_qdisc_scan(lv, i as int),
        decreases ls@.len() - i,
    {
        assert(lv[i as int] == ls@[i as int]@);
        let ws = split_whitespace(ls[i].as_slice());
        assert(views(ws@) == words(lv[i as int]));
        if ws.len() >= 2 && chars_eq_str(ws[0].as_slice(), "qdisc") {
            assert(views(ws@)[0] == ws@[0]@);
            if find_word(&ws, "root").is_some() {
                assert(views(ws@)[1] == ws@[1]@);
                return Some(string_of(ws[1].as_slice()));
            }
        }
        proof {
            if ws@.len() >= 2 {
                assert(views(ws@)[0] == ws@[0]@);
            }
        }
        i += 1;
    }
    None
}

/// Initial receive window in segments for a default receive buffer and an
/// MTU: the buffer divided by the segment size (MTU less 40 bytes of headers),
/// clamped to 1..=1023.
pub open spec fn initrwnd_for(default_rmem: u32, mtu: u32) -> u32 {
    let q = default_rmem / ((mtu - 40) as u32);
    if q < 1 {
        1
    } else if q > 1023 {
        1023
    } else {
        q
    }
}

pub fn initial_receive_window(default_rmem: u32, mtu: u32) -> (r: Result<u32, NetError>)
    ensures
        mtu <= 40 ==> r == Err::<u32, NetError>(NetError::InvalidMtu(mtu)),
        mtu > 40 ==> r == Ok::<u32, NetError>(initrwnd_for(default_rmem, mtu)),
{
    if mtu <= 40 {
        return Err(NetError::InvalidMtu(mtu));
    }
    let q = default_rmem / (mtu - 40);
    Ok(
        if q < 1 {
            1
        } else if q > 1023 {
            1023
        } else {
            q
        },
    )
}

/// The `tc` arguments that replace the root queue discipline of an
/// interface; only allowlisted queue disciplines are accepted.
pub fn set_qdisc(iface: &str, qdisc: &str) -> (r: Result<Vec<String>, NetError>)
    ensures
        !known_qdisc(qdisc@) <==> r is Err,
        r matches Err(e) ==> e matches NetError::UnsupportedQdisc(q) && q@ == qdisc@,
        r matches Ok(a) ==> string_views(a@) == seq![
            "qdisc"@,
            "replace"@,
            "dev"@,
            iface@,
            "root"@,
            qdisc@,
        ],
{
    if !is_known_qdisc(qdisc) {
        return Err(NetError::UnsupportedQdisc(owned(qdisc)));
    }
    let mut args: Vec<String> = Vec::new();
    args.push(owned("qdisc"));
    args.push(owned("replace"));
    args.push(owned("dev"));
    args.push(owned(iface));
    args.push(owned("root"));
    args.push(owned(qdisc));
    assert(string_views(args@) =~= seq![
        "qdisc"@,
        "replace"@,
        "dev"@,
        iface@,
        "root"@,
        qdisc@,
    ]);
    Ok(args)
}

/// Name prefixes of Wi-Fi interfaces.
pub open spec fn wifi_prefixes() -> Seq<Seq<char>> {
    seq!["wlan"@, "swlan"@, "wifi"@]
}

/// Name prefixes of cellular data interfaces (Qualcomm, MediaTek and
/// generic modems, and the CLAT interface of an IPv6-only network).
pub open spec fn cellular_prefixes() -> Seq<Seq<char>> {
    seq!["rmnet"@, "ccmni"@, "ccemni"@, "wwan"@, "pdp"@, "v4-rmnet"@]
}

/// `iface` starts with one of `prefixes`.
pub open spec fn has_prefix_in(iface: Seq<char>, prefixes: Seq<Seq<char>>) -> bool {
    exists|i: int| 0 <= i < prefixes.len() && starts_with(iface, #[trigger] prefixes[i])
}

/// An interface is Wi-Fi when its name starts with a Wi-Fi prefix,
/// cellular when it starts with a cellular prefix and with no Wi-Fi one,
/// and of unknown mode otherwise.
pub proof fn lemma_mode_follows_prefixes(iface: Seq<char>)
    ensures
        has_prefix_in(iface, wifi_prefixes()) ==> mode_of(iface) == IfaceMode::WiFi,
        !has_prefix_in(iface, wifi_prefixes()) && has_prefix_in(iface, cellular_prefixes())
            ==> mode_of(iface) == IfaceMode::Cellular,
        !has_prefix_in(iface, wifi_prefixes()) && !has_prefix_in(iface, cellular_prefixes())
            ==> mode_of(iface) == IfaceMode::Unknown,
{
    let w = wifi_prefixes();
    let c = cellular_prefixes();
    assert(w[0] == "wlan"@ && w[1] == "swlan"@ && w[2] == "wifi"@);
    assert(c[0] == "rmnet"@ && c[1] == "ccmni"@ && c[2] == "ccemni"@ && c[3] == "wwan"@ && c[4]
        == "pdp"@ && c[5] == "v4-rmnet"@);
    if starts_with(iface, "wlan"@) || starts_with(iface, "swlan"@) || starts_with(iface, "wifi"@) {
        if starts_with(iface, "wlan"@) {
            assert(starts_with(iface, w[0]));
        } else if starts_with(iface, "swlan"@) {
            assert(starts_with(iface, w[1]));
        } else {
            assert(starts_with(iface, w[2]));
        }
    }
    if starts_with(iface, "rmnet"@) {
        assert(starts_with(iface, c[0]));
    }
    if starts_with(iface, "ccmni"@) {
        assert(starts_with(iface, c[1]));
    }
    if starts_with(iface, "ccemni"@) {
        assert(starts_with(iface, c[2]));
    }
    if starts_with(iface, "wwan"@) {
        assert(starts_with(iface, c[3]));
    }
    if starts_with(iface, "pdp"@) {
        assert(starts_with(iface, c[4]));
    }
    if starts_with(iface, "v4-rmnet"@) {
        assert(starts_with(iface, c[5]));
    }
}

/// A window-metric keyword of `ip route`.
pub open spec fn window_word(w: Seq<char>) -> bool {
    w == "initcwnd"@ || w == "initrwnd"@
}

/// Stripping the window metrics leaves no window keyword and keeps a route
/// without them unchanged.
pub proof fn lemma_strip_window_metrics(ws: Seq<Seq<char>>)
    ensures
        forall|i: int|
            0 <= i < strip_window_metrics(ws).len() ==> !window_word(
                #[trigger] strip_window_metrics(ws)[i],
            ),
        (forall|i: int| 0 <= i < ws.len() ==> !window_word(#[trigger] ws[i])) ==> strip_window_metrics(
            ws,
        ) == ws,
        strip_window_metrics(ws).len() <= ws.len(),
    decreases ws.len(),
{
    if ws.len() > 0 {
        if window_word(ws[0]) {
            if ws.len() >= 2 {
                lemma_strip_window_metrics(ws.subrange(2, ws.len() as int));
            }
        } else {
            let rest = ws.drop_first();
            lemma_strip_window_metrics(rest);
            let r = strip_window_metrics(ws);
            assert(r == seq![ws[0]] + strip_window_metrics(rest));
            assert forall|i: int| 0 <= i < r.len() implies !window_word(#[trigger] r[i]) by {
                if i > 0 {
                    assert(r[i] == strip_window_metrics(rest)[i - 1]);
                }
            }
            if forall|i: int| 0 <= i < ws.len() ==> !window_word(#[trigger] ws[i]) {
                assert forall|i: int| 0 <= i < rest.len() implies !window_word(#[trigger] rest[i]) by {
                    assert(rest[i] == ws[i + 1]);
                }
                assert(seq![ws[0]] + rest =~= ws);
            }
        }
    }
}

/// A route line is rewritten exactly when the word after its first `dev`
/// is the interface; the rewrite is `route change`, the route's words
/// without any window metric, then `initcwnd 10 initrwnd <initrwnd>`.
pub proof fn lemma_route_rewrite(line: Seq<char>, iface: Seq<char>, initrwnd: u32, d: int)
    requires
        0 <= d < words(line).len(),
        words(line)[d] == "dev"@,
        forall|j: int| 0 <= j < d ==> words(line)[j] != "dev"@,
    ensures
        route_args(line, iface, initrwnd) is Some <==> (d + 1 < words(line).len() && words(line)[d
            + 1] == iface),
        route_args(line, iface, initrwnd) matches Some(a) ==> {
            let n = a.len();
            &&& n >= 6
            &&& a[0] == "route"@ && a[1] == "change"@
            &&& a[n - 4] == "initcwnd"@ && a[n - 3] == "10"@ && a[n - 2] == "initrwnd"@ && a[n - 1]
                == decimal(initrwnd as nat)
            &&& forall|i: int| 2 <= i < n - 4 ==> !window_word(#[trigger] a[i])
            &&& (forall|i: int| 0 <= i < words(line).len() ==> !window_word(#[trigger] words(line)[i]))
                ==> a.subrange(2, n - 4) == words(line)
        },
{
    crate::text::lemma_seq_first_pos(words(line), "dev"@, d);
    let ws = words(line);
    lemma_strip_window_metrics(ws);
    if let Some(a) = route_args(line, iface, initrwnd) {
        let m = strip_window_metrics(ws);
        let n = a.len();
        assert(a == seq!["route"@, "change"@] + m + seq![
            "initcwnd"@,
            "10"@,
            "initrwnd"@,
            decimal(initrwnd as nat),
        ]);
        assert(a.subrange(2, n - 4) =~= m);
        assert forall|i: int| 2 <= i < n - 4 implies !window_word(#[trigger] a[i]) by {
            assert(a[i] == m[i - 2]);
        }
    }
}

/// Without a `dev` word, a route line is never rewritten.
pub proof fn lemma_route_without_device(line: Seq<char>, iface: Seq<char>, initrwnd: u32)
    requires
        forall|j: int| 0 <= j < words(line).len() ==> words(line)[j] != "dev"@,
    ensures
        route_args(line, iface, initrwnd) is None,
{
}

} // verus!
