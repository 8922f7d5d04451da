//! Parsers for the kernel's network statistics: TCP segment counters from
//! `/proc/net/snmp`, interface byte counters from `/proc/net/dev`, socket
//! counts from `/proc/net/sockstat`, and values of `ss` output.
use vstd::prelude::*;

use crate::text::{
    chars_eq_str, chars_of, chars_starts_with, find_chars, find_word, first_ws, first_ws_from,
    find_from, lines, owned, parse_u32, parse_u32_chars, parse_unsigned_checked, seq_first_pos,
    seq_has, slice_of, split_lines, split_once, split_once_char, split_whitespace, starts_with,
    trim, trim_chars, unsigned_outcome, views, words, IntErrorKind, chars_eq, has_char,
    all_digits, chars_all_digits, string_of, lemma_seq_first_pos, lemma_unsigned_outcome_range,
};

verus! {

#[derive(Debug, Clone, PartialEq, Eq)]
pub struct TcpCounters {
    pub retrans: u64,
    pub in_segs: u64,
    pub out_segs: u64,
}

#[derive(Debug, Clone, PartialEq, Eq)]
pub struct IfaceBytes {
    pub rx_bytes: u64,
    pub tx_bytes: u64,
}

#[derive(Debug, Clone, PartialEq, Eq)]
pub struct SockStat {
    pub tcp_in_use: u32,
    pub tcp_orphan: u32,
    pub tcp_tw: u32,
    pub tcp_alloc: u32,
    pub tcp_mem: u32,
}

#[derive(Debug, Clone, PartialEq, Eq)]
pub struct DnsServer {
    pub iface: String,
    pub ip: String,
}

/// Why a statistics file cannot be read.
#[derive(Debug, Clone, PartialEq, Eq)]
pub enum StatsError {
    MissingSnmpHeader,
    MissingSnmpValues,
    SnmpLengthMismatch,
    MissingCounter(String),
    InvalidCounter(String, IntErrorKind),
    MissingInterface(String),
    InvalidField(String, IntErrorKind),
    MissingSockstatLine,
    MissingSockstatField(String),
    MissingSockstatValue(String),
    InvalidSockstat(String, IntErrorKind),
}

/// The reasons as values.
pub enum StatsFault {
    MissingSnmpHeader,
    MissingSnmpValues,
    SnmpLengthMismatch,
    MissingCounter(Seq<char>),
    InvalidCounter(Seq<char>, IntErrorKind),
    MissingInterface(Seq<char>),
    InvalidField(Seq<char>, IntErrorKind),
    MissingSockstatLine,
    MissingSockstatField(Seq<char>),
    MissingSockstatValue(Seq<char>),
    InvalidSockstat(Seq<char>, IntErrorKind),
}

pub open spec fn stats_fault(e: StatsError) -> StatsFault {
    match e {
        StatsError::MissingSnmpHeader => StatsFault::MissingSnmpHeader,
        StatsError::MissingSnmpValues => StatsFault::MissingSnmpValues,
        StatsError::SnmpLengthMismatch => StatsFault::SnmpLengthMismatch,
        StatsError::MissingCounter(n) => StatsFault::MissingCounter(n@),
        StatsError::InvalidCounter(n, k) => StatsFault::InvalidCounter(n@, k),
        StatsError::MissingInterface(i) => StatsFault::MissingInterface(i@),
        StatsError::InvalidField(n, k) => StatsFault::InvalidField(n@, k),
        StatsError::MissingSockstatLine => StatsFault::MissingSockstatLine,
        StatsError::MissingSockstatField(n) => StatsFault::MissingSockstatField(n@),
        StatsError::MissingSockstatValue(n) => StatsFault::MissingSockstatValue(n@),
        StatsError::InvalidSockstat(n, k) => StatsFault::InvalidSockstat(n@, k),
    }
}

/// The words of a line after its first (the table's name).
pub open spec fn skip_first(s: Seq<Seq<char>>) -> Seq<Seq<char>> {
    if s.len() > 0 {
        s.drop_first()
    } else {
        s
    }
}

/// The lines that start with `p`, in order.
pub open spec fn lines_starting(ls: Seq<Seq<char>>, p: Seq<char>) -> Seq<Seq<char>>
    decreases ls.len(),
{
    if ls.len() == 0 {
        seq![]
    } else if starts_with(ls.last(), p) {
        lines_starting(ls.drop_last(), p).push(ls.last())
    } else {
        lines_starting(ls.drop_last(), p)
    }
}

fn lines_starting_exec(ls: &Vec<Vec<char>>, p: &str) -> (r: Vec<Vec<char>>)
    ensures
        views(r@) == lines_starting(views(ls@), p@),
{
    let ghost lv = views(ls@);
    let mut out: Vec<Vec<char>> = Vec::new();
    let mut i: usize = 0;
    assert(lv.subrange(0, 0) =~= seq![]);
    assert(views(out@) =~= seq![]);
    while i < ls.len()
        invariant
            lv == views(ls@),
            i <= ls@.len(),
            views(out@) == lines_starting(lv.subrange(0, i as int), p@),
        decreases ls@.len() - i,
    {
        let ghost pre = lv.subrange(0, i + 1);
        assert(pre.drop_last() =~= lv.subrange(0, i as int));
        assert(pre.last() == ls@[i as int]@);
        if chars_starts_with(ls[i].as_slice(), p) {
            let ghost before = views(out@);
            let line = slice_of(ls[i].as_slice(), 0, ls[i].len());
            out.push(line);
            assert(ls@[i as int]@.subrange(0, ls@[i as int]@.len() as int) =~= ls@[i as int]@);
            assert(views(out@) =~= before.push(pre.last()));
        }
        i += 1;
    }
    assert(lv.subrange(0, lv.len() as int) =~= lv);
    out
}

fn words_after_first(line: &[char]) -> (r: Vec<Vec<char>>)
    ensures
        views(r@) == skip_first(words(line@)),
{
    let ws = split_whitespace(line);
    if ws.len() == 0 {
        return ws;
    }
    let mut out: Vec<Vec<char>> = Vec::new();
    let mut i: usize = 1;
    assert(views(out@) =~= views(ws@).subrange(1, 1));
    while i < ws.len()
        invariant
            1 <= i <= ws@.len(),
            views(ws@) == words(line@),
            views(out@) == views(ws@).subrange(1, i as int),
        decreases ws@.len() - i,
    {
        let ghost before = out@;
        let w = slice_of(ws[i].as_slice(), 0, ws[i].len());
        out.push(w);
        proof {
            assert(ws@[i as int]@.subrange(0, ws@[i as int]@.len() as int) =~= ws@[i as int]@);
            assert(out@ == before.push(w));
            assert(views(out@) =~= views(before).push(w@));
            assert(views(ws@)[i as int] == w@);
            assert(views(ws@).subrange(1, i + 1) =~= views(ws@).subrange(1, i as int).push(w@));
        }
        i += 1;
    }
    assert(views(ws@).subrange(1, views(ws@).len() as int) =~= views(ws@).drop_first());
    out
}

// ---------------------------------------------------------------------------
// /proc/net/snmp
/// A counter of the TCP table: the value under the first header `name`.
pub open spec fn snmp_counter(h: Seq<Seq<char>>, v: Seq<Seq<char>>, name: Seq<char>) -> Result<
    u64,
    StatsFault,
> {
    if !seq_has(h, name) {
        Err(StatsFault::MissingCounter(name))
    } else {
        match unsigned_outcome(v[seq_first_pos(h, name)], u64::MAX as int) {
            Ok(x) => Ok(x as u64),
            Err(k) => Err(StatsFault::InvalidCounter(name, k)),
        }
    }
}

/// Retransmitted, received and sent segments of the TCP table.
pub open spec fn snmp_table(h: Seq<Seq<char>>, v: Seq<Seq<char>>) -> Result<(u64, u64, u64), StatsFault> {
    match snmp_counter(h, v, "RetransSegs"@) {
        Err(f) => Err(f),
        Ok(r) => match snmp_counter(h, v, "InSegs"@) {
            Err(f) => Err(f),
            Ok(i) => match snmp_counter(h, v, "OutSegs"@) {
                Err(f) => Err(f),
                Ok(o) => Ok((r, i, o)),
            },
        },
    }
}

/// The TCP counters of `/proc/net/snmp`: the first two `Tcp:` lines are the
/// header and the values; retransmitted, received and sent segments.
pub open spec fn snmp_outcome(content: Seq<char>) -> Result<(u64, u64, u64), StatsFault> {
    let t = lines_starting(lines(content), "Tcp:"@);
    if t.len() < 1 {
        Err(StatsFault::MissingSnmpHeader)
    } else if t.len() < 2 {
        Err(StatsFault::MissingSnmpValues)
    } else {
        let h = skip_first(words(t[0]));
        let v = skip_first(words(t[1]));
        if h.len() != v.len() {
            Err(StatsFault::SnmpLengthMismatch)
        } else {
            snmp_table(h, v)
        }
    }
}

pub open spec fn counters_view(c: TcpCounters) -> (u64, u64, u64) {
    (c.retrans, c.in_segs, c.out_segs)
}

fn snmp_counter_exec(h: &Vec<Vec<char>>, v: &Vec<Vec<char>>, name: &str) -> (r: Result<
    u64,
    StatsError,
>)
    requires
        h@.len() == v@.len(),
    ensures
        match r {
            Ok(x) => snmp_counter(views(h@), views(v@), name@) == Ok::<u64, StatsFault>(x),
            Err(e) => snmp_counter(views(h@), views(v@), name@) == Err::<u64, StatsFault>(
                stats_fault(e),
            ),
        },
{
    match find_word(h, name) {
        None => Err(StatsError::MissingCounter(owned(name))),
        Some(i) => {
            assert(views(v@)[i as int] == v@[i as int]@);
            match parse_unsigned_checked(v[i].as_slice(), 0xffff_ffff_ffff_ffff) {
                Ok(x) => Ok(x),
                Err(k) => Err(StatsError::InvalidCounter(owned(name), k)),
            }
        },
    }
}

/// Reads the TCP segment counters of `/proc/net/snmp`.
pub fn parse_tcp_snmp(content: &str) -> (r: Result<TcpCounters, StatsError>)
    ensures
        match r {
            Ok(c) => snmp_outcome(content@) == Ok::<(u64, u64, u64), StatsFault>(counters_view(c)),
            Err(e) => snmp_outcome(content@) == Err::<(u64, u64, u64), StatsFault>(stats_fault(e)),
        },
{
    let cs = chars_of(content);
    let ls = split_lines(cs.as_slice());
    let t = lines_starting_exec(&ls, "Tcp:");
    if t.len() < 1 {
        return Err(StatsError::MissingSnmpHeader);
    }
    if t.len() < 2 {
        return Err(StatsError::MissingSnmpValues);
    }
    assert(views(t@)[0] == t@[0]@);
    assert(views(t@)[1] == t@[1]@);
    let h = words_after_first(t[0].as_slice());
    let v = words_after_first(t[1].as_slice());
    if h.len() != v.len() {
        return Err(StatsError::SnmpLengthMismatch);
    }
    snmp_table_exec(&h, &v)
}

fn snmp_table_exec(h: &Vec<Vec<char>>, v: &Vec<Vec<char>>) -> (r: Result<TcpCounters, StatsError>)
    requires
        h@.len() == v@.len(),
    ensures
        match r {
            Ok(c) => snmp_table(views(h@), views(v@)) == Ok::<(u64, u64, u64), StatsFault>(
                counters_view(c),
            ),
            Err(e) => snmp_table(views(h@), views(v@)) == Err::<(u64, u64, u64), StatsFault>(
                stats_fault(e),
            ),
        },
{
    let retrans = snmp_counter_exec(h, v, "RetransSegs")?;
    let in_segs = snmp_counter_exec(h, v, "InSegs")?;
    let out_segs = snmp_counter_exec(h, v, "OutSegs")?;
    Ok(TcpCounters { retrans, in_segs, out_segs })
}

// ---------------------------------------------------------------------------
// /proc/net/dev
/// The byte counters of the first line of `/proc/net/dev` from the `i`-th
/// on whose name (before `:`, trimmed) is the interface: the 1st and 9th
/// fields after the colon; a line with fewer fields ends the search.
pub open spec fn dev_scan(ls: Seq<Seq<char>>, iface: Seq<char>, i: int) -> Result<(u64, u64), StatsFault>
    decreases ls.len() - i,
{
    if i < 0 || i >= ls.len() {
        Err(StatsFault::MissingInterface(iface))
    } else {
        match split_once(ls[i], ':') {
            None => dev_scan(ls, iface, i + 1),
            Some((name, values)) => if trim(name) != iface {
                dev_scan(ls, iface, i + 1)
            } else {
                let f = words(values);
                if f.len() < 9 {
                    Err(StatsFault::MissingInterface(iface))
                } else {
                    match unsigned_outcome(f[0], u64::MAX as int) {
                        Err(k) => Err(StatsFault::InvalidField("interface rx_bytes"@, k)),
                        Ok(rx) => match unsigned_outcome(f[8], u64::MAX as int) {
                            Err(k) => Err(StatsFault::InvalidField("interface tx_bytes"@, k)),
                            Ok(tx) => Ok((rx as u64, tx as u64)),
                        },
                    }
                }
            },
        }
    }
}

/// A line of `/proc/net/dev` that names the interface: its text before the
/// first `:`, trimmed, is exactly the interface's name.
pub open spec fn line_names(line: Seq<char>, iface: Seq<char>) -> bool {
    match split_once(line, ':') {
        Some((name, _)) => trim(name) == iface,
        None => false,
    }
}

/// The counters of a line: its text after the first `:`.
pub open spec fn line_counters(line: Seq<char>) -> Seq<char> {
    match split_once(line, ':') {
        Some((_, values)) => values,
        None => seq![],
    }
}

proof fn lemma_dev_scan_from(ls: Seq<Seq<char>>, iface: Seq<char>, i: int)
    requires
        0 <= i <= ls.len(),
    ensures
        (forall|k: int| i <= k < ls.len() ==> !line_names(#[trigger] ls[k], iface)) ==> dev_scan(
            ls,
            iface,
            i,
        ) == Err::<(u64, u64), StatsFault>(StatsFault::MissingInterface(iface)),
        forall|k: int|
            #![trigger ls[k]]
            i <= k < ls.len() && line_names(ls[k], iface) && (forall|j: int|
                i <= j < k ==> !line_names(#[trigger] ls[j], iface)) ==> dev_scan(ls, iface, i)
                == dev_scan(ls, iface, k),
    decreases ls.len() - i,
{
    if i < ls.len() {
        lemma_dev_scan_from(ls, iface, i + 1);
        assert forall|k: int|
            #![trigger ls[k]]
            i <= k < ls.len() && line_names(ls[k], iface) && (forall|j: int|
                i <= j < k ==> !line_names(#[trigger] ls[j], iface)) implies dev_scan(ls, iface, i)
            == dev_scan(ls, iface, k) by {
            if k > i {
                assert(!line_names(ls[i], iface));
                assert forall|j: int| i + 1 <= j < k implies !line_names(#[trigger] ls[j], iface) by {}
            }
        }
        if forall|k: int| i <= k < ls.len() ==> !line_names(#[trigger] ls[k], iface) {
            assert(!line_names(ls[i], iface));
        }
    }
}

/// `/proc/net/dev` is read at the first line that names the interface:
/// the result is `Ok` exactly when that line has at least nine counters
/// whose first and ninth parse as `u64`, and then it holds those two
/// (received and sent bytes); lines naming other interfaces never count,
/// and with no line naming the interface the interface is missing.
pub proof fn lemma_dev_reads_named_interface(ls: Seq<Seq<char>>, iface: Seq<char>, k: int)
    requires
        0 <= k < ls.len(),
        line_names(ls[k], iface),
        forall|j: int| 0 <= j < k ==> !line_names(#[trigger] ls[j], iface),
    ensures
        words(line_counters(ls[k])).len() < 9 ==> dev_scan(ls, iface, 0) == Err::<
            (u64, u64),
            StatsFault,
        >(StatsFault::MissingInterface(iface)),
        forall|rx: u64, tx: u64|
            dev_scan(ls, iface, 0) == Ok::<(u64, u64), StatsFault>((rx, tx)) <==> (words(
                line_counters(ls[k]),
            ).len() >= 9 && unsigned_outcome(words(line_counters(ls[k]))[0], u64::MAX as int)
                == Ok::<int, IntErrorKind>(rx as int) && unsigned_outcome(
                words(line_counters(ls[k]))[8],
                u64::MAX as int,
            ) == Ok::<int, IntErrorKind>(tx as int)),
{
    lemma_dev_scan_from(ls, iface, 0);
    assert(dev_scan(ls, iface, 0) == dev_scan(ls, iface, k));
    let f = words(line_counters(ls[k]));
    if f.len() >= 9 {
        crate::text::lemma_unsigned_outcome_range(f[0], u64::MAX as int);
        crate::text::lemma_unsigned_outcome_range(f[8], u64::MAX as int);
    }
}

/// With no line naming the interface, the interface is missing.
pub proof fn lemma_dev_missing_interface(ls: Seq<Seq<char>>, iface: Seq<char>)
    requires
        forall|k: int| 0 <= k < ls.len() ==> !line_names(#[trigger] ls[k], iface),
    ensures
        dev_scan(ls, iface, 0) == Err::<(u64, u64), StatsFault>(StatsFault::MissingInterface(iface)),
{
    lemma_dev_scan_from(ls, iface, 0);
}

/// Reads the received and sent bytes of an interface from `/proc/net/dev`.
pub fn parse_iface_bytes(content: &str, active_iface: &str) -> (r: Result<IfaceBytes, StatsError>)
    ensures
        match r {
            Ok(b) => dev_scan(lines(content@), active_iface@, 0) == Ok::<(u64, u64), StatsFault>(
                (b.rx_bytes, b.tx_bytes),
            ),
            Err(e) => dev_scan(lines(content@), active_iface@, 0) == Err::<(u64, u64), StatsFault>(
                stats_fault(e),
            ),
        },
{
    let cs = chars_of(content);
    let ls = split_lines(cs.as_slice());
    let ghost lv = views(ls@);
    let mut i: usize = 0;
    while i < ls.len()
        invariant
            lv == views(ls@),
            lv == lines(content@),
            i <= ls@.len(),
            dev_scan(lv, active_iface@, 0) == dev_scan(lv, active_iface@, i as int),
        decreases ls@.len() - i,
    {
        assert(lv[i as int] == ls@[i as int]@);
        match split_once_char(ls[i].as_slice(), ':') {
            None => {},
            Some((name, values)) => {
                let trimmed = trim_chars(name.as_slice());
                if chars_eq_str(trimmed.as_slice(), active_iface) {
                    let f = split_whitespace(values.as_slice());
                    if f.len() < 9 {
                        return Err(StatsError::MissingInterface(owned(active_iface)));
                    }
                    assert(views(f@)[0] == f@[0]@);
                    assert(views(f@)[8] == f@[8]@);
                    let rx = match parse_unsigned_checked(f[0].as_slice(), 0xffff_ffff_ffff_ffff) {
                        Ok(x) => x,
                        Err(k) => {
                            return Err(StatsError::InvalidField(owned("interface rx_bytes"), k));
                        },
                    };
                    let tx = match parse_unsigned_checked(f[8].as_slice(), 0xffff_ffff_ffff_ffff) {
                        Ok(x) => x,
                        Err(k) => {
                            return Err(StatsError::InvalidField(owned("interface tx_bytes"), k));
                        },
                    };
                    return Ok(IfaceBytes { rx_bytes: rx, tx_bytes: tx });
                }
            },
        }
        i += 1;
    }
    Err(StatsError::MissingInterface(owned(active_iface)))
}

// ---------------------------------------------------------------------------
// /proc/net/sockstat
/// The value after the first field `name` of the `TCP:` line.
pub open spec fn sock_field(f: Seq<Seq<char>>, name: Seq<char>) -> Result<u32, StatsFault> {
    if !seq_has(f, name) {
        Err(StatsFault::MissingSockstatField(name))
    } else if seq_first_pos(f, name) + 1 >= f.len() {
        Err(StatsFault::MissingSockstatValue(name))
    } else {
        match unsigned_outcome(f[seq_first_pos(f, name) + 1], u32::MAX as int) {
            Ok(x) => Ok(x as u32),
            Err(k) => Err(StatsFault::InvalidSockstat(name, k)),
        }
    }
}

/// The TCP socket counts of the first `TCP:` line of `/proc/net/sockstat`.
pub open spec fn sockstat_outcome(content: Seq<char>) -> Result<(u32, u32, u32, u32, u32), StatsFault> {
    let t = lines_starting(lines(content), "TCP:"@);
    if t.len() == 0 {
        Err(StatsFault::MissingSockstatLine)
    } else {
        sock_fields(skip_first(words(t[0])))
    }
}

/// Sockets in use, orphaned, in TIME-WAIT, allocated, and memory pages.
pub open spec fn sock_fields(f: Seq<Seq<char>>) -> Result<(u32, u32, u32, u32, u32), StatsFault> {
    {
        match sock_field(f, "inuse"@) {
            Err(e) => Err(e),
            Ok(a) => match sock_field(f, "orphan"@) {
                Err(e) => Err(e),
                Ok(b) => match sock_field(f, "tw"@) {
                    Err(e) => Err(e),
                    Ok(c) => match sock_field(f, "alloc"@) {
                        Err(e) => Err(e),
                        Ok(d) => match sock_field(f, "mem"@) {
                            Err(e) => Err(e),
                            Ok(m) => Ok((a, b, c, d, m)),
                        },
                    },
                },
            },
        }
    }
}

pub open spec fn sockstat_view(s: SockStat) -> (u32, u32, u32, u32, u32) {
    (s.tcp_in_use, s.tcp_orphan, s.tcp_tw, s.tcp_alloc, s.tcp_mem)
}

fn sock_field_exec(f: &Vec<Vec<char>>, name: &str) -> (r: Result<u32, StatsError>)
    ensures
        match r {
            Ok(x) => sock_field(views(f@), name@) == Ok::<u32, StatsFault>(x),
            Err(e) => sock_field(views(f@), name@) == Err::<u32, StatsFault>(stats_fault(e)),
        },
{
    match find_word(f, name) {
        None => Err(StatsError::MissingSockstatField(owned(name))),
        Some(i) => {
            if i >= f.len() - 1 {
                return Err(StatsError::MissingSockstatValue(owned(name)));
            }
            assert(views(f@)[i + 1] == f@[i + 1]@);
            match parse_unsigned_checked(f[i + 1].as_slice(), 0xffff_ffff) {
                Ok(x) => Ok(x as u32),
                Err(k) => Err(StatsError::InvalidSockstat(owned(name), k)),
            }
        },
    }
}

/// Reads the TCP socket counts of `/proc/net/sockstat`.
pub fn parse_sockstat(content: &str) -> (r: Result<SockStat, StatsError>)
    ensures
        match r {
            Ok(s) => sockstat_outcome(content@) == Ok::<(u32, u32, u32, u32, u32), StatsFault>(
                sockstat_view(s),
            ),
            Err(e) => sockstat_outcome(content@) == Err::<(u32, u32, u32, u32, u32), StatsFault>(
                stats_fault(e),
            ),
        },
{
    let cs = chars_of(content);
    let ls = split_lines(cs.as_slice());
    let t = lines_starting_exec(&ls, "TCP:");
    if t.len() == 0 {
        return Err(StatsError::MissingSockstatLine);
    }
    assert(views(t@)[0] == t@[0]@);
    let f = words_after_first(t[0].as_slice());
    sock_fields_exec(&f)
}

fn sock_fields_exec(f: &Vec<Vec<char>>) -> (r: Result<SockStat, StatsError>)
    ensures
        match r {
            Ok(s) => sock_fields(views(f@)) == Ok::<(u32, u32, u32, u32, u32), StatsFault>(
                sockstat_view(s),
            ),
            Err(e) => sock_fields(views(f@)) == Err::<(u32, u32, u32, u32, u32), StatsFault>(
                stats_fault(e),
            ),
        },
{
    let tcp_in_use = match sock_field_exec(f, "inuse") {
        Ok(x) => x,
        Err(e) => return Err(e),
    };
    let tcp_orphan = match sock_field_exec(f, "orphan") {
        Ok(x) => x,
        Err(e) => return Err(e),
    };
    let tcp_tw = match sock_field_exec(f, "tw") {
        Ok(x) => x,
        Err(e) => return Err(e),
    };
    let tcp_alloc = match sock_field_exec(f, "alloc") {
        Ok(x) => x,
        Err(e) => return Err(e),
    };
    let tcp_mem = match sock_field_exec(f, "mem") {
        Ok(x) => x,
        Err(e) => return Err(e),
    };
    Ok(SockStat { tcp_in_use, tcp_orphan, tcp_tw, tcp_alloc, tcp_mem })
}

// ---------------------------------------------------------------------------
// ss output
/// The number after the first `prefix` of a line, up to the next
/// whitespace.
pub open spec fn ss_value(line: Seq<char>, prefix: Seq<char>) -> Option<u32> {
    match find_from(line, prefix, 0) {
        None => None,
        Some(i) => {
            let rest = line.subrange(i + prefix.len(), line.len() as int);
            parse_u32(rest.subrange(0, first_ws_from(rest, 0)))
        },
    }
}

/// Reads a `prefix<number>` value of an `ss` line, such as `cwnd:10`.
pub fn extract_ss_val(line: &str, prefix: &str) -> (r: Option<u32>)
    ensures
        r == ss_value(line@, prefix@),
{
    let l = chars_of(line);
    let p = chars_of(prefix);
    match find_chars(l.as_slice(), p.as_slice()) {
        None => None,
        Some(i) => {
            let start: usize = l.len() - (l.len() - i - p.len());
            let rest = slice_of(l.as_slice(), start, l.len());
            let end = first_ws(rest.as_slice());
            let digits = slice_of(rest.as_slice(), 0, end);
            parse_u32_chars(digits.as_slice())
        },
    }
}

// ---------------------------------------------------------------------------
// DNS properties
/// Index of the last `c` in `s`, when there is one.
pub open spec fn last_index(s: Seq<char>, c: char) -> int {
    choose|i: int| 0 <= i < s.len() && s[i] == c && forall|j: int| i < j < s.len() ==> s[j] != c
}

proof fn lemma_last_index(s: Seq<char>, c: char, i: int)
    requires
        0 <= i < s.len(),
        s[i] == c,
        forall|j: int| i < j < s.len() ==> s[j] != c,
    ensures
        last_index(s, c) == i,
{
    let k = last_index(s, c);
    assert(0 <= k < s.len() && s[k] == c && forall|j: int| k < j < s.len() ==> s[j] != c);
    if k < i {
        assert(s[i] != c);
    }
    if i < k {
        assert(s[k] != c);
    }
}

fn rfind_char(s: &[char], c: char) -> (r: Option<usize>)
    ensures
        r is None <==> !has_char(s@, c),
        r matches Some(i) ==> i < s@.len() && i == last_index(s@, c),
{
    let mut k: usize = s.len();
    while k > 0
        invariant
            k <= s@.len(),
            forall|j: int| k <= j < s@.len() ==> s@[j] != c,
        decreases k,
    {
        if s[k - 1] == c {
            proof {
                lemma_last_index(s@, c, k - 1);
            }
            return Some(k - 1);
        }
        k -= 1;
    }
    None
}

/// The interface (`system` for the global servers) and the trimmed value of
/// a DNS server property of `getprop` output, `[net.<iface>.dns<N>]: [<value>]`
/// or `[net.dns<N>]: [<value>]`; the value is not checked to be an address.
pub open spec fn dns_entry(line: Seq<char>) -> Option<(Seq<char>, Seq<char>)> {
    match find_from(line, "]: ["@, 0) {
        None => None,
        Some(i) => {
            let raw_key = line.subrange(0, i);
            let raw_value = line.subrange(i + 4, line.len() as int);
            if starts_with(raw_key, "[net."@) {
                let property = raw_key.subrange(5, raw_key.len() as int);
                let (iface, dns_key) = if has_char(property, '.') {
                    let j = last_index(property, '.');
                    (property.subrange(0, j), property.subrange(j + 1, property.len() as int))
                } else {
                    ("system"@, property)
                };
                if starts_with(dns_key, "dns"@) && dns_key.len() > 3 && all_digits(
                    dns_key.subrange(3, dns_key.len() as int),
                ) && raw_value.len() > 0 && raw_value.last() == ']' {
                    Some((iface, trim(raw_value.drop_last())))
                } else {
                    None
                }
            } else {
                None
            }
        },
    }
}

pub fn dns_property(line: &str) -> (r: Option<(String, String)>)
    ensures
        match dns_entry(line@) {
            Some((i, v)) => r matches Some(p) && p.0@ == i && p.1@ == v,
            None => r is None,
        },
{
    let l = chars_of(line);
    let sep = chars_of("]: [");
    proof {
        reveal_strlit("]: [");
        assert(sep@.len() == 4);
    }
    let i = match find_chars(l.as_slice(), sep.as_slice()) {
        Some(i) => i,
        None => return None,
    };
    let n = l.len();
    assert(i + 4 <= n);
    let raw_key = slice_of(l.as_slice(), 0, i);
    let raw_value = slice_of(l.as_slice(), i + 4, n);
    if !chars_starts_with(raw_key.as_slice(), "[net.") {
        return None;
    }
    proof {
        reveal_strlit("[net.");
    }
    let property = slice_of(raw_key.as_slice(), 5, raw_key.len());
    let (iface, dns_key) = match rfind_char(property.as_slice(), '.') {
        Some(j) => (
            slice_of(property.as_slice(), 0, j),
            slice_of(property.as_slice(), j + 1, property.len()),
        ),
        None => (chars_of("system"), property),
    };
    if !chars_starts_with(dns_key.as_slice(), "dns") || dns_key.len() <= 3 {
        return None;
    }
    proof {
        reveal_strlit("dns");
    }
    let slot = slice_of(dns_key.as_slice(), 3, dns_key.len());
    if !chars_all_digits(slot.as_slice()) {
        return None;
    }
    if raw_value.len() == 0 || raw_value[raw_value.len() - 1] != ']' {
        return None;
    }
    let inner = slice_of(raw_value.as_slice(), 0, raw_value.len() - 1);
    assert(inner@ =~= raw_value@.drop_last());
    let value = trim_chars(inner.as_slice());
    Some((string_of(iface.as_slice()), string_of(value.as_slice())))
}

/// The number of lines of a tool's output, as a `u32` (wrapping).
pub fn count_lines(text: &str) -> (r: u32)
    ensures
        r == lines(text@).len() as u32,
{
    let cs = chars_of(text);
    let ls = split_lines(cs.as_slice());
    ls.len() as u32
}

/// `k` is the first position of `name` among `ws`.
pub open spec fn first_at(ws: Seq<Seq<char>>, name: Seq<char>, k: int) -> bool {
    0 <= k < ws.len() && ws[k] == name && forall|j: int| 0 <= j < k ==> ws[j] != name
}

/// The TCP segment counters are the values under the first `RetransSegs`,
/// `InSegs` and `OutSegs` headers, each parsed as `u64`; a missing header
/// is reported by name.
pub proof fn lemma_snmp_reads_named_columns(
    h: Seq<Seq<char>>,
    v: Seq<Seq<char>>,
    a: int,
    b: int,
    c: int,
)
    requires
        h.len() == v.len(),
        first_at(h, "RetransSegs"@, a),
        first_at(h, "InSegs"@, b),
        first_at(h, "OutSegs"@, c),
    ensures
        forall|r: u64, i: u64, o: u64|
            snmp_table(h, v) == Ok::<(u64, u64, u64), StatsFault>((r, i, o)) <==> (unsigned_outcome(
                v[a],
                u64::MAX as int,
            ) == Ok::<int, IntErrorKind>(r as int) && unsigned_outcome(v[b], u64::MAX as int)
                == Ok::<int, IntErrorKind>(i as int) && unsigned_outcome(v[c], u64::MAX as int)
                == Ok::<int, IntErrorKind>(o as int)),
{
    lemma_seq_first_pos(h, "RetransSegs"@, a);
    lemma_seq_first_pos(h, "InSegs"@, b);
    lemma_seq_first_pos(h, "OutSegs"@, c);
    lemma_unsigned_outcome_range(v[a], u64::MAX as int);
    lemma_unsigned_outcome_range(v[b], u64::MAX as int);
    lemma_unsigned_outcome_range(v[c], u64::MAX as int);
}

/// Without a `RetransSegs` header the counters are missing, by that name.
pub proof fn lemma_snmp_missing_header(h: Seq<Seq<char>>, v: Seq<Seq<char>>)
    requires
        forall|k: int| 0 <= k < h.len() ==> h[k] != "RetransSegs"@,
    ensures
        snmp_table(h, v) == Err::<(u64, u64, u64), StatsFault>(
            StatsFault::MissingCounter("RetransSegs"@),
        ),
{
}

/// The socket counts are the words right after the first `inuse`,
/// `orphan`, `tw`, `alloc` and `mem` of the `TCP:` line, each parsed as
/// `u32`.
pub proof fn lemma_sockstat_reads_named_values(
    f: Seq<Seq<char>>,
    a: int,
    b: int,
    c: int,
    d: int,
    e: int,
)
    requires
        first_at(f, "inuse"@, a) && a + 1 < f.len(),
        first_at(f, "orphan"@, b) && b + 1 < f.len(),
        first_at(f, "tw"@, c) && c + 1 < f.len(),
        first_at(f, "alloc"@, d) && d + 1 < f.len(),
        first_at(f, "mem"@, e) && e + 1 < f.len(),
    ensures
        forall|x1: u32, x2: u32, x3: u32, x4: u32, x5: u32|
            sock_fields(f) == Ok::<(u32, u32, u32, u32, u32), StatsFault>((x1, x2, x3, x4, x5)) <==> (
            unsigned_outcome(f[a + 1], u32::MAX as int) == Ok::<int, IntErrorKind>(x1 as int)
                && unsigned_outcome(f[b + 1], u32::MAX as int) == Ok::<int, IntErrorKind>(x2 as int)
                && unsigned_outcome(f[c + 1], u32::MAX as int) == Ok::<int, IntErrorKind>(x3 as int)
                && unsigned_outcome(f[d + 1], u32::MAX as int) == Ok::<int, IntErrorKind>(x4 as int)
                && unsigned_outcome(f[e + 1], u32::MAX as int) == Ok::<int, IntErrorKind>(x5 as int)),
{
    lemma_seq_first_pos(f, "inuse"@, a);
    lemma_seq_first_pos(f, "orphan"@, b);
    lemma_seq_first_pos(f, "tw"@, c);
    lemma_seq_first_pos(f, "alloc"@, d);
    lemma_seq_first_pos(f, "mem"@, e);
    lemma_unsigned_outcome_range(f[a + 1], u32::MAX as int);
    lemma_unsigned_outcome_range(f[b + 1], u32::MAX as int);
    lemma_unsigned_outcome_range(f[c + 1], u32::MAX as int);
    lemma_unsigned_outcome_range(f[d + 1], u32::MAX as int);
    lemma_unsigned_outcome_range(f[e + 1], u32::MAX as int);
}

} // verus!

