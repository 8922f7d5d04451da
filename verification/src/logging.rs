//! The service log: UTC timestamps of its entries and the rotation that
//! keeps it short.
use vstd::prelude::*;

use crate::text::{
    decimal, lines, owned, push_chars, push_str, split_lines, string_of, u64_to_string, views,
};

verus! {

/// Lines above which the log is rotated.
pub const MAX_LOG_LINES: usize = 200;

/// Gregorian leap year.
pub open spec fn is_leap(y: int) -> bool {
    (y % 4 == 0 && y % 100 != 0) || y % 400 == 0
}

pub open spec fn year_days(y: int) -> int {
    if is_leap(y) {
        366
    } else {
        365
    }
}

/// Year and day of that year for `d` days after January 1st of `y`.
pub open spec fn split_years(d: int, y: int) -> (int, int)
    decreases d,
{
    if d < year_days(y) || d < 0 {
        (y, d)
    } else {
        split_years(d - year_days(y), y + 1)
    }
}

pub open spec fn month_days(y: int, m: int) -> int {
    if m == 1 {
        if is_leap(y) {
            29
        } else {
            28
        }
    } else if m == 3 || m == 5 || m == 8 || m == 10 {
        30
    } else {
        31
    }
}

/// Month (from 0) and day of that month for day `d` of year `y`, counting
/// from month `m`.
pub open spec fn split_months(d: int, y: int, m: int) -> (int, int)
    decreases 12 - m,
{
    if m >= 12 {
        (0, d)
    } else if d < month_days(y, m) {
        (m, d)
    } else {
        split_months(d - month_days(y, m), y, m + 1)
    }
}

/// The UTC calendar time of a Unix time: year, month and day (from 1),
/// hours, minutes, seconds.
pub open spec fn civil_time(secs: int) -> (int, int, int, int, int, int) {
    let days = secs / 86400;
    let t = secs % 86400;
    let (y, d) = split_years(days, 1970);
    let (m, dd) = split_months(d, y, 0);
    (y, m + 1, dd + 1, t / 3600, (t % 3600) / 60, t % 60)
}

fn is_leap_exec(y: u64) -> (r: bool)
    ensures
        r == is_leap(y as int),
{
    (y % 4 == 0 && y % 100 != 0) || y % 400 == 0
}

fn month_days_exec(y: u64, m: u64) -> (r: u64)
    requires
        m < 12,
    ensures
        r == month_days(y as int, m as int),
{
    if m == 1 {
        if is_leap_exec(y) {
            29
        } else {
            28
        }
    } else if m == 3 || m == 5 || m == 8 || m == 10 {
        30
    } else {
        31
    }
}

fn split_years_exec(days: u64) -> (r: (u64, u64))
    requires
        days <= u64::MAX / 86400,
    ensures
        (r.0 as int, r.1 as int) == split_years(days as int, 1970),
        r.1 <= days,
{
    let mut y: u64 = 1970;
    let mut d: u64 = days;
    loop
        invariant
            days <= u64::MAX / 86400,
            split_years(days as int, 1970) == split_years(d as int, y as int),
            y + d <= 1970 + days,
            d <= days,
        decreases d,
    {
        let len: u64 = if is_leap_exec(y) {
            366
        } else {
            365
        };
        if d < len {
            return (y, d);
        }
        d = d - len;
        y = y + 1;
    }
}

fn split_months_exec(d0: u64, y: u64) -> (r: (u64, u64))
    ensures
        (r.0 as int, r.1 as int) == split_months(d0 as int, y as int, 0),
        r.0 < 12,
        r.1 <= d0,
{
    let mut d = d0;
    let mut m: u64 = 0;
    while m < 12
        invariant
            m <= 12,
            d <= d0,
            split_months(d0 as int, y as int, 0) == split_months(d as int, y as int, m as int),
        decreases 12 - m,
    {
        let dim = month_days_exec(y, m);
        if d < dim {
            return (m, d);
        }
        d = d - dim;
        m = m + 1;
    }
    (0, d)
}

/// The calendar time of a Unix time, UTC.
pub fn civil_from_unix(secs: u64) -> (r: (u64, u64, u64, u64, u64, u64))
    ensures
        (r.0 as int, r.1 as int, r.2 as int, r.3 as int, r.4 as int, r.5 as int) == civil_time(
            secs as int,
        ),
{
    let days = secs / 86400;
    let t = secs % 86400;
    let (y, d) = split_years_exec(days);
    let (m, dd) = split_months_exec(d, y);
    (y, m + 1, dd + 1, t / 3600, (t % 3600) / 60, t % 60)
}

/// `n` in decimal, zero-padded to `width` digits.
pub open spec fn padded(n: nat, width: nat) -> Seq<char> {
    let digits = decimal(n);
    if digits.len() >= width {
        digits
    } else {
        Seq::new((width - digits.len()) as nat, |i: int| '0') + digits
    }
}

fn push_padded(out: &mut String, n: u64, width: usize)
    requires
        width <= 4,
    ensures
        final(out)@ == old(out)@ + padded(n as nat, width as nat),
{
    let digits = u64_to_string(n);
    let len = crate::text::chars_of(digits.as_str()).len();
    let ghost start = out@;
    let mut k: usize = len;
    while k < width
        invariant
            len == decimal(n as nat).len(),
            len <= k,
            k <= width || width < len,
            len >= width ==> k == len,
            out@ == start + Seq::new((k - len) as nat, |i: int| '0'),
        decreases width - k,
    {
        let ghost before = out@;
        crate::text::push_str(out, "0");
        proof {
            reveal_strlit("0");
            assert(Seq::new((k + 1 - len) as nat, |i: int| '0') =~= Seq::new(
                (k - len) as nat,
                |i: int| '0',
            ).push('0'));
        }
        k += 1;
    }
    let ghost pad = out@;
    push_str(out, digits.as_str());
    proof {
        if len >= width {
            assert(Seq::new((k - len) as nat, |i: int| '0') =~= seq![]);
            assert(out@ =~= start + decimal(n as nat));
        } else {
            assert(k == width);
            assert(out@ =~= start + (Seq::new((width - len) as nat, |i: int| '0') + decimal(n as nat)));
        }
    }
}

/// The timestamp of a log entry: `YYYY-MM-DD HH:MM:SS`, UTC.
pub open spec fn timestamp_text(secs: int) -> Seq<char> {
    let c = civil_time(secs);
    padded(c.0 as nat, 4) + "-"@ + padded(c.1 as nat, 2) + "-"@ + padded(c.2 as nat, 2) + " "@
        + padded(c.3 as nat, 2) + ":"@ + padded(c.4 as nat, 2) + ":"@ + padded(c.5 as nat, 2)
}

pub fn timestamp(secs: u64) -> (r: String)
    ensures
        r@ == timestamp_text(secs as int),
{
    let (y, mo, d, h, mi, s) = civil_from_unix(secs);
    let mut out = String::new();
    push_padded(&mut out, y, 4);
    push_str(&mut out, "-");
    push_padded(&mut out, mo, 2);
    push_str(&mut out, "-");
    push_padded(&mut out, d, 2);
    push_str(&mut out, " ");
    push_padded(&mut out, h, 2);
    push_str(&mut out, ":");
    push_padded(&mut out, mi, 2);
    push_str(&mut out, ":");
    push_padded(&mut out, s, 2);
    assert(out@ =~= timestamp_text(secs as int));
    out
}

/// A log entry: the timestamp, ` - `, the message and a line break.
pub fn log_entry(secs: u64, message: &str) -> (r: String)
    ensures
        r@ == timestamp_text(secs as int) + " - "@ + message@ + "\n"@,
{
    let mut out = timestamp(secs);
    push_str(&mut out, " - ");
    push_str(&mut out, message);
    push_str(&mut out, "\n");
    out
}

/// An entry of the debug log: the timestamp, the process id in brackets,
/// the message and a line break.
pub fn debug_entry(secs: u64, pid: u32, message: &str) -> (r: String)
    ensures
        r@ == timestamp_text(secs as int) + " [PID:"@ + decimal(pid as nat) + "] "@ + message@
            + "\n"@,
{
    let mut out = timestamp(secs);
    push_str(&mut out, " [PID:");
    let p = u64_to_string(pid as u64);
    push_str(&mut out, p.as_str());
    push_str(&mut out, "] ");
    push_str(&mut out, message);
    push_str(&mut out, "\n");
    out
}

/// Lines `ls[a..]`, each followed by a line break.
pub open spec fn joined_from(ls: Seq<Seq<char>>, a: int) -> Seq<char>
    decreases ls.len() - a,
{
    if a < 0 || a >= ls.len() {
        seq![]
    } else {
        ls[a] + "\n"@ + joined_from(ls, a + 1)
    }
}

/// The log after rotation: when it has more than 200 lines, its last 100
/// lines, each ended by a line break; otherwise it is left as it is.
pub open spec fn rotated(content: Seq<char>) -> Option<Seq<char>> {
    let ls = lines(content);
    if ls.len() > 200 {
        Some(joined_from(ls, ls.len() - 100))
    } else {
        None
    }
}

pub fn rotate_log(content: &str) -> (r: Option<String>)
    ensures
        match rotated(content@) {
            Some(t) => r matches Some(s) && s@ == t,
            None => r is None,
        },
{
    let cs = crate::text::chars_of(content);
    let ls = split_lines(cs.as_slice());
    let ghost lv = views(ls@);
    if ls.len() <= MAX_LOG_LINES {
        return None;
    }
    let start = ls.len() - MAX_LOG_LINES / 2;
    let mut out = String::new();
    let mut i: usize = start;
    assert(out@ + joined_from(lv, start as int) =~= joined_from(lv, start as int));
    while i < ls.len()
        invariant
            lv == views(ls@),
            start <= i <= ls@.len(),
            joined_from(lv, start as int) == out@ + joined_from(lv, i as int),
        decreases ls@.len() - i,
    {
        assert(lv[i as int] == ls@[i as int]@);
        let ghost before = out@;
        push_chars(&mut out, ls[i].as_slice());
        push_str(&mut out, "\n");
        assert(joined_from(lv, i as int) == lv[i as int] + "\n"@ + joined_from(lv, i + 1));
        assert(before + joined_from(lv, i as int) =~= out@ + joined_from(lv, i + 1));
        i += 1;
    }
    assert(joined_from(lv, ls@.len() as int) =~= seq![]);
    assert(out@ + seq![] =~= out@);
    Some(out)
}

} // verus!
