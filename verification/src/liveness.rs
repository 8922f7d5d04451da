//! Whether a recorded process still runs this program: the process id kept
//! in a pid or lock file, and the arguments in `/proc/<pid>/cmdline`.
use vstd::prelude::*;

use crate::text::{chars_of, parse_u32, parse_u32_chars, trim, trim_chars};

verus! {

/// The process id written in a pid or lock file: its trimmed content as a
/// `u32`.
pub fn pid_from_text(content: &str) -> (r: Option<u32>)
    ensures
        r == parse_u32(trim(content@)),
{
    let cs = chars_of(content);
    let t = trim_chars(cs.as_slice());
    parse_u32_chars(t.as_slice())
}

/// The fields of a command line after a pending field `acc`, split at each
/// NUL byte as `slice::split` does (a final NUL leaves an empty field).
pub open spec fn nul_fields_from(s: Seq<u8>, acc: Seq<u8>) -> Seq<Seq<u8>>
    decreases s.len(),
{
    if s.len() == 0 {
        seq![acc]
    } else if s[0] == 0 {
        seq![acc] + nul_fields_from(s.drop_first(), seq![])
    } else {
        nul_fields_from(s.drop_first(), acc.push(s[0]))
    }
}

pub open spec fn nul_fields(s: Seq<u8>) -> Seq<Seq<u8>> {
    nul_fields_from(s, seq![])
}

pub open spec fn byte_views(v: Seq<Vec<u8>>) -> Seq<Seq<u8>> {
    v.map_values(|f: Vec<u8>| f@)
}

fn split_nul(s: &[u8]) -> (r: Vec<Vec<u8>>)
    ensures
        byte_views(r@) == nul_fields(s@),
{
    let n = s.len();
    let mut out: Vec<Vec<u8>> = Vec::new();
    let mut cur: Vec<u8> = Vec::new();
    let mut i: usize = 0;
    assert(s@.subrange(0, n as int) =~= s@);
    assert(byte_views(out@) =~= seq![]);
    assert(cur@ =~= seq![]);
    while i < n
        invariant
            n == s@.len(),
            i <= n,
            nul_fields(s@) == byte_views(out@) + nul_fields_from(s@.subrange(i as int, n as int), cur@),
        decreases n - i,
    {
        let ghost rest = s@.subrange(i as int, n as int);
        assert(rest.drop_first() =~= s@.subrange(i + 1, n as int));
        assert(rest[0] == s@[i as int]);
        if s[i] == 0 {
            let ghost old_out = byte_views(out@);
            let ghost field = cur@;
            out.push(cur);
            assert(byte_views(out@) =~= old_out + seq![field]);
            cur = Vec::new();
            assert(cur@ =~= seq![]);
        } else {
            cur.push(s[i]);
        }
        i += 1;
    }
    assert(s@.subrange(n as int, n as int) =~= seq![]);
    let ghost old_out = byte_views(out@);
    let ghost field = cur@;
    out.push(cur);
    assert(byte_views(out@) =~= old_out + seq![field]);
    out
}

/// The bytes of an ASCII text.
pub open spec fn ascii_bytes(s: Seq<char>) -> Seq<u8> {
    s.map_values(|c: char| c as u8)
}

pub open spec fn ends_with_bytes(s: Seq<u8>, suffix: Seq<u8>) -> bool {
    s.len() >= suffix.len() && s.subrange(s.len() - suffix.len(), s.len() as int) == suffix
}

fn ends_with_ascii(field: &[u8], suffix: &[char]) -> (r: bool)
    ensures
        r == ends_with_bytes(field@, ascii_bytes(suffix@)),
{
    let n = field.len();
    let m = suffix.len();
    if n < m {
        return false;
    }
    let mut k: usize = 0;
    while k < m
        invariant
            n == field@.len(),
            m == suffix@.len(),
            m <= n,
            k <= m,
            forall|j: int| 0 <= j < k ==> field@[n - m + j] == (suffix@[j] as u8),
        decreases m - k,
    {
        if field[n - m + k] != suffix[k] as u8 {
            assert(field@.subrange(n - m, n as int)[k as int] != ascii_bytes(suffix@)[k as int]);
            return false;
        }
        k += 1;
    }
    assert(field@.subrange(n - m, n as int) =~= ascii_bytes(suffix@));
    true
}

/// Some argument of the command line ends with `suffix`.
pub open spec fn some_argument_ends_with(cmdline: Seq<u8>, suffix: Seq<char>) -> bool {
    exists|i: int|
        0 <= i < nul_fields(cmdline).len() && ends_with_bytes(
            #[trigger] nul_fields(cmdline)[i],
            ascii_bytes(suffix),
        )
}

/// Some argument of the command line is exactly `arg`.
pub open spec fn some_argument_is(cmdline: Seq<u8>, arg: Seq<char>) -> bool {
    exists|i: int| 0 <= i < nul_fields(cmdline).len() && #[trigger] nul_fields(cmdline)[i] == ascii_bytes(arg)
}

fn any_field(cmdline: &[u8], text: &str, exact: bool) -> (r: bool)
    ensures
        exact ==> r == some_argument_is(cmdline@, text@),
        !exact ==> r == some_argument_ends_with(cmdline@, text@),
{
    let fields = split_nul(cmdline);
    let t = chars_of(text);
    let ghost fv = byte_views(fields@);
    let mut i: usize = 0;
    while i < fields.len()
        invariant
            fv == byte_views(fields@),
            fv == nul_fields(cmdline@),
            t@ == text@,
            i <= fields@.len(),
            exact ==> forall|j: int| 0 <= j < i ==> #[trigger] fv[j] != ascii_bytes(text@),
            !exact ==> forall|j: int| 0 <= j < i ==> !ends_with_bytes(#[trigger] fv[j], ascii_bytes(text@)),
        decreases fields@.len() - i,
    {
        assert(fv[i as int] == fields@[i as int]@);
        let f = fields[i].as_slice();
        let hit = ends_with_ascii(f, t.as_slice());
        if exact {
            if hit && f.len() == t.len() {
                assert(f@ =~= f@.subrange(0, f@.len() as int));
                assert(fv[i as int] == ascii_bytes(text@));
                return true;
            }
            proof {
                if fv[i as int] == ascii_bytes(text@) {
                    assert(f@.subrange(0, f@.len() as int) =~= f@);
                    assert(ends_with_bytes(f@, ascii_bytes(text@)));
                }
            }
        } else if hit {
            return true;
        }
        i += 1;
    }
    false
}

/// The command line is that of this program's daemon: an argument ends
/// with the binary's name.
pub fn runs_daemon(cmdline: &[u8]) -> (r: bool)
    ensures
        r == some_argument_ends_with(cmdline@, "tcp_optimiser"@),
{
    any_field(cmdline, "tcp_optimiser", false)
}

/// The command line is that of a checkpoint restoration: one argument is
/// `restore-checkpoint`.
pub fn runs_restore(cmdline: &[u8]) -> (r: bool)
    ensures
        r == some_argument_is(cmdline@, "restore-checkpoint"@),
{
    any_field(cmdline, "restore-checkpoint", true)
}

} // verus!
