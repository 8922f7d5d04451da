//! Character-level text handling shared by every parser of the crate:
//! Unicode white space, `trim`, `split_whitespace`, `lines`, unsigned decimal
//! parsing and rendering, all stated over `Seq<char>`.
use vstd::prelude::*;
use vstd::string::*;

verus! {

/// `String::push` appends one character.
pub assume_specification[ String::push ](s: &mut String, ch: char)
    ensures
        final(s)@ == old(s)@.push(ch),
;

/// The Unicode `White_Space` property, which `char::is_whitespace`,
/// `str::trim` and `str::split_whitespace` use.
pub open spec fn is_ws(c: char) -> bool {
    let u = c as u32;
    ||| 9 <= u <= 13
    ||| u == 32
    ||| u == 0x85
    ||| u == 0xA0
    ||| u == 0x1680
    ||| 0x2000 <= u <= 0x200A
    ||| u == 0x2028
    ||| u == 0x2029
    ||| u == 0x202F
    ||| u == 0x205F
    ||| u == 0x3000
}

pub fn char_is_ws(c: char) -> (r: bool)
    ensures
        r == is_ws(c),
{
    let u = c as u32;
    (9 <= u && u <= 13) || u == 32 || u == 0x85 || u == 0xA0 || u == 0x1680 || (0x2000 <= u
        && u <= 0x200A) || u == 0x2028 || u == 0x2029 || u == 0x202F || u == 0x205F || u
        == 0x3000
}

pub open spec fn is_digit(c: char) -> bool {
    '0' as u32 <= c as u32 <= '9' as u32
}

pub open spec fn is_ascii_alnum(c: char) -> bool {
    ||| '0' as u32 <= c as u32 <= '9' as u32
    ||| 'a' as u32 <= c as u32 <= 'z' as u32
    ||| 'A' as u32 <= c as u32 <= 'Z' as u32
}

pub fn char_is_digit(c: char) -> (r: bool)
    ensures
        r == is_digit(c),
{
    let u = c as u32;
    48 <= u && u <= 57
}

pub fn char_is_ascii_alnum(c: char) -> (r: bool)
    ensures
        r == is_ascii_alnum(c),
{
    let u = c as u32;
    (48 <= u && u <= 57) || (97 <= u && u <= 122) || (65 <= u && u <= 90)
}

/// The characters of a string slice.
pub fn chars_of(s: &str) -> (v: Vec<char>)
    ensures
        v@ == s@,
{
    let n = s.unicode_len();
    let mut v: Vec<char> = Vec::new();
    let mut i: usize = 0;
    while i < n
        invariant
            n == s@.len(),
            i <= n,
            v@ == s@.subrange(0, i as int),
        decreases n - i,
    {
        v.push(s.get_char(i));
        i += 1;
    }
    v
}

/// A `String` holding exactly the given characters.
pub fn string_of(v: &[char]) -> (s: String)
    ensures
        s@ == v@,
{
    let mut s = String::new();
    let mut i: usize = 0;
    while i < v.len()
        invariant
            i <= v@.len(),
            s@ == v@.subrange(0, i as int),
        decreases v@.len() - i,
    {
        s.push(v[i]);
        i += 1;
    }
    s
}

/// Appends the characters of `t` to `s`.
pub fn push_str(s: &mut String, t: &str)
    ensures
        final(s)@ == old(s)@ + t@,
{
    let v = chars_of(t);
    let mut i: usize = 0;
    while i < v.len()
        invariant
            i <= v@.len(),
            v@ == t@,
            s@ == old(s)@ + v@.subrange(0, i as int),
        decreases v@.len() - i,
    {
        s.push(v[i]);
        i += 1;
    }
}

/// Appends a sequence of characters to `s`.
pub fn push_chars(s: &mut String, v: &[char])
    ensures
        final(s)@ == old(s)@ + v@,
{
    let mut i: usize = 0;
    while i < v.len()
        invariant
            i <= v@.len(),
            s@ == old(s)@ + v@.subrange(0, i as int),
        decreases v@.len() - i,
    {
        s.push(v[i]);
        i += 1;
    }
}

/// A `String` built from a string slice.
pub fn owned(t: &str) -> (s: String)
    ensures
        s@ == t@,
{
    let mut s = String::new();
    push_str(&mut s, t);
    s
}

/// Characters `a..b` of `v`.
pub fn slice_of(v: &[char], a: usize, b: usize) -> (r: Vec<char>)
    requires
        a <= b <= v@.len(),
    ensures
        r@ == v@.subrange(a as int, b as int),
{
    let mut r: Vec<char> = Vec::new();
    let mut i: usize = a;
    while i < b
        invariant
            a <= i <= b,
            b <= v@.len(),
            r@ == v@.subrange(a as int, i as int),
        decreases b - i,
    {
        r.push(v[i]);
        i += 1;
    }
    r
}

/// Sequence equality on characters.
pub fn chars_eq(a: &[char], b: &[char]) -> (r: bool)
    ensures
        r == (a@ == b@),
{
    if a.len() != b.len() {
        return false;
    }
    let mut i: usize = 0;
    while i < a.len()
        invariant
            a@.len() == b@.len(),
            i <= a@.len(),
            forall|j: int| 0 <= j < i ==> a@[j] == b@[j],
        decreases a@.len() - i,
    {
        if a[i] != b[i] {
            return false;
        }
        i += 1;
    }
    assert(a@ =~= b@);
    true
}

/// Equality of a character sequence with a string slice.
pub fn chars_eq_str(a: &[char], b: &str) -> (r: bool)
    ensures
        r == (a@ == b@),
{
    let bv = chars_of(b);
    chars_eq(a, bv.as_slice())
}

/// Equality of two string slices.
pub fn str_eq(a: &str, b: &str) -> (r: bool)
    ensures
        r == (a@ == b@),
{
    let av = chars_of(a);
    chars_eq_str(av.as_slice(), b)
}

pub open spec fn starts_with(s: Seq<char>, p: Seq<char>) -> bool {
    p.len() <= s.len() && s.subrange(0, p.len() as int) == p
}

/// `str::starts_with` with a string pattern.
pub fn chars_starts_with(s: &[char], p: &str) -> (r: bool)
    ensures
        r == starts_with(s@, p@),
{
    let pv = chars_of(p);
    if pv.len() > s.len() {
        return false;
    }
    let head = slice_of(s, 0, pv.len());
    chars_eq(head.as_slice(), pv.as_slice())
}

/// `p` occurs in `s` starting at position `i`.
pub open spec fn occurs_at(s: Seq<char>, p: Seq<char>, i: int) -> bool {
    0 <= i && i + p.len() <= s.len() && s.subrange(i, i + p.len()) == p
}

pub open spec fn contains_seq(s: Seq<char>, p: Seq<char>) -> bool {
    exists|i: int| #[trigger] occurs_at(s, p, i)
}

/// `str::contains` with a string pattern.
pub fn chars_contains(s: &[char], p: &[char]) -> (r: bool)
    ensures
        r == contains_seq(s@, p@),
{
    if p.len() == 0 {
        assert(s@.subrange(0, 0) =~= p@);
        assert(occurs_at(s@, p@, 0));
        return true;
    }
    if p.len() > s.len() {
        assert forall|i: int| !#[trigger] occurs_at(s@, p@, i) by {}
        return false;
    }
    let mut i: usize = 0;
    while i <= s.len() - p.len()
        invariant
            1 <= p@.len() <= s@.len(),
            i <= s@.len() - p@.len() + 1,
            forall|j: int| 0 <= j < i ==> !#[trigger] occurs_at(s@, p@, j),
        decreases s@.len() - p@.len() + 1 - i,
    {
        let window = slice_of(s, i, i + p.len());
        if chars_eq(window.as_slice(), p) {
            assert(occurs_at(s@, p@, i as int));
            return true;
        }
        i += 1;
    }
    assert forall|j: int| !#[trigger] occurs_at(s@, p@, j) by {
        if 0 <= j < i {
        }
    }
    false
}

/// `str::contains` with a string-slice pattern.
pub fn chars_contains_str(s: &[char], p: &str) -> (r: bool)
    ensures
        r == contains_seq(s@, p@),
{
    let pv = chars_of(p);
    chars_contains(s, pv.as_slice())
}

// ---------------------------------------------------------------------------
// trim
pub open spec fn trim_start(s: Seq<char>) -> Seq<char>
    decreases s.len(),
{
    if s.len() > 0 && is_ws(s[0]) {
        trim_start(s.drop_first())
    } else {
        s
    }
}

pub open spec fn trim_end(s: Seq<char>) -> Seq<char>
    decreases s.len(),
{
    if s.len() > 0 && is_ws(s.last()) {
        trim_end(s.drop_last())
    } else {
        s
    }
}

/// `str::trim`: white space removed from both ends.
pub open spec fn trim(s: Seq<char>) -> Seq<char> {
    trim_end(trim_start(s))
}

pub fn trim_chars(s: &[char]) -> (r: Vec<char>)
    ensures
        r@ == trim(s@),
{
    let n = s.len();
    let mut i: usize = 0;
    assert(s@.subrange(0, n as int) =~= s@);
    while i < n && char_is_ws(s[i])
        invariant
            n == s@.len(),
            i <= n,
            trim_start(s@) == trim_start(s@.subrange(i as int, n as int)),
        decreases n - i,
    {
        assert(s@.subrange(i as int, n as int).drop_first() =~= s@.subrange(i + 1, n as int));
        i += 1;
    }
    let ghost t = s@.subrange(i as int, n as int);
    assert(trim_start(t) == t);
    let mut j: usize = n;
    assert(t =~= s@.subrange(i as int, n as int));
    while j > i && char_is_ws(s[j - 1])
        invariant
            n == s@.len(),
            i <= j <= n,
            t == s@.subrange(i as int, n as int),
            trim_end(t) == trim_end(s@.subrange(i as int, j as int)),
        decreases j - i,
    {
        assert(s@.subrange(i as int, j as int).drop_last() =~= s@.subrange(i as int, j - 1));
        j -= 1;
    }
    slice_of(s, i, j)
}

/// `str::trim_start`.
pub fn trim_start_chars(s: &[char]) -> (r: Vec<char>)
    ensures
        r@ == trim_start(s@),
{
    let n = s.len();
    let mut i: usize = 0;
    assert(s@.subrange(0, n as int) =~= s@);
    while i < n && char_is_ws(s[i])
        invariant
            n == s@.len(),
            i <= n,
            trim_start(s@) == trim_start(s@.subrange(i as int, n as int)),
        decreases n - i,
    {
        assert(s@.subrange(i as int, n as int).drop_first() =~= s@.subrange(i + 1, n as int));
        i += 1;
    }
    slice_of(s, i, n)
}

/// `str::trim` on a string slice.
pub fn trim_str(s: &str) -> (r: Vec<char>)
    ensures
        r@ == trim(s@),
{
    let v = chars_of(s);
    trim_chars(v.as_slice())
}

/// What a sequence holds after a push.
pub proof fn lemma_push_contains<T>(s: Seq<T>, x: T, m: T)
    ensures
        s.push(x).contains(m) <==> (s.contains(m) || m == x),
{
    if s.contains(m) {
        let j = choose|j: int| 0 <= j < s.len() && s[j] == m;
        assert(s.push(x)[j] == m);
    }
    if m == x {
        assert(s.push(x)[s.len() as int] == m);
    }
    if s.push(x).contains(m) {
        let j = choose|j: int| 0 <= j < s.push(x).len() && s.push(x)[j] == m;
        if j < s.len() {
            assert(s[j] == m);
        }
    }
}

/// The character sequences held by a vector of character vectors.
pub open spec fn views(v: Seq<Vec<char>>) -> Seq<Seq<char>> {
    v.map_values(|x: Vec<char>| x@)
}

/// `x` occurs in `s`.
pub open spec fn seq_has<T>(s: Seq<T>, x: T) -> bool {
    exists|i: int| 0 <= i < s.len() && s[i] == x
}

/// Index of the first `x` in `s`, when there is one.
pub open spec fn seq_first_pos<T>(s: Seq<T>, x: T) -> int
    recommends
        seq_has(s, x),
{
    choose|i: int| 0 <= i < s.len() && s[i] == x && forall|j: int| 0 <= j < i ==> s[j] != x
}

pub proof fn lemma_seq_first_pos<T>(s: Seq<T>, x: T, i: int)
    requires
        0 <= i < s.len(),
        s[i] == x,
        forall|j: int| 0 <= j < i ==> s[j] != x,
    ensures
        seq_has(s, x),
        seq_first_pos(s, x) == i,
{
    let k = seq_first_pos(s, x);
    assert(0 <= k < s.len() && s[k] == x && forall|j: int| 0 <= j < k ==> s[j] != x);
    if k < i {
        assert(s[k] != x);
    }
    if i < k {
        assert(s[i] != x);
    }
}

/// Position of the first word equal to `w`.
pub fn find_word(ws: &Vec<Vec<char>>, w: &str) -> (r: Option<usize>)
    ensures
        r is None <==> !seq_has(views(ws@), w@),
        r matches Some(i) ==> i < ws@.len() && seq_has(views(ws@), w@) && i == seq_first_pos(
            views(ws@),
            w@,
        ),
{
    let n = ws.len();
    let mut i: usize = 0;
    while i < n
        invariant
            n == ws@.len(),
            i <= n,
            forall|j: int| 0 <= j < i ==> views(ws@)[j] != w@,
        decreases n - i,
    {
        if chars_eq_str(ws[i].as_slice(), w) {
            proof {
                lemma_seq_first_pos(views(ws@), w@, i as int);
            }
            return Some(i);
        }
        i += 1;
    }
    assert forall|j: int| 0 <= j < views(ws@).len() implies views(ws@)[j] != w@ by {}
    None
}

/// Views of owned strings.
pub open spec fn string_views(v: Seq<String>) -> Seq<Seq<char>> {
    v.map_values(|x: String| x@)
}

// ---------------------------------------------------------------------------
// split_whitespace
/// Words of `s` after a pending word `acc`, as `split_whitespace` yields them.
pub open spec fn words_from(s: Seq<char>, acc: Seq<char>) -> Seq<Seq<char>>
    decreases s.len(),
{
    if s.len() == 0 {
        if acc.len() == 0 {
            seq![]
        } else {
            seq![acc]
        }
    } else if is_ws(s[0]) {
        if acc.len() == 0 {
            words_from(s.drop_first(), acc)
        } else {
            seq![acc] + words_from(s.drop_first(), seq![])
        }
    } else {
        words_from(s.drop_first(), acc.push(s[0]))
    }
}

/// `str::split_whitespace`.
pub open spec fn words(s: Seq<char>) -> Seq<Seq<char>> {
    words_from(s, seq![])
}

pub fn split_whitespace(s: &[char]) -> (r: Vec<Vec<char>>)
    ensures
        views(r@) == words(s@),
{
    let n = s.len();
    let mut out: Vec<Vec<char>> = Vec::new();
    let mut cur: Vec<char> = Vec::new();
    let mut i: usize = 0;
    assert(s@.subrange(0, n as int) =~= s@);
    assert(views(out@) =~= seq![]);
    assert(cur@ =~= seq![]);
    while i < n
        invariant
            n == s@.len(),
            i <= n,
            words(s@) == views(out@) + words_from(s@.subrange(i as int, n as int), cur@),
        decreases n - i,
    {
        let ghost rest = s@.subrange(i as int, n as int);
        assert(rest.drop_first() =~= s@.subrange(i + 1, n as int));
        assert(rest[0] == s@[i as int]);
        if char_is_ws(s[i]) {
            if cur.len() > 0 {
                let ghost old_out = views(out@);
                out.push(cur);
                assert(views(out@) =~= old_out + seq![cur@]);
                cur = Vec::new();
                assert(cur@ =~= seq![]);
            }
        } else {
            cur.push(s[i]);
        }
        i += 1;
    }
    assert(s@.subrange(n as int, n as int) =~= seq![]);
    if cur.len() > 0 {
        let ghost old_out = views(out@);
        out.push(cur);
        assert(views(out@) =~= old_out + seq![cur@]);
    } else {
        assert(views(out@) + seq![] =~= views(out@));
    }
    out
}

// ---------------------------------------------------------------------------
// lines
pub open spec fn strip_cr(s: Seq<char>) -> Seq<char> {
    if s.len() > 0 && s.last() == '\r' {
        s.drop_last()
    } else {
        s
    }
}

/// Lines of `s` after a pending line `acc`, as `str::lines` yields them.
pub open spec fn lines_from(s: Seq<char>, acc: Seq<char>) -> Seq<Seq<char>>
    decreases s.len(),
{
    if s.len() == 0 {
        if acc.len() == 0 {
            seq![]
        } else {
            seq![acc]
        }
    } else if s[0] == '\n' {
        seq![strip_cr(acc)] + lines_from(s.drop_first(), seq![])
    } else {
        lines_from(s.drop_first(), acc.push(s[0]))
    }
}

/// `str::lines`.
pub open spec fn lines(s: Seq<char>) -> Seq<Seq<char>> {
    lines_from(s, seq![])
}

pub fn split_lines(s: &[char]) -> (r: Vec<Vec<char>>)
    ensures
        views(r@) == lines(s@),
{
    let n = s.len();
    let mut out: Vec<Vec<char>> = Vec::new();
    let mut cur: Vec<char> = Vec::new();
    let mut i: usize = 0;
    assert(s@.subrange(0, n as int) =~= s@);
    assert(views(out@) =~= seq![]);
    assert(cur@ =~= seq![]);
    while i < n
        invariant
            n == s@.len(),
            i <= n,
            lines(s@) == views(out@) + lines_from(s@.subrange(i as int, n as int), cur@),
        decreases n - i,
    {
        let ghost rest = s@.subrange(i as int, n as int);
        assert(rest.drop_first() =~= s@.subrange(i + 1, n as int));
        assert(rest[0] == s@[i as int]);
        if s[i] == '\n' {
            let line = if cur.len() > 0 && cur[cur.len() - 1] == '\r' {
                slice_of(cur.as_slice(), 0, cur.len() - 1)
            } else {
                slice_of(cur.as_slice(), 0, cur.len())
            };
            assert(line@ =~= strip_cr(cur@));
            let ghost old_out = views(out@);
            out.push(line);
            assert(views(out@) =~= old_out + seq![strip_cr(cur@)]);
            cur = Vec::new();
            assert(cur@ =~= seq![]);
        } else {
            cur.push(s[i]);
        }
        i += 1;
    }
    assert(s@.subrange(n as int, n as int) =~= seq![]);
    if cur.len() > 0 {
        let ghost old_out = views(out@);
        out.push(cur);
        assert(views(out@) =~= old_out + seq![cur@]);
    } else {
        assert(views(out@) + seq![] =~= views(out@));
    }
    out
}

// ---------------------------------------------------------------------------
// split on a character
/// Pieces of `s` after a pending piece `acc`, as `str::split(c)` yields them.
pub open spec fn fields_from(s: Seq<char>, c: char, acc: Seq<char>) -> Seq<Seq<char>>
    decreases s.len(),
{
    if s.len() == 0 {
        seq![acc]
    } else if s[0] == c {
        seq![acc] + fields_from(s.drop_first(), c, seq![])
    } else {
        fields_from(s.drop_first(), c, acc.push(s[0]))
    }
}

/// `str::split` on a character: always at least one piece.
pub open spec fn fields(s: Seq<char>, c: char) -> Seq<Seq<char>> {
    fields_from(s, c, seq![])
}

pub fn split_char(s: &[char], c: char) -> (r: Vec<Vec<char>>)
    ensures
        views(r@) == fields(s@, c),
        r@.len() >= 1,
{
    let n = s.len();
    let mut out: Vec<Vec<char>> = Vec::new();
    let mut cur: Vec<char> = Vec::new();
    let mut i: usize = 0;
    assert(s@.subrange(0, n as int) =~= s@);
    assert(views(out@) =~= seq![]);
    assert(cur@ =~= seq![]);
    while i < n
        invariant
            n == s@.len(),
            i <= n,
            fields(s@, c) == views(out@) + fields_from(s@.subrange(i as int, n as int), c, cur@),
        decreases n - i,
    {
        let ghost rest = s@.subrange(i as int, n as int);
        assert(rest.drop_first() =~= s@.subrange(i + 1, n as int));
        assert(rest[0] == s@[i as int]);
        if s[i] == c {
            let ghost old_out = views(out@);
            out.push(cur);
            assert(views(out@) =~= old_out + seq![cur@]);
            cur = Vec::new();
            assert(cur@ =~= seq![]);
        } else {
            cur.push(s[i]);
        }
        i += 1;
    }
    assert(s@.subrange(n as int, n as int) =~= seq![]);
    let ghost old_out = views(out@);
    out.push(cur);
    assert(views(out@) =~= old_out + seq![cur@]);
    assert(out@.len() >= 1);
    out
}

/// All characters of `s` are decimal digits.
pub fn chars_all_digits(s: &[char]) -> (r: bool)
    ensures
        r == all_digits(s@),
{
    let mut i: usize = 0;
    while i < s.len()
        invariant
            i <= s@.len(),
            forall|j: int| 0 <= j < i ==> is_digit(s@[j]),
        decreases s@.len() - i,
    {
        if !char_is_digit(s[i]) {
            return false;
        }
        i += 1;
    }
    true
}

// ---------------------------------------------------------------------------
// split_once
pub open spec fn has_char(s: Seq<char>, c: char) -> bool {
    exists|i: int| 0 <= i < s.len() && s[i] == c
}

/// Index of the first `c` in `s`, when there is one.
pub open spec fn first_index(s: Seq<char>, c: char) -> int
    recommends
        has_char(s, c),
{
    choose|i: int| 0 <= i < s.len() && s[i] == c && forall|j: int| 0 <= j < i ==> s[j] != c
}

pub proof fn lemma_first_index(s: Seq<char>, c: char, i: int)
    requires
        0 <= i < s.len(),
        s[i] == c,
        forall|j: int| 0 <= j < i ==> s[j] != c,
    ensures
        has_char(s, c),
        first_index(s, c) == i,
{
    let k = first_index(s, c);
    assert(0 <= k < s.len() && s[k] == c && forall|j: int| 0 <= j < k ==> s[j] != c);
    if k < i {
        assert(s[k] != c);
    }
    if i < k {
        assert(s[i] != c);
    }
}

/// `str::split_once` on a character.
pub open spec fn split_once(s: Seq<char>, c: char) -> Option<(Seq<char>, Seq<char>)> {
    if has_char(s, c) {
        let i = first_index(s, c);
        Some((s.subrange(0, i), s.subrange(i + 1, s.len() as int)))
    } else {
        None
    }
}

/// Position of the first `c` in `s`.
pub fn find_char(s: &[char], c: char) -> (r: Option<usize>)
    ensures
        r is None <==> !has_char(s@, c),
        r matches Some(i) ==> i < s@.len() && has_char(s@, c) && i == first_index(s@, c),
{
    let mut i: usize = 0;
    while i < s.len()
        invariant
            i <= s@.len(),
            forall|j: int| 0 <= j < i ==> s@[j] != c,
        decreases s@.len() - i,
    {
        if s[i] == c {
            proof {
                lemma_first_index(s@, c, i as int);
            }
            return Some(i);
        }
        i += 1;
    }
    None
}

pub fn split_once_char(s: &[char], c: char) -> (r: Option<(Vec<char>, Vec<char>)>)
    ensures
        r matches Some(p) ==> split_once(s@, c) == Some((p.0@, p.1@)),
        r is None ==> split_once(s@, c) is None,
{
    match find_char(s, c) {
        Some(i) => {
            let n = s.len();
            assert(i < n);
            Some((slice_of(s, 0, i), slice_of(s, i + 1, s.len())))
        },
        None => None,
    }
}

// ---------------------------------------------------------------------------
// unsigned decimal numbers
pub open spec fn digit_value(c: char) -> int {
    c as u32 - '0' as u32
}

pub open spec fn all_digits(s: Seq<char>) -> bool {
    forall|i: int| 0 <= i < s.len() ==> is_digit(#[trigger] s[i])
}

pub open spec fn dec_value(s: Seq<char>) -> int
    decreases s.len(),
{
    if s.len() == 0 {
        0
    } else {
        dec_value(s.drop_last()) * 10 + digit_value(s.last())
    }
}

/// What `str::parse` of an unsigned integer type whose largest value is
/// `max` returns: an optional `+`, then one or more digits, no overflow.
pub open spec fn parse_unsigned(s: Seq<char>, max: int) -> Option<int> {
    let d = if s.len() > 0 && s[0] == '+' {
        s.drop_first()
    } else {
        s
    };
    if d.len() > 0 && all_digits(d) && dec_value(d) <= max {
        Some(dec_value(d))
    } else {
        None
    }
}

pub open spec fn parse_u32(s: Seq<char>) -> Option<u32> {
    match parse_unsigned(s, u32::MAX as int) {
        Some(v) => Some(v as u32),
        None => None,
    }
}

pub open spec fn parse_u64(s: Seq<char>) -> Option<u64> {
    match parse_unsigned(s, u64::MAX as int) {
        Some(v) => Some(v as u64),
        None => None,
    }
}

pub proof fn lemma_dec_value_nonneg(s: Seq<char>)
    requires
        all_digits(s),
    ensures
        dec_value(s) >= 0,
    decreases s.len(),
{
    if s.len() > 0 {
        assert(is_digit(s[s.len() - 1]));
        lemma_dec_value_nonneg(s.drop_last());
    }
}

/// Unsigned decimal parse, bounded by `max`.
pub fn parse_unsigned_chars(s: &[char], max: u64) -> (r: Option<u64>)
    ensures
        r matches Some(v) ==> parse_unsigned(s@, max as int) == Some(v as int),
        r is None ==> parse_unsigned(s@, max as int) is None,
{
    let start: usize = if s.len() > 0 && s[0] == '+' {
        1
    } else {
        0
    };
    let ghost d = if s@.len() > 0 && s@[0] == '+' {
        s@.drop_first()
    } else {
        s@
    };
    assert(d =~= s@.subrange(start as int, s@.len() as int));
    if start >= s.len() {
        return None;
    }
    let limit: u128 = max as u128 + 1;
    let mut acc: u128 = 0;
    let mut i: usize = start;
    while i < s.len()
        invariant
            start <= i <= s@.len(),
            d == s@.subrange(start as int, s@.len() as int),
            d == (if s@.len() > 0 && s@[0] == '+' {
                s@.drop_first()
            } else {
                s@
            }),
            limit == max as int + 1,
            all_digits(s@.subrange(start as int, i as int)),
            acc == if dec_value(s@.subrange(start as int, i as int)) < limit {
                dec_value(s@.subrange(start as int, i as int))
            } else {
                limit as int
            },
        decreases s@.len() - i,
    {
        if !char_is_digit(s[i]) {
            assert(d[i - start] == s@[i as int]);
            assert(!is_digit(d[i - start]));
            assert(!all_digits(d));
            assert(parse_unsigned(s@, max as int) is None);
            return None;
        }
        let dv: u128 = (s[i] as u32 - 48) as u128;
        let ghost pre = s@.subrange(start as int, i as int);
        let ghost next = s@.subrange(start as int, i + 1);
        assert(next.drop_last() =~= pre);
        assert(next.last() == s@[i as int]);
        proof {
            lemma_dec_value_nonneg(pre);
        }
        assert(dec_value(next) == dec_value(pre) * 10 + dv);
        let cand: u128 = acc * 10 + dv;
        acc = if cand < limit {
            cand
        } else {
            limit
        };
        assert(all_digits(next));
        i += 1;
    }
    assert(s@.subrange(start as int, s@.len() as int) == d);
    if acc < limit {
        Some(acc as u64)
    } else {
        None
    }
}

pub fn parse_u32_chars(s: &[char]) -> (r: Option<u32>)
    ensures
        r == parse_u32(s@),
{
    match parse_unsigned_chars(s, 0xffff_ffff) {
        Some(v) => Some(v as u32),
        None => None,
    }
}

pub fn parse_u64_chars(s: &[char]) -> (r: Option<u64>)
    ensures
        r == parse_u64(s@),
{
    parse_unsigned_chars(s, 0xffff_ffff_ffff_ffff)
}

/// Why `str::parse` of an unsigned integer fails.
#[derive(Debug, Clone, Copy, PartialEq, Eq, Structural)]
pub enum IntErrorKind {
    Empty,
    InvalidDigit,
    PosOverflow,
}

impl IntErrorKind {
    /// The text with which `ParseIntError` displays this kind.
    pub fn message(&self) -> (r: &'static str)
        ensures
            r@ == match *self {
                IntErrorKind::Empty => "cannot parse integer from empty string"@,
                IntErrorKind::InvalidDigit => "invalid digit found in string"@,
                IntErrorKind::PosOverflow => "number too large to fit in target type"@,
            },
    {
        match self {
            IntErrorKind::Empty => "cannot parse integer from empty string",
            IntErrorKind::InvalidDigit => "invalid digit found in string",
            IntErrorKind::PosOverflow => "number too large to fit in target type",
        }
    }
}

/// Digits `d[i..]` read after the value `acc`: the first character that is
/// not a digit, or the first digit that takes the value past `max`, stops
/// the scan.
pub open spec fn scan_digits(d: Seq<char>, i: int, acc: int, max: int) -> Result<int, IntErrorKind>
    decreases d.len() - i,
{
    if i < 0 || i >= d.len() {
        Ok(acc)
    } else if !is_digit(d[i]) {
        Err(IntErrorKind::InvalidDigit)
    } else if acc * 10 + digit_value(d[i]) > max {
        Err(IntErrorKind::PosOverflow)
    } else {
        scan_digits(d, i + 1, acc * 10 + digit_value(d[i]), max)
    }
}

/// A scan that starts within `0..=max` ends within it.
pub proof fn lemma_scan_digits_range(d: Seq<char>, i: int, acc: int, max: int)
    requires
        0 <= acc <= max,
    ensures
        scan_digits(d, i, acc, max) matches Ok(v) ==> 0 <= v <= max,
    decreases d.len() - i,
{
    if 0 <= i < d.len() && is_digit(d[i]) && acc * 10 + digit_value(d[i]) <= max {
        assert(acc * 10 + digit_value(d[i]) >= 0) by (nonlinear_arith)
            requires
                acc >= 0,
                digit_value(d[i]) >= 0,
        ;
        lemma_scan_digits_range(d, i + 1, acc * 10 + digit_value(d[i]), max);
    }
}

/// A parsed value lies within `0..=max`.
pub proof fn lemma_unsigned_outcome_range(s: Seq<char>, max: int)
    requires
        0 <= max,
    ensures
        unsigned_outcome(s, max) matches Ok(v) ==> 0 <= v <= max,
{
    if s.len() > 0 {
        let d = if s[0] == '+' {
            s.drop_first()
        } else {
            s
        };
        lemma_scan_digits_range(d, 0, 0, max);
    }
}

/// `str::parse` of an unsigned integer type whose largest value is `max`,
/// with the kind of error it reports: an optional `+`, then digits.
pub open spec fn unsigned_outcome(s: Seq<char>, max: int) -> Result<int, IntErrorKind> {
    if s.len() == 0 {
        Err(IntErrorKind::Empty)
    } else {
        let d = if s[0] == '+' {
            s.drop_first()
        } else {
            s
        };
        if d.len() == 0 {
            Err(IntErrorKind::InvalidDigit)
        } else {
            scan_digits(d, 0, 0, max)
        }
    }
}

/// Unsigned decimal parse bounded by `max`, with the kind of failure.
pub fn parse_unsigned_checked(s: &[char], max: u64) -> (r: Result<u64, IntErrorKind>)
    ensures
        match r {
            Ok(v) => unsigned_outcome(s@, max as int) == Ok::<int, IntErrorKind>(v as int),
            Err(k) => unsigned_outcome(s@, max as int) == Err::<int, IntErrorKind>(k),
        },
        r matches Ok(v) ==> v <= max,
{
    if s.len() == 0 {
        return Err(IntErrorKind::Empty);
    }
    let start: usize = if s[0] == '+' {
        1
    } else {
        0
    };
    let ghost d = if s@[0] == '+' {
        s@.drop_first()
    } else {
        s@
    };
    assert(d =~= s@.subrange(start as int, s@.len() as int));
    if start >= s.len() {
        return Err(IntErrorKind::InvalidDigit);
    }
    let mut acc: u64 = 0;
    let mut i: usize = start;
    while i < s.len()
        invariant
            start <= i <= s@.len(),
            start <= 1,
            d == s@.subrange(start as int, s@.len() as int),
            acc <= max,
            unsigned_outcome(s@, max as int) == scan_digits(d, i - start, acc as int, max as int),
        decreases s@.len() - i,
    {
        assert(d[i - start] == s@[i as int]);
        if !char_is_digit(s[i]) {
            return Err(IntErrorKind::InvalidDigit);
        }
        let dv: u64 = (s[i] as u32 - 48) as u64;
        let wide: u128 = acc as u128 * 10 + dv as u128;
        if wide > max as u128 {
            return Err(IntErrorKind::PosOverflow);
        }
        acc = wide as u64;
        i += 1;
    }
    Ok(acc)
}

/// Position of the first occurrence of `p` in `s` at or after `i`.
pub open spec fn find_from(s: Seq<char>, p: Seq<char>, i: int) -> Option<int>
    decreases s.len() + 1 - i,
{
    if i < 0 || i + p.len() > s.len() {
        None
    } else if occurs_at(s, p, i) {
        Some(i)
    } else {
        find_from(s, p, i + 1)
    }
}

/// `str::find` with a string pattern, as a character position.
pub fn find_chars(s: &[char], p: &[char]) -> (r: Option<usize>)
    ensures
        r matches Some(i) ==> find_from(s@, p@, 0) == Some(i as int) && i + p@.len() <= s@.len(),
        r is None ==> find_from(s@, p@, 0) is None,
{
    if p.len() > s.len() {
        return None;
    }
    let limit = s.len() - p.len();
    let mut i: usize = 0;
    loop
        invariant
            p@.len() <= s@.len(),
            limit == s@.len() - p@.len(),
            i <= limit,
            find_from(s@, p@, 0) == find_from(s@, p@, i as int),
        decreases limit - i,
    {
        let end: usize = s.len() - (limit - i);
        assert(end == i + p@.len());
        let window = slice_of(s, i, end);
        if chars_eq(window.as_slice(), p) {
            assert(occurs_at(s@, p@, i as int));
            return Some(i);
        }
        if i == limit {
            assert(find_from(s@, p@, i + 1) is None);
            return None;
        }
        i += 1;
    }
}

/// Position of the first whitespace character of `s`.
pub open spec fn first_ws_from(s: Seq<char>, i: int) -> int
    decreases s.len() - i,
{
    if i < 0 || i >= s.len() {
        s.len() as int
    } else if is_ws(s[i]) {
        i
    } else {
        first_ws_from(s, i + 1)
    }
}

pub fn first_ws(s: &[char]) -> (r: usize)
    ensures
        r == first_ws_from(s@, 0),
        r <= s@.len(),
{
    let mut i: usize = 0;
    while i < s.len()
        invariant
            i <= s@.len(),
            first_ws_from(s@, 0) == first_ws_from(s@, i as int),
        decreases s@.len() - i,
    {
        if char_is_ws(s[i]) {
            return i;
        }
        i += 1;
    }
    i
}

/// Decimal digits of `n`, as `to_string` renders an unsigned integer.
pub open spec fn decimal(n: nat) -> Seq<char>
    decreases n,
{
    if n < 10 {
        seq![(('0' as u32) + n) as char]
    } else {
        decimal(n / 10).push(((('0' as u32) + (n % 10)) as char))
    }
}

/// `u64::to_string`.
pub fn u64_to_string(n: u64) -> (s: String)
    ensures
        s@ == decimal(n as nat),
    decreases n,
{
    if n < 10 {
        let mut s = String::new();
        let c = char_from_digit(n as u32);
        s.push(c);
        assert(s@ =~= decimal(n as nat));
        s
    } else {
        let mut s = u64_to_string(n / 10);
        let c = char_from_digit((n % 10) as u32);
        s.push(c);
        s
    }
}

/// `u32::to_string`.
pub fn u32_to_string(n: u32) -> (s: String)
    ensures
        s@ == decimal(n as nat),
{
    u64_to_string(n as u64)
}

fn char_from_digit(d: u32) -> (c: char)
    requires
        d < 10,
    ensures
        c == (('0' as u32) + d) as char,
{
    if d == 0 {
        '0'
    } else if d == 1 {
        '1'
    } else if d == 2 {
        '2'
    } else if d == 3 {
        '3'
    } else if d == 4 {
        '4'
    } else if d == 5 {
        '5'
    } else if d == 6 {
        '6'
    } else if d == 7 {
        '7'
    } else if d == 8 {
        '8'
    } else {
        '9'
    }
}

// ---------------------------------------------------------------------------
// UTF-8 byte lengths and byte truncation
/// Bytes that UTF-8 uses for `c`.
pub open spec fn char_width(c: char) -> nat {
    if (c as u32) < 0x80 {
        1
    } else if (c as u32) < 0x800 {
        2
    } else if (c as u32) < 0x10000 {
        3
    } else {
        4
    }
}

pub fn char_width_exec(c: char) -> (r: usize)
    ensures
        r == char_width(c),
{
    let u = c as u32;
    if u < 0x80 {
        1
    } else if u < 0x800 {
        2
    } else if u < 0x10000 {
        3
    } else {
        4
    }
}

/// UTF-8 length of a character sequence.
pub open spec fn byte_len(s: Seq<char>) -> nat
    decreases s.len(),
{
    if s.len() == 0 {
        0
    } else {
        byte_len(s.drop_last()) + char_width(s.last())
    }
}

/// A prefix is no longer than the whole.
pub proof fn lemma_byte_len_prefix(s: Seq<char>, k: int)
    requires
        0 <= k <= s.len(),
    ensures
        byte_len(s.subrange(0, k)) <= byte_len(s),
    decreases s.len() - k,
{
    if k < s.len() {
        lemma_byte_len_prefix(s, k + 1);
        assert(s.subrange(0, k + 1).drop_last() =~= s.subrange(0, k));
    } else {
        assert(s.subrange(0, k) =~= s);
    }
}

/// Longest prefix of `s` whose UTF-8 length is at most `n`.
pub open spec fn take_bytes(s: Seq<char>, n: nat) -> Seq<char>
    decreases s.len(),
{
    if s.len() == 0 || char_width(s[0]) > n {
        seq![]
    } else {
        seq![s[0]] + take_bytes(s.drop_first(), (n - char_width(s[0])) as nat)
    }
}

/// `take_bytes` keeps a prefix of `s`.
pub proof fn lemma_take_bytes_prefix(s: Seq<char>, n: nat)
    ensures
        take_bytes(s, n).len() <= s.len(),
        take_bytes(s, n) == s.subrange(0, take_bytes(s, n).len() as int),
    decreases s.len(),
{
    if s.len() == 0 || char_width(s[0]) > n {
        assert(s.subrange(0, 0) =~= seq![]);
    } else {
        let m = (n - char_width(s[0])) as nat;
        lemma_take_bytes_prefix(s.drop_first(), m);
        let t = take_bytes(s.drop_first(), m);
        assert(seq![s[0]] + t =~= s.subrange(0, t.len() + 1 as int));
    }
}

/// The UTF-8 length of `v` is at least `n`.
pub fn bytes_at_least(v: &[char], n: usize) -> (r: bool)
    requires
        n <= usize::MAX - 4,
    ensures
        r == (byte_len(v@) >= n),
{
    if n == 0 {
        return true;
    }
    let mut total: usize = 0;
    let mut i: usize = 0;
    assert(v@.subrange(0, 0) =~= seq![]);
    while i < v.len()
        invariant
            i <= v@.len(),
            0 < n <= usize::MAX - 4,
            total == byte_len(v@.subrange(0, i as int)),
            total < n,
        decreases v@.len() - i,
    {
        let ghost next = v@.subrange(0, i + 1);
        assert(next.drop_last() =~= v@.subrange(0, i as int));
        total = total + char_width_exec(v[i]);
        i += 1;
        if total >= n {
            proof {
                lemma_byte_len_prefix(v@, i as int);
            }
            return true;
        }
    }
    assert(v@.subrange(0, v@.len() as int) =~= v@);
    false
}

/// The UTF-8 length of a character followed by a text.
pub proof fn lemma_byte_len_cons(c: char, t: Seq<char>)
    ensures
        byte_len(seq![c] + t) == char_width(c) + byte_len(t),
    decreases t.len(),
{
    let u = seq![c] + t;
    if t.len() > 0 {
        lemma_byte_len_cons(c, t.drop_last());
        assert(u.drop_last() =~= seq![c] + t.drop_last());
        assert(u.last() == t.last());
        assert(byte_len(u) == byte_len(u.drop_last()) + char_width(u.last()));
        assert(byte_len(t) == byte_len(t.drop_last()) + char_width(t.last()));
    } else {
        assert(u.drop_last() =~= seq![]);
        assert(u.last() == c);
        assert(byte_len(u) == byte_len(u.drop_last()) + char_width(u.last()));
        assert(byte_len(seq![]) == 0);
    }
}

/// `take_bytes` keeps at most `n` bytes.
pub proof fn lemma_take_bytes_len(s: Seq<char>, n: nat)
    ensures
        byte_len(take_bytes(s, n)) <= n,
    decreases s.len(),
{
    if s.len() == 0 || char_width(s[0]) > n {
    } else {
        let m = (n - char_width(s[0])) as nat;
        lemma_take_bytes_len(s.drop_first(), m);
        lemma_byte_len_cons(s[0], take_bytes(s.drop_first(), m));
    }
}

/// A suffix is no longer than the whole.
pub proof fn lemma_byte_len_suffix(s: Seq<char>, i: int)
    requires
        0 <= i <= s.len(),
    ensures
        byte_len(s.subrange(i, s.len() as int)) <= byte_len(s),
    decreases i,
{
    if i > 0 {
        lemma_byte_len_suffix(s, i - 1);
        assert(s.subrange(i - 1, s.len() as int) =~= seq![s[i - 1]] + s.subrange(
            i,
            s.len() as int,
        ));
        lemma_byte_len_cons(s[i - 1], s.subrange(i, s.len() as int));
    } else {
        assert(s.subrange(0, s.len() as int) =~= s);
    }
}

/// Where `trim_start` cuts.
pub proof fn lemma_trim_start_index(s: Seq<char>) -> (k: int)
    ensures
        0 <= k <= s.len(),
        trim_start(s) == s.subrange(k, s.len() as int),
        forall|i: int| 0 <= i < k ==> is_ws(#[trigger] s[i]),
        k < s.len() ==> !is_ws(s[k]),
    decreases s.len(),
{
    if s.len() > 0 && is_ws(s[0]) {
        let k = lemma_trim_start_index(s.drop_first());
        assert forall|i: int| 0 <= i < k + 1 implies is_ws(#[trigger] s[i]) by {
            if i > 0 {
                assert(s[i] == s.drop_first()[i - 1]);
            }
        }
        assert(k < s.drop_first().len() ==> s.drop_first()[k] == s[k + 1]);
        assert(s.drop_first().subrange(k, s.drop_first().len() as int) =~= s.subrange(
            k + 1,
            s.len() as int,
        ));
        k + 1
    } else {
        assert(s.subrange(0, s.len() as int) =~= s);
        0
    }
}

/// Where `trim_end` cuts.
pub proof fn lemma_trim_end_index(s: Seq<char>) -> (k: int)
    ensures
        0 <= k <= s.len(),
        trim_end(s) == s.subrange(0, k),
        forall|i: int| k <= i < s.len() ==> is_ws(#[trigger] s[i]),
        k > 0 ==> !is_ws(s[k - 1]),
    decreases s.len(),
{
    if s.len() > 0 && is_ws(s.last()) {
        let k = lemma_trim_end_index(s.drop_last());
        assert forall|i: int| k <= i < s.len() implies is_ws(#[trigger] s[i]) by {
            if i < s.len() - 1 {
                assert(s[i] == s.drop_last()[i]);
            }
        }
        assert(k > 0 ==> s.drop_last()[k - 1] == s[k - 1]);
        assert(s.drop_last().subrange(0, k) =~= s.subrange(0, k));
        k
    } else {
        assert(s.subrange(0, s.len() as int) =~= s);
        s.len() as int
    }
}

/// `trim` keeps a piece of the text, no longer in bytes than the whole.
pub proof fn lemma_trim_piece(s: Seq<char>) -> (ij: (int, int))
    ensures
        0 <= ij.0 <= ij.1 <= s.len(),
        trim(s) == s.subrange(ij.0, ij.1),
        byte_len(trim(s)) <= byte_len(s),
{
    let i = lemma_trim_start_index(s);
    let t = s.subrange(i, s.len() as int);
    let j = lemma_trim_end_index(t);
    assert(t.subrange(0, j) =~= s.subrange(i, i + j));
    lemma_byte_len_suffix(s, i);
    lemma_byte_len_prefix(t, j);
    (i, i + j)
}

/// `trim` leaves nothing to trim.
pub proof fn lemma_trim_idempotent(s: Seq<char>)
    ensures
        trim(trim(s)) == trim(s),
{
    let i = lemma_trim_start_index(s);
    let u = s.subrange(i, s.len() as int);
    let j = lemma_trim_end_index(u);
    let t = trim(s);
    if t.len() > 0 {
        assert(t[0] == u[0] && u[0] == s[i]);
        assert(t.last() == u[j - 1]);
        assert(trim_start(t) == t);
        assert(trim_end(t) == t);
    } else {
        assert(trim_start(t) == t);
        assert(trim_end(t) == t);
    }
}

/// `trim` gives nothing exactly when every character is white space.
pub proof fn lemma_trim_empty(s: Seq<char>)
    ensures
        trim(s).len() == 0 <==> forall|i: int| 0 <= i < s.len() ==> is_ws(#[trigger] s[i]),
{
    let i = lemma_trim_start_index(s);
    let u = s.subrange(i, s.len() as int);
    let j = lemma_trim_end_index(u);
    if trim(s).len() == 0 {
        assert(j == 0);
        assert forall|k: int| 0 <= k < s.len() implies is_ws(#[trigger] s[k]) by {
            if k >= i {
                assert(s[k] == u[k - i]);
            }
        }
    }
    if forall|k: int| 0 <= k < s.len() ==> is_ws(#[trigger] s[k]) {
        if i < s.len() {
            assert(is_ws(s[i]));
        }
        assert(u.len() == 0);
    }
}

/// A text that fits in `n` bytes is kept whole by `take_bytes`.
pub proof fn lemma_take_bytes_whole(s: Seq<char>, n: nat)
    requires
        byte_len(s) <= n,
    ensures
        take_bytes(s, n) == s,
    decreases s.len(),
{
    if s.len() > 0 {
        assert(seq![s[0]] + s.drop_first() =~= s);
        lemma_byte_len_cons(s[0], s.drop_first());
        lemma_take_bytes_whole(s.drop_first(), (n - char_width(s[0])) as nat);
    }
}

/// Blanking line breaks keeps the UTF-8 length.
pub proof fn lemma_blank_line_breaks_byte_len(s: Seq<char>)
    ensures
        byte_len(blank_line_breaks(s)) == byte_len(s),
    decreases s.len(),
{
    if s.len() > 0 {
        let b = blank_line_breaks(s);
        assert(b.drop_last() =~= blank_line_breaks(s.drop_last()));
        lemma_blank_line_breaks_byte_len(s.drop_last());
        assert(char_width(b.last()) == char_width(s.last()));
    }
}

/// A text first cut to `n` bytes is accepted by `String::truncate(n)` once
/// its line breaks are blanked.
pub proof fn lemma_cut_text_truncatable(s: Seq<char>, n: nat)
    ensures
        truncatable(blank_line_breaks(take_bytes(s, n)), n),
{
    let t = take_bytes(s, n);
    lemma_take_bytes_len(s, n);
    lemma_blank_line_breaks_byte_len(t);
    lemma_take_bytes_whole(blank_line_breaks(t), n);
}

/// `String::truncate(n)` does not panic on `s`: either nothing is cut, or
/// byte `n` starts a character.
pub open spec fn truncatable(s: Seq<char>, n: nat) -> bool {
    take_bytes(s, n) == s || byte_len(take_bytes(s, n)) == n
}

/// `String::truncate(n)`, on a string where it does not panic.
pub fn truncate_bytes(v: &[char], n: usize) -> (r: Vec<char>)
    ensures
        r@ == take_bytes(v@, n as nat),
{
    let len = v.len();
    let mut i: usize = 0;
    let mut left: usize = n;
    assert(v@.subrange(0, len as int) =~= v@);
    while i < len && char_width_exec(v[i]) <= left
        invariant
            len == v@.len(),
            i <= len,
            left <= n,
            take_bytes(v@, n as nat) == v@.subrange(0, i as int) + take_bytes(
                v@.subrange(i as int, len as int),
                left as nat,
            ),
        decreases len - i,
    {
        let ghost rest = v@.subrange(i as int, len as int);
        assert(rest.drop_first() =~= v@.subrange(i + 1, len as int));
        assert(v@.subrange(0, i + 1) =~= v@.subrange(0, i as int) + seq![v@[i as int]]);
        left = left - char_width_exec(v[i]);
        i += 1;
    }
    assert(v@.subrange(0, i as int) + seq![] =~= v@.subrange(0, i as int));
    if i < len {
        assert(take_bytes(v@.subrange(i as int, len as int), left as nat) =~= seq![]);
    } else {
        assert(v@.subrange(i as int, len as int) =~= seq![]);
    }
    slice_of(v, 0, i)
}

/// Every NUL, carriage return and line feed replaced by a space.
pub open spec fn blank_line_breaks(s: Seq<char>) -> Seq<char> {
    s.map_values(|c: char| if c == '\0' || c == '\r' || c == '\n' { ' ' } else { c })
}

pub fn blank_line_breaks_exec(v: &[char]) -> (r: Vec<char>)
    ensures
        r@ == blank_line_breaks(v@),
{
    let mut r: Vec<char> = Vec::new();
    let mut i: usize = 0;
    while i < v.len()
        invariant
            i <= v@.len(),
            r@ == blank_line_breaks(v@.subrange(0, i as int)),
        decreases v@.len() - i,
    {
        let c = v[i];
        let d = if c == '\0' || c == '\r' || c == '\n' {
            ' '
        } else {
            c
        };
        r.push(d);
        assert(blank_line_breaks(v@.subrange(0, i + 1)) =~= blank_line_breaks(
            v@.subrange(0, i as int),
        ).push(d));
        i += 1;
    }
    assert(v@.subrange(0, v@.len() as int) =~= v@);
    r
}

/// What `format!("{:?}", s)` renders for a string slice: the text quoted,
/// with `char::escape_debug` applied to its characters.
pub uninterp spec fn debug_text(s: Seq<char>) -> Seq<char>;

/// `<str as Debug>::fmt`, through `format!("{:?}")`. The rendering is named,
/// not stated: it quotes the text and escapes quotes, backslashes, control
/// and non-printable characters as Rust's `char::escape_debug` does.
#[verifier::external_body]
pub(crate) fn debug_quoted(s: &str) -> (r: String)
    ensures
        r@ == debug_text(s@),
{
    format!("{:?}", s)
}

/// Texts joined with `sep` between them (`[T]::join`).
pub open spec fn joined(ws: Seq<Seq<char>>, sep: Seq<char>) -> Seq<char>
    decreases ws.len(),
{
    if ws.len() == 0 {
        seq![]
    } else if ws.len() == 1 {
        ws[0]
    } else {
        joined(ws.drop_last(), sep) + sep + ws.last()
    }
}

pub fn join_strings(values: &Vec<String>, sep: &str) -> (r: String)
    ensures
        r@ == joined(string_views(values@), sep@),
{
    let ghost vv = string_views(values@);
    let mut out = String::new();
    let mut i: usize = 0;
    while i < values.len()
        invariant
            vv == string_views(values@),
            i <= values@.len(),
            out@ == joined(vv.subrange(0, i as int), sep@),
        decreases values@.len() - i,
    {
        let ghost pre = vv.subrange(0, i as int);
        let ghost next = vv.subrange(0, i + 1);
        assert(next.drop_last() =~= pre);
        assert(next.last() == values@[i as int]@);
        if i > 0 {
            push_str(&mut out, sep);
        }
        push_str(&mut out, values[i].as_str());
        assert(out@ =~= joined(next, sep@));
        i += 1;
    }
    assert(vv.subrange(0, values@.len() as int) =~= vv);
    out
}

} // verus!

