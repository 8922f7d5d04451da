//! Bundled kernel modules: which algorithms and queue disciplines they
//! provide, the KMI a module must match, manifest path safety and the
//! SHA-256 check before loading.
use vstd::prelude::*;

use crate::config::{is_known_algorithm, is_known_qdisc, known_algorithm, known_qdisc};
use crate::digest::{
    eq_ignore_ascii_case, eq_ignore_ascii_case_exec, hex_lower, hex_lower_exec, sha256,
    sha256_digest,
};
use crate::order::{sort_dedup, strictly_sorted};
use crate::text::{
    all_digits, decimal, is_ws, join_strings, joined, lines, words_from, push_str, split_lines, chars_all_digits, chars_eq_str, chars_of, chars_starts_with, fields, has_char,
    find_char, owned, push_chars, seq_has, slice_of, split_char, split_whitespace, starts_with,
    str_eq, string_views, views, words,
};

verus! {

/// Why a bundled module cannot be used.
#[derive(Debug, Clone, PartialEq, Eq)]
pub enum ModuleError {
    /// A manifest path that could leave the module directory.
    UnsafePath,
    /// The manifest's SHA-256 is not 64 hex digits.
    InvalidDigest,
    /// The module's content does not hash to the manifest's SHA-256.
    HashMismatch,
    /// The name is not a congestion algorithm this module knows.
    UnknownAlgorithm(String),
    /// The name is not a queue discipline this module knows.
    UnknownQdisc(String),
}

/// The KMI of a GKI kernel release `w.x.y-androidN-k-suffix`: `w.x-androidN-k`.
pub open spec fn kmi_of(release: Seq<char>) -> Option<Seq<char>> {
    let f = fields(release, '-');
    if f.len() < 3 {
        None
    } else {
        let v = fields(f[0], '.');
        if v.len() < 3 {
            None
        } else {
            let major = v[0];
            let minor = v[1];
            let android = f[1];
            let generation = f[2];
            if all_digits(major) && all_digits(minor) && starts_with(android, "android"@)
                && android.len() > 7 && all_digits(android.subrange(7, android.len() as int))
                && generation.len() > 0 && all_digits(generation) {
                Some(major + "."@ + minor + "-"@ + android + "-"@ + generation)
            } else {
                None
            }
        }
    }
}

/// Derives the KMI version from a kernel release string.
pub fn derive_kmi(release: &str) -> (r: Option<String>)
    ensures
        r matches Some(k) ==> kmi_of(release@) == Some(k@),
        r is None ==> kmi_of(release@) is None,
{
    let cs = chars_of(release);
    let f = split_char(cs.as_slice(), '-');
    if f.len() < 3 {
        return None;
    }
    assert(views(f@)[0] == f@[0]@);
    assert(views(f@)[1] == f@[1]@);
    assert(views(f@)[2] == f@[2]@);
    let v = split_char(f[0].as_slice(), '.');
    if v.len() < 3 {
        return None;
    }
    assert(views(v@)[0] == v@[0]@);
    assert(views(v@)[1] == v@[1]@);
    let major = &v[0];
    let minor = &v[1];
    let android = &f[1];
    let generation = &f[2];
    if !chars_all_digits(major.as_slice()) || !chars_all_digits(minor.as_slice()) {
        return None;
    }
    if !chars_starts_with(android.as_slice(), "android") || android.len() <= 7 {
        proof {
            reveal_strlit("android");
        }
        return None;
    }
    proof {
        reveal_strlit("android");
    }
    let number = slice_of(android.as_slice(), 7, android.len());
    if !chars_all_digits(number.as_slice()) || generation.len() == 0 || !chars_all_digits(
        generation.as_slice(),
    ) {
        return None;
    }
    let mut out = String::new();
    push_chars(&mut out, major.as_slice());
    crate::text::push_str(&mut out, ".");
    push_chars(&mut out, minor.as_slice());
    crate::text::push_str(&mut out, "-");
    push_chars(&mut out, android.as_slice());
    crate::text::push_str(&mut out, "-");
    push_chars(&mut out, generation.as_slice());
    Some(out)
}

/// The KMI of the running kernel, from its release string when one could
/// be read.
pub fn current_kmi(release: Option<&str>) -> (r: Option<String>)
    ensures
        release is None ==> r is None,
        release matches Some(rel) ==> (r matches Some(k) ==> kmi_of(rel@) == Some(k@)) && (r is None
            ==> kmi_of(rel@) is None),
{
    match release {
        Some(rel) => derive_kmi(rel),
        None => None,
    }
}

/// A manifest path is unsafe when it is empty, holds a backslash or NUL, is
/// absolute, or has a component that is not a plain name (`..` anywhere, or
/// a leading `.`).
pub open spec fn unsafe_path(value: Seq<char>) -> bool {
    let parts = fields(value, '/');
    ||| value.len() == 0
    ||| has_char(value, '\\')
    ||| has_char(value, '\0')
    ||| starts_with(value, "/"@)
    ||| seq_has(parts, ".."@)
    ||| parts[0] == "."@
}

/// A manifest path that stays inside the module directory.
pub fn safe_relative_path(value: &str) -> (r: Result<String, ModuleError>)
    ensures
        r is Err <==> unsafe_path(value@),
        r matches Ok(p) ==> p@ == value@,
        r matches Err(e) ==> e == ModuleError::UnsafePath,
{
    let cs = chars_of(value);
    let s = cs.as_slice();
    if s.len() == 0 {
        return Err(ModuleError::UnsafePath);
    }
    if find_char(s, '\\').is_some() || find_char(s, '\0').is_some() {
        return Err(ModuleError::UnsafePath);
    }
    if chars_starts_with(s, "/") {
        return Err(ModuleError::UnsafePath);
    }
    let parts = split_char(s, '/');
    assert(views(parts@)[0] == parts@[0]@);
    if chars_eq_str(parts[0].as_slice(), ".") {
        return Err(ModuleError::UnsafePath);
    }
    let mut i: usize = 0;
    while i < parts.len()
        invariant
            i <= parts@.len(),
            views(parts@) == fields(value@, '/'),
            forall|j: int| 0 <= j < i ==> views(parts@)[j] != ".."@,
        decreases parts@.len() - i,
    {
        if chars_eq_str(parts[i].as_slice(), "..") {
            assert(views(parts@)[i as int] == ".."@);
            assert(seq_has(fields(value@, '/'), ".."@));
            return Err(ModuleError::UnsafePath);
        }
        i += 1;
    }
    Ok(owned(value))
}

/// The module that provides a congestion algorithm.
pub open spec fn algorithm_module_spec(algorithm: Seq<char>) -> Option<Seq<char>> {
    if algorithm == "bbr"@ {
        Some("tcp_bbr"@)
    } else if algorithm == "bbr1"@ {
        Some("tcp_bbr1"@)
    } else if algorithm == "bbr2"@ {
        Some("tcp_bbr2"@)
    } else if algorithm == "bbr3"@ {
        Some("tcp_bbr3"@)
    } else if algorithm == "bic"@ {
        Some("tcp_bic"@)
    } else if algorithm == "cdg"@ {
        Some("tcp_cdg"@)
    } else if algorithm == "dctcp"@ {
        Some("tcp_dctcp"@)
    } else if algorithm == "highspeed"@ {
        Some("tcp_highspeed"@)
    } else if algorithm == "htcp"@ {
        Some("tcp_htcp"@)
    } else if algorithm == "hybla"@ {
        Some("tcp_hybla"@)
    } else if algorithm == "illinois"@ {
        Some("tcp_illinois"@)
    } else if algorithm == "lp"@ {
        Some("tcp_lp"@)
    } else if algorithm == "nv"@ {
        Some("tcp_nv"@)
    } else if algorithm == "scalable"@ {
        Some("tcp_scalable"@)
    } else if algorithm == "vegas"@ {
        Some("tcp_vegas"@)
    } else if algorithm == "westwood"@ {
        Some("tcp_westwood"@)
    } else if algorithm == "yeah"@ {
        Some("tcp_yeah"@)
    } else {
        None
    }
}

pub fn algorithm_module(algorithm: &str) -> (r: Option<&'static str>)
    ensures
        r matches Some(m) ==> algorithm_module_spec(algorithm@) == Some(m@),
        r is None ==> algorithm_module_spec(algorithm@) is None,
{
    if str_eq(algorithm, "bbr") {
        Some("tcp_bbr")
    } else if str_eq(algorithm, "bbr1") {
        Some("tcp_bbr1")
    } else if str_eq(algorithm, "bbr2") {
        Some("tcp_bbr2")
    } else if str_eq(algorithm, "bbr3") {
        Some("tcp_bbr3")
    } else if str_eq(algorithm, "bic") {
        Some("tcp_bic")
    } else if str_eq(algorithm, "cdg") {
        Some("tcp_cdg")
    } else if str_eq(algorithm, "dctcp") {
        Some("tcp_dctcp")
    } else if str_eq(algorithm, "highspeed") {
        Some("tcp_highspeed")
    } else if str_eq(algorithm, "htcp") {
        Some("tcp_htcp")
    } else if str_eq(algorithm, "hybla") {
        Some("tcp_hybla")
    } else if str_eq(algorithm, "illinois") {
        Some("tcp_illinois")
    } else if str_eq(algorithm, "lp") {
        Some("tcp_lp")
    } else if str_eq(algorithm, "nv") {
        Some("tcp_nv")
    } else if str_eq(algorithm, "scalable") {
        Some("tcp_scalable")
    } else if str_eq(algorithm, "vegas") {
        Some("tcp_vegas")
    } else if str_eq(algorithm, "westwood") {
        Some("tcp_westwood")
    } else if str_eq(algorithm, "yeah") {
        Some("tcp_yeah")
    } else {
        None
    }
}

/// The modules a queue discipline needs, in loading order.
pub open spec fn qdisc_modules_spec(qdisc: Seq<char>) -> Option<Seq<Seq<char>>> {
    if qdisc == "fq"@ {
        Some(seq!["sch_fq"@])
    } else if qdisc == "fq_codel"@ {
        Some(seq!["sch_codel"@, "sch_fq_codel"@])
    } else if qdisc == "codel"@ {
        Some(seq!["sch_codel"@])
    } else if qdisc == "cake"@ {
        Some(seq!["sch_cake"@])
    } else if qdisc == "pie"@ {
        Some(seq!["sch_pie"@])
    } else if qdisc == "fq_pie"@ {
        Some(seq!["sch_pie"@, "sch_fq_pie"@])
    } else {
        None
    }
}

pub open spec fn static_views(v: Seq<&'static str>) -> Seq<Seq<char>> {
    v.map_values(|s: &'static str| s@)
}

pub fn qdisc_modules(qdisc: &str) -> (r: Option<Vec<&'static str>>)
    ensures
        r matches Some(m) ==> qdisc_modules_spec(qdisc@) == Some(static_views(m@)),
        r is None ==> qdisc_modules_spec(qdisc@) is None,
{
    let mut v: Vec<&'static str> = Vec::new();
    if str_eq(qdisc, "fq") {
        v.push("sch_fq");
    } else if str_eq(qdisc, "fq_codel") {
        v.push("sch_codel");
        v.push("sch_fq_codel");
    } else if str_eq(qdisc, "codel") {
        v.push("sch_codel");
    } else if str_eq(qdisc, "cake") {
        v.push("sch_cake");
    } else if str_eq(qdisc, "pie") {
        v.push("sch_pie");
    } else if str_eq(qdisc, "fq_pie") {
        v.push("sch_pie");
        v.push("sch_fq_pie");
    } else {
        return None;
    }
    assert(qdisc_modules_spec(qdisc@) == Some(static_views(v@)));
    Some(v)
}

fn contains_string(list: &Vec<String>, name: &str) -> (r: bool)
    ensures
        r == seq_has(string_views(list@), name@),
{
    let mut i: usize = 0;
    while i < list.len()
        invariant
            i <= list@.len(),
            forall|j: int| 0 <= j < i ==> string_views(list@)[j] != name@,
        decreases list@.len() - i,
    {
        if str_eq(list[i].as_str(), name) {
            assert(string_views(list@)[i as int] == name@);
            return true;
        }
        i += 1;
    }
    false
}

/// Algorithms of the table that a matching bundled module provides.
pub open spec fn bundled_algorithms_spec(modules: Seq<Seq<char>>) -> Seq<Seq<char>> {
    (if seq_has(modules, "tcp_bbr"@) {
        seq!["bbr"@]
    } else {
        seq![]
    }) + (if seq_has(modules, "tcp_bbr3"@) {
        seq!["bbr3"@]
    } else {
        seq![]
    })
}

/// Algorithms that the bundled modules of this kernel provide, in table
/// order. (Of the table, only bbr and bbr3 have a module.)
pub fn bundled_algorithms(modules: &Vec<String>) -> (r: Vec<String>)
    ensures
        string_views(r@) == bundled_algorithms_spec(string_views(modules@)),
{
    let mut out: Vec<String> = Vec::new();
    if contains_string(modules, "tcp_bbr") {
        out.push(owned("bbr"));
    }
    let ghost first = string_views(out@);
    if contains_string(modules, "tcp_bbr3") {
        out.push(owned("bbr3"));
    }
    assert(string_views(out@) =~= bundled_algorithms_spec(string_views(modules@)));
    out
}

/// Every module of `required` is among `modules`.
pub open spec fn all_present(required: Seq<Seq<char>>, modules: Seq<Seq<char>>) -> bool {
    forall|i: int| 0 <= i < required.len() ==> seq_has(modules, #[trigger] required[i])
}

pub open spec fn qdisc_bundled(qdisc: Seq<char>, modules: Seq<Seq<char>>) -> bool {
    match qdisc_modules_spec(qdisc) {
        Some(req) => all_present(req, modules),
        None => false,
    }
}

/// Queue disciplines of the table whose modules are all bundled, in table
/// order.
pub open spec fn bundled_qdiscs_spec(modules: Seq<Seq<char>>) -> Seq<Seq<char>> {
    seq!["fq"@, "fq_codel"@, "codel"@, "cake"@, "pie"@, "fq_pie"@].filter(
        |q: Seq<char>| qdisc_bundled(q, modules),
    )
}

fn qdisc_bundled_exec(qdisc: &str, modules: &Vec<String>) -> (r: bool)
    ensures
        r == qdisc_bundled(qdisc@, string_views(modules@)),
{
    let req = match qdisc_modules(qdisc) {
        Some(m) => m,
        None => return false,
    };
    let mut i: usize = 0;
    while i < req.len()
        invariant
            i <= req@.len(),
            qdisc_modules_spec(qdisc@) == Some(static_views(req@)),
            forall|j: int| 0 <= j < i ==> seq_has(string_views(modules@), static_views(req@)[j]),
        decreases req@.len() - i,
    {
        assert(static_views(req@)[i as int] == req@[i as int]@);
        if !contains_string(modules, req[i]) {
            assert(!seq_has(string_views(modules@), static_views(req@)[i as int]));
            return false;
        }
        i += 1;
    }
    true
}

pub fn bundled_qdiscs(modules: &Vec<String>) -> (r: Vec<String>)
    ensures
        string_views(r@) == bundled_qdiscs_spec(string_views(modules@)),
{
    let ghost m = string_views(modules@);
    let ghost table = seq!["fq"@, "fq_codel"@, "codel"@, "cake"@, "pie"@, "fq_pie"@];
    let names: [&'static str; 6] = ["fq", "fq_codel", "codel", "cake", "pie", "fq_pie"];
    let mut out: Vec<String> = Vec::new();
    let mut i: usize = 0;
    assert(table.subrange(0, 0).filter(|q: Seq<char>| qdisc_bundled(q, m)) =~= seq![]);
    while i < 6
        invariant
            i <= 6,
            m == string_views(modules@),
            table == seq!["fq"@, "fq_codel"@, "codel"@, "cake"@, "pie"@, "fq_pie"@],
            names@.map_values(|s: &'static str| s@) == table,
            string_views(out@) == table.subrange(0, i as int).filter(
                |q: Seq<char>| qdisc_bundled(q, m),
            ),
        decreases 6 - i,
    {
        let name = names[i];
        assert(name@ == table[i as int]);
        let ghost before = string_views(out@);
        let keep = qdisc_bundled_exec(name, modules);
        if keep {
            out.push(owned(name));
        }
        let ghost pre = table.subrange(0, i as int);
        assert(table.subrange(0, i + 1) =~= pre.push(table[i as int]));
        proof {
            pre.lemma_filter_push(table[i as int], |q: Seq<char>| qdisc_bundled(q, m));
        }
        if keep {
            assert(string_views(out@) =~= before.push(name@));
        } else {
            assert(string_views(out@) =~= before);
        }
        i += 1;
    }
    assert(table.subrange(0, 6) =~= table);
    out
}

/// The native algorithms followed by each bundled one that is neither
/// blocked nor already listed.
pub open spec fn augmented(native: Seq<Seq<char>>, blocked: Seq<Seq<char>>, bundled: Seq<Seq<char>>) -> Seq<
    Seq<char>,
>
    decreases bundled.len(),
{
    if bundled.len() == 0 {
        native
    } else {
        let prev = augmented(native, blocked, bundled.drop_last());
        let a = bundled.last();
        if !seq_has(blocked, a) && !seq_has(prev, a) {
            prev.push(a)
        } else {
            prev
        }
    }
}

/// Adds the loadable bundled algorithms to the kernel's list.
pub fn augment_algorithms(native: Vec<String>, blocked: &Vec<String>, bundled: &Vec<String>) -> (r:
    Vec<String>)
    ensures
        string_views(r@) == augmented(
            string_views(native@),
            string_views(blocked@),
            string_views(bundled@),
        ),
{
    let ghost n0 = string_views(native@);
    let ghost bl = string_views(blocked@);
    let ghost bu = string_views(bundled@);
    let mut out = native;
    let mut i: usize = 0;
    assert(bu.subrange(0, 0) =~= seq![]);
    while i < bundled.len()
        invariant
            i <= bundled@.len(),
            bl == string_views(blocked@),
            bu == string_views(bundled@),
            string_views(out@) == augmented(n0, bl, bu.subrange(0, i as int)),
        decreases bundled@.len() - i,
    {
        let a = bundled[i].as_str();
        let ghost before = string_views(out@);
        assert(bu.subrange(0, i + 1).drop_last() =~= bu.subrange(0, i as int));
        assert(bu.subrange(0, i + 1).last() == a@);
        if !contains_string(blocked, a) && !contains_string(&out, a) {
            out.push(owned(a));
            assert(string_views(out@) =~= before.push(a@));
        }
        i += 1;
    }
    assert(bu.subrange(0, bundled@.len() as int) =~= bu);
    out
}

/// Known algorithms listed in the `unavailable_algos` file.
pub open spec fn unavailable_spec(content: Option<Seq<char>>) -> Seq<Seq<char>> {
    match content {
        Some(c) => words(c).filter(|w: Seq<char>| known_algorithm(w)),
        None => seq![],
    }
}

/// The algorithms marked unavailable, from the marker file's content when it
/// could be read.
pub fn unavailable_algorithms(content: Option<&str>) -> (r: Vec<String>)
    ensures
        string_views(r@) == unavailable_spec(
            match content {
                Some(c) => Some(c@),
                None => None,
            },
        ),
{
    let c = match content {
        Some(c) => c,
        None => {
            let out: Vec<String> = Vec::new();
            assert(string_views(out@) =~= seq![]);
            return out;
        },
    };
    let cs = chars_of(c);
    let ws = split_whitespace(cs.as_slice());
    let ghost w = views(ws@);
    let mut out: Vec<String> = Vec::new();
    let mut i: usize = 0;
    assert(w.subrange(0, 0).filter(|x: Seq<char>| known_algorithm(x)) =~= seq![]);
    while i < ws.len()
        invariant
            i <= ws@.len(),
            w == views(ws@),
            w == words(c@),
            string_views(out@) == w.subrange(0, i as int).filter(|x: Seq<char>| known_algorithm(x)),
        decreases ws@.len() - i,
    {
        let word = crate::text::string_of(ws[i].as_slice());
        assert(word@ == w[i as int]);
        let ghost before = string_views(out@);
        let ghost pre = w.subrange(0, i as int);
        assert(w.subrange(0, i + 1) =~= pre.push(w[i as int]));
        proof {
            pre.lemma_filter_push(w[i as int], |x: Seq<char>| known_algorithm(x));
        }
        if is_known_algorithm(word.as_str()) {
            let ghost wv = word@;
            out.push(word);
            assert(string_views(out@) =~= before.push(wv));
        }
        i += 1;
    }
    assert(w.subrange(0, ws@.len() as int) =~= w);
    out
}

/// A manifest digest is 64 hex digits.
pub open spec fn hex_char(c: char) -> bool {
    ||| '0' as u32 <= c as u32 <= '9' as u32
    ||| 'a' as u32 <= c as u32 <= 'f' as u32
    ||| 'A' as u32 <= c as u32 <= 'F' as u32
}

pub open spec fn valid_digest_text(s: Seq<char>) -> bool {
    s.len() == 64 && forall|i: int| 0 <= i < s.len() ==> hex_char(#[trigger] s[i])
}

fn hex_char_exec(c: char) -> (r: bool)
    ensures
        r == hex_char(c),
{
    let u = c as u32;
    (48 <= u && u <= 57) || (97 <= u && u <= 102) || (65 <= u && u <= 70)
}

pub fn valid_digest_text_exec(s: &[char]) -> (r: bool)
    ensures
        r == valid_digest_text(s@),
{
    if s.len() != 64 {
        return false;
    }
    let mut i: usize = 0;
    while i < s.len()
        invariant
            i <= s@.len(),
            forall|j: int| 0 <= j < i ==> hex_char(s@[j]),
        decreases s@.len() - i,
    {
        if !hex_char_exec(s[i]) {
            return false;
        }
        i += 1;
    }
    true
}

/// Checks a module's content against the manifest's SHA-256: the manifest
/// value must be 64 hex digits, and the lowercase hex digest of the content
/// must equal it up to ASCII case.
pub fn verify_sha256(content: &[u8], expected: &str) -> (r: Result<(), ModuleError>)
    ensures
        !valid_digest_text(expected@) ==> r == Err::<(), ModuleError>(ModuleError::InvalidDigest),
        valid_digest_text(expected@) ==> (r is Ok <==> eq_ignore_ascii_case(
            hex_lower(sha256_digest(content@)),
            expected@,
        )),
        valid_digest_text(expected@) && r is Err ==> r == Err::<(), ModuleError>(
            ModuleError::HashMismatch,
        ),
{
    let e = chars_of(expected);
    if !valid_digest_text_exec(e.as_slice()) {
        return Err(ModuleError::InvalidDigest);
    }
    let digest = sha256(content);
    let actual = hex_lower_exec(digest.as_slice());
    if eq_ignore_ascii_case_exec(actual.as_slice(), e.as_slice()) {
        Ok(())
    } else {
        Err(ModuleError::HashMismatch)
    }
}

// ---------------------------------------------------------------------------
// The unavailable-algorithm marker
/// The content of the marker file for a list of algorithms: the names
/// separated by spaces, then a line break.
pub fn marker_text(values: &Vec<String>) -> (r: String)
    ensures
        r@ == joined(string_views(values@), " "@) + "\n"@,
{
    let mut out = join_strings(values, " ");
    push_str(&mut out, "\n");
    out
}

pub open spec fn content_view(content: Option<&str>) -> Option<Seq<char>> {
    match content {
        Some(c) => Some(c@),
        None => None,
    }
}

/// The algorithms to record after marking `algorithm` unavailable, from
/// the marker's content when it could be read: the recorded ones and
/// `algorithm`, sorted, each once. An unknown name is refused.
pub fn marked_unavailable(content: Option<&str>, algorithm: &str) -> (r: Result<
    Vec<String>,
    ModuleError,
>)
    ensures
        !known_algorithm(algorithm@) ==> (r matches Err(ModuleError::UnknownAlgorithm(a)) && a@
            == algorithm@),
        known_algorithm(algorithm@) ==> (r matches Ok(v) && strictly_sorted(string_views(v@))
            && forall|x: Seq<char>|
            string_views(v@).contains(x) <==> (unavailable_spec(content_view(content)).contains(x)
                || x == algorithm@)),
{
    if !is_known_algorithm(algorithm) {
        return Err(ModuleError::UnknownAlgorithm(owned(algorithm)));
    }
    let mut blocked = unavailable_algorithms(content);
    let ghost before = string_views(blocked@);
    blocked.push(owned(algorithm));
    proof {
        assert(string_views(blocked@) =~= before.push(algorithm@));
        assert forall|x: Seq<char>| string_views(blocked@).contains(x) <==> (before.contains(x)
            || x == algorithm@) by {
            if string_views(blocked@).contains(x) {
                let j = choose|j: int| 0 <= j < string_views(blocked@).len() && string_views(blocked@)[j] == x;
                if j < before.len() {
                    assert(before[j] == x);
                }
            }
            if before.contains(x) {
                let j = choose|j: int| 0 <= j < before.len() && before[j] == x;
                assert(string_views(blocked@)[j] == x);
            }
            if x == algorithm@ {
                assert(string_views(blocked@)[before.len() as int] == x);
            }
        }
    }
    Ok(sort_dedup(&blocked))
}

/// The algorithms to record after clearing `algorithm`: `None` when it was
/// not recorded (nothing changes), otherwise the others, sorted, each once;
/// an empty list means that the marker is removed.
pub fn cleared_unavailable(content: Option<&str>, algorithm: &str) -> (r: Option<Vec<String>>)
    ensures
        !unavailable_spec(content_view(content)).contains(algorithm@) <==> r is None,
        r matches Some(v) ==> strictly_sorted(string_views(v@)) && forall|x: Seq<char>|
            string_views(v@).contains(x) <==> (unavailable_spec(content_view(content)).contains(x)
                && x != algorithm@),
{
    let blocked = unavailable_algorithms(content);
    let ghost bv = string_views(blocked@);
    let mut rest: Vec<String> = Vec::new();
    let mut found = false;
    let mut i: usize = 0;
    while i < blocked.len()
        invariant
            bv == string_views(blocked@),
            i <= blocked@.len(),
            found <==> bv.subrange(0, i as int).contains(algorithm@),
            forall|x: Seq<char>|
                string_views(rest@).contains(x) <==> (bv.subrange(0, i as int).contains(x) && x
                    != algorithm@),
        decreases blocked@.len() - i,
    {
        let ghost pre = bv.subrange(0, i as int);
        let ghost next = bv.subrange(0, i + 1);
        assert(next =~= pre.push(bv[i as int]));
        let ghost old_rest = string_views(rest@);
        if str_eq(blocked[i].as_str(), algorithm) {
            found = true;
        } else {
            rest.push(owned(blocked[i].as_str()));
            assert(string_views(rest@) =~= old_rest.push(bv[i as int]));
        }
        proof {
            assert forall|x: Seq<char>| next.contains(x) <==> (pre.contains(x) || x == bv[i as int]) by {
                if next.contains(x) {
                    let j = choose|j: int| 0 <= j < next.len() && next[j] == x;
                    if j < pre.len() {
                        assert(pre[j] == x);
                    }
                }
                if pre.contains(x) {
                    let j = choose|j: int| 0 <= j < pre.len() && pre[j] == x;
                    assert(next[j] == x);
                }
                if x == bv[i as int] {
                    assert(next[i as int] == x);
                }
            }
            assert forall|x: Seq<char>| string_views(rest@).contains(x) <==> (next.contains(x) && x
                != algorithm@) by {
                if string_views(rest@).contains(x) && !old_rest.contains(x) {
                    let j = choose|j: int| 0 <= j < string_views(rest@).len() && string_views(rest@)[j] == x;
                    assert(j == old_rest.len());
                }
                if old_rest.contains(x) && string_views(rest@) != old_rest {
                    let j = choose|j: int| 0 <= j < old_rest.len() && old_rest[j] == x;
                    assert(string_views(rest@)[j] == x);
                }
                if x == bv[i as int] && x != algorithm@ {
                    assert(string_views(rest@)[old_rest.len() as int] == x);
                }
            }
        }
        i += 1;
    }
    assert(bv.subrange(0, blocked@.len() as int) =~= bv);
    if !found {
        return None;
    }
    Some(sort_dedup(&rest))
}

// ---------------------------------------------------------------------------
// Loaded modules
/// The first whitespace-separated word of a line, when it has one.
pub open spec fn first_word(line: Seq<char>) -> Option<Seq<char>> {
    let w = words(line);
    if w.len() == 0 {
        None
    } else {
        Some(w[0])
    }
}

/// `/proc/modules` lists the module: some line starts with its name.
pub open spec fn listed_module(proc_modules: Seq<char>, name: Seq<char>) -> bool {
    exists|i: int| 0 <= i < lines(proc_modules).len() && first_word(#[trigger] lines(proc_modules)[i]) == Some(name)
}

pub fn module_listed(proc_modules: &str, name: &str) -> (r: bool)
    ensures
        r == listed_module(proc_modules@, name@),
{
    let cs = chars_of(proc_modules);
    let ls = split_lines(cs.as_slice());
    let ghost lv = views(ls@);
    let mut i: usize = 0;
    while i < ls.len()
        invariant
            lv == views(ls@),
            lv == lines(proc_modules@),
            i <= ls@.len(),
            forall|j: int| 0 <= j < i ==> first_word(#[trigger] lv[j]) != Some(name@),
        decreases ls@.len() - i,
    {
        assert(lv[i as int] == ls@[i as int]@);
        let ws = split_whitespace(ls[i].as_slice());
        assert(views(ws@) == words(lv[i as int]));
        if ws.len() > 0 && chars_eq_str(ws[0].as_slice(), name) {
            assert(views(ws@)[0] == ws@[0]@);
            assert(first_word(lv[i as int]) == Some(name@));
            return true;
        }
        proof {
            if ws.len() > 0 {
                assert(views(ws@)[0] == ws@[0]@);
            }
        }
        i += 1;
    }
    false
}

// ---------------------------------------------------------------------------
// The bundled-module index
/// One module of the bundle manifest.
#[derive(Debug, Clone)]
pub struct ModuleEntry {
    pub name: String,
    pub kmi: String,
    pub arch: String,
    pub file: String,
    pub sha256: String,
}

pub open spec fn module_view(e: ModuleEntry) -> (Seq<char>, Seq<char>, Seq<char>, Seq<char>, Seq<char>) {
    (e.name@, e.kmi@, e.arch@, e.file@, e.sha256@)
}

pub open spec fn modules_view(v: Seq<ModuleEntry>) -> Seq<(Seq<char>, Seq<char>, Seq<char>, Seq<char>, Seq<char>)> {
    v.map_values(|e: ModuleEntry| module_view(e))
}

/// The usable modules among the first `n` of the manifest: those built for
/// `kmi` and `arch` whose file is present (`present[i]` for the `i`-th);
/// `None` when such a module names an unsafe path.
pub open spec fn selected_modules(
    ms: Seq<ModuleEntry>,
    kmi: Seq<char>,
    arch: Seq<char>,
    present: Seq<bool>,
    n: int,
) -> Option<Seq<(Seq<char>, Seq<char>, Seq<char>, Seq<char>, Seq<char>)>>
    decreases n,
{
    if n <= 0 {
        Some(seq![])
    } else {
        match selected_modules(ms, kmi, arch, present, n - 1) {
            None => None,
            Some(acc) => {
                let e = ms[n - 1];
                if e.kmi@ == kmi && e.arch@ == arch {
                    if unsafe_path(e.file@) {
                        None
                    } else if present[n - 1] {
                        Some(acc.push(module_view(e)))
                    } else {
                        Some(acc)
                    }
                } else {
                    Some(acc)
                }
            },
        }
    }
}

fn copy_entry(e: &ModuleEntry) -> (r: ModuleEntry)
    ensures
        module_view(r) == module_view(*e),
{
    ModuleEntry {
        name: owned(e.name.as_str()),
        kmi: owned(e.kmi.as_str()),
        arch: owned(e.arch.as_str()),
        file: owned(e.file.as_str()),
        sha256: owned(e.sha256.as_str()),
    }
}

/// The index of the bundled modules usable on this kernel, from the
/// manifest's schema and modules, the running kernel's KMI (when it can be
/// derived) and architecture, and whether each module's file is present.
/// No index without a KMI; an unknown schema or an unsafe module path is an
/// error, with its message.
pub fn module_index(
    schema: u32,
    modules: &Vec<ModuleEntry>,
    kmi: Option<&str>,
    arch: &str,
    present: &Vec<bool>,
) -> (r: Result<Option<Vec<ModuleEntry>>, String>)
    requires
        present@.len() == modules@.len(),
    ensures
        schema != 1 ==> (r matches Err(m) && m@ == "unsupported kernel module manifest schema "@
            + decimal(schema as nat)),
        schema == 1 && kmi is None ==> r matches Ok(None),
        schema == 1 && kmi is Some ==> match selected_modules(
            modules@,
            kmi->0@,
            arch@,
            present@,
            modules@.len() as int,
        ) {
            None => r matches Err(m) && m@ == "unsafe kernel module path"@,
            Some(es) => r matches Ok(Some(v)) && modules_view(v@) == es,
        },
{
    if schema != 1 {
        let mut m = owned("unsupported kernel module manifest schema ");
        let n = crate::text::u32_to_string(schema);
        push_str(&mut m, n.as_str());
        return Err(m);
    }
    let k = match kmi {
        Some(k) => k,
        None => return Ok(None),
    };
    let mut out: Vec<ModuleEntry> = Vec::new();
    let mut i: usize = 0;
    assert(modules_view(out@) =~= seq![]);
    while i < modules.len()
        invariant
            present@.len() == modules@.len(),
            schema == 1,
            kmi == Some(k),
            i <= modules@.len(),
            selected_modules(modules@, k@, arch@, present@, i as int) == Some(modules_view(out@)),
        decreases modules@.len() - i,
    {
        let e = &modules[i];
        if str_eq(e.kmi.as_str(), k) && str_eq(e.arch.as_str(), arch) {
            match safe_relative_path(e.file.as_str()) {
                Err(_) => {
                    proof {
                        lemma_selection_stays_none(modules@, k@, arch@, present@, i + 1, modules@.len() as int);
                    }
                    return Err(owned("unsafe kernel module path"));
                },
                Ok(_) => {},
            }
            if present[i] {
                let c = copy_entry(e);
                let ghost before = out@;
                out.push(c);
                assert(modules_view(out@) =~= modules_view(before).push(module_view(*e)));
            }
        }
        i += 1;
    }
    Ok(Some(out))
}

proof fn lemma_selection_stays_none(
    ms: Seq<ModuleEntry>,
    kmi: Seq<char>,
    arch: Seq<char>,
    present: Seq<bool>,
    a: int,
    b: int,
)
    requires
        a <= b,
        selected_modules(ms, kmi, arch, present, a) is None,
    ensures
        selected_modules(ms, kmi, arch, present, b) is None,
    decreases b - a,
{
    if a < b {
        lemma_selection_stays_none(ms, kmi, arch, present, a, b - 1);
    }
}

/// Position of the first module with this name.
pub fn module_entry(entries: &Vec<ModuleEntry>, name: &str) -> (r: Option<usize>)
    ensures
        r matches Some(i) ==> i < entries@.len() && entries@[i as int].name@ == name@ && forall|j: int|
            0 <= j < i ==> entries@[j].name@ != name@,
        r is None ==> forall|j: int| 0 <= j < entries@.len() ==> entries@[j].name@ != name@,
{
    let mut i: usize = 0;
    while i < entries.len()
        invariant
            i <= entries@.len(),
            forall|j: int| 0 <= j < i ==> entries@[j].name@ != name@,
        decreases entries@.len() - i,
    {
        if str_eq(entries[i].name.as_str(), name) {
            return Some(i);
        }
        i += 1;
    }
    None
}

// ---------------------------------------------------------------------------
// Laws
pub open spec fn no_ws(w: Seq<char>) -> bool {
    forall|k: int| 0 <= k < w.len() ==> !is_ws(#[trigger] w[k])
}

proof fn lemma_words_word(w: Seq<char>, rest: Seq<char>, acc: Seq<char>)
    requires
        no_ws(w),
    ensures
        words_from(w + rest, acc) == words_from(rest, acc + w),
    decreases w.len(),
{
    if w.len() > 0 {
        assert((w + rest).drop_first() =~= w.drop_first() + rest);
        assert((w + rest)[0] == w[0]);
        assert(no_ws(w.drop_first())) by {
            assert forall|k: int| 0 <= k < w.drop_first().len() implies !is_ws(
                #[trigger] w.drop_first()[k],
            ) by {
                assert(w.drop_first()[k] == w[k + 1]);
            }
        }
        lemma_words_word(w.drop_first(), rest, acc.push(w[0]));
        assert(acc.push(w[0]) + w.drop_first() =~= acc + w);
    } else {
        assert(w + rest =~= rest);
        assert(acc + w =~= acc);
    }
}

proof fn lemma_joined_front(ws: Seq<Seq<char>>, sep: Seq<char>)
    requires
        ws.len() >= 2,
    ensures
        joined(ws, sep) == ws[0] + sep + joined(ws.drop_first(), sep),
    decreases ws.len(),
{
    if ws.len() == 2 {
        assert(ws.drop_last().len() == 1);
        assert(ws.drop_first().len() == 1);
        assert(joined(ws.drop_first(), sep) == ws[1]);
        assert(joined(ws.drop_last(), sep) == ws[0]);
    } else {
        lemma_joined_front(ws.drop_last(), sep);
        assert(ws.drop_last().drop_first() =~= ws.drop_first().drop_last());
        assert(ws.drop_first().last() == ws.last());
        assert(ws.drop_last()[0] == ws[0]);
        assert(joined(ws.drop_first(), sep) == joined(ws.drop_first().drop_last(), sep) + sep
            + ws.drop_first().last());
    }
}

proof fn lemma_words_of_joined(ws: Seq<Seq<char>>)
    requires
        forall|i: int| 0 <= i < ws.len() ==> #[trigger] ws[i].len() > 0 && no_ws(ws[i]),
    ensures
        words(joined(ws, " "@) + "\n"@) == ws,
    decreases ws.len(),
{
    reveal_strlit(" ");
    reveal_strlit("\n");
    let nl = "\n"@;
    assert(is_ws('\n'));
    assert(is_ws(' '));
    if ws.len() == 0 {
        assert(joined(ws, " "@) + nl =~= nl);
        assert(nl.drop_first() =~= seq![]);
        assert(words(nl) == words_from(nl.drop_first(), seq![]));
        assert(words(nl) =~= ws);
    } else if ws.len() == 1 {
        let w = ws[0];
        assert(joined(ws, " "@) + nl =~= w + nl);
        lemma_words_word(w, nl, seq![]);
        assert(seq![] + w =~= w);
        assert(nl.drop_first() =~= seq![]);
        assert(words_from(nl, w) == seq![w] + words_from(nl.drop_first(), seq![]));
        assert(words(joined(ws, " "@) + nl) =~= ws);
    } else {
        let w = ws[0];
        let rest = ws.drop_first();
        lemma_joined_front(ws, " "@);
        let tail = joined(rest, " "@) + nl;
        assert(joined(ws, " "@) + nl =~= w + (" "@ + tail));
        lemma_words_word(w, " "@ + tail, seq![]);
        assert(seq![] + w =~= w);
        assert((" "@ + tail).drop_first() =~= tail);
        assert((" "@ + tail)[0] == ' ');
        assert(words_from(" "@ + tail, w) == seq![w] + words_from(tail, seq![]));
        assert forall|i: int| 0 <= i < rest.len() implies #[trigger] rest[i].len() > 0 && no_ws(
            rest[i],
        ) by {
            assert(rest[i] == ws[i + 1]);
        }
        lemma_words_of_joined(rest);
        assert(words(joined(ws, " "@) + nl) =~= ws);
    }
}

proof fn lemma_known_algorithm_is_word(a: Seq<char>)
    requires
        known_algorithm(a),
    ensures
        a.len() > 0,
        no_ws(a),
{
    reveal_strlit("bbr");
    reveal_strlit("bbr3");
    reveal_strlit("cubic");
    reveal_strlit("reno");
    reveal_strlit("vegas");
}

proof fn lemma_filter_keeps_all(s: Seq<Seq<char>>)
    requires
        forall|i: int| 0 <= i < s.len() ==> known_algorithm(#[trigger] s[i]),
    ensures
        s.filter(|w: Seq<char>| known_algorithm(w)) == s,
    decreases s.len(),
{
    if s.len() > 0 {
        let pre = s.drop_last();
        assert forall|i: int| 0 <= i < pre.len() implies known_algorithm(#[trigger] pre[i]) by {
            assert(pre[i] == s[i]);
        }
        lemma_filter_keeps_all(pre);
        pre.lemma_filter_push(s.last(), |w: Seq<char>| known_algorithm(w));
        assert(pre.push(s.last()) =~= s);
    } else {
        assert(s.filter(|w: Seq<char>| known_algorithm(w)) =~= s);
    }
}

/// Reading back the marker written for a list of known algorithms gives
/// that list: the marker file round-trips.
pub proof fn lemma_marker_round_trip(values: Seq<Seq<char>>)
    requires
        forall|i: int| 0 <= i < values.len() ==> known_algorithm(#[trigger] values[i]),
    ensures
        unavailable_spec(Some(joined(values, " "@) + "\n"@)) == values,
{
    assert forall|i: int| 0 <= i < values.len() implies #[trigger] values[i].len() > 0 && no_ws(
        values[i],
    ) by {
        lemma_known_algorithm_is_word(values[i]);
    }
    lemma_words_of_joined(values);
    lemma_filter_keeps_all(values);
}

/// Whatever the marker held, the list that marking a known algorithm
/// yields reads back from its marker text unchanged, and lists the
/// algorithm.
pub proof fn lemma_marked_algorithm_reads_back(
    content: Option<Seq<char>>,
    algorithm: Seq<char>,
    marked: Seq<Seq<char>>,
)
    requires
        known_algorithm(algorithm),
        forall|x: Seq<char>|
            marked.contains(x) <==> (unavailable_spec(content).contains(x) || x == algorithm),
    ensures
        unavailable_spec(Some(joined(marked, " "@) + "\n"@)) == marked,
        unavailable_spec(Some(joined(marked, " "@) + "\n"@)).contains(algorithm),
{
    assert forall|i: int| 0 <= i < marked.len() implies known_algorithm(#[trigger] marked[i]) by {
        assert(marked.contains(marked[i]));
        if marked[i] != algorithm {
            lemma_recorded_is_known(content, marked[i]);
        }
    }
    lemma_marker_round_trip(marked);
}

/// The list that clearing an algorithm yields reads back from its marker
/// text unchanged, and no longer lists the algorithm.
pub proof fn lemma_cleared_algorithm_reads_back(
    content: Option<Seq<char>>,
    algorithm: Seq<char>,
    cleared: Seq<Seq<char>>,
)
    requires
        forall|x: Seq<char>|
            cleared.contains(x) <==> (unavailable_spec(content).contains(x) && x != algorithm),
    ensures
        unavailable_spec(Some(joined(cleared, " "@) + "\n"@)) == cleared,
        !unavailable_spec(Some(joined(cleared, " "@) + "\n"@)).contains(algorithm),
{
    assert forall|i: int| 0 <= i < cleared.len() implies known_algorithm(#[trigger] cleared[i]) by {
        assert(cleared.contains(cleared[i]));
        lemma_recorded_is_known(content, cleared[i]);
    }
    lemma_marker_round_trip(cleared);
}

proof fn lemma_recorded_is_known(content: Option<Seq<char>>, x: Seq<char>)
    requires
        unavailable_spec(content).contains(x),
    ensures
        known_algorithm(x),
{
    let c = content->0;
    let j = choose|j: int|
        0 <= j < unavailable_spec(content).len() && unavailable_spec(content)[j] == x;
    words(c).filter_lemma(|w: Seq<char>| known_algorithm(w));
    assert(known_algorithm(unavailable_spec(content)[j]));
}

/// A bundled algorithm that the kernel's list gains: not blocked and not
/// already listed.
pub open spec fn extra_algorithm(native: Seq<Seq<char>>, blocked: Seq<Seq<char>>) -> spec_fn(
    Seq<char>,
) -> bool {
    |a: Seq<char>| !seq_has(blocked, a) && !seq_has(native, a)
}

/// With distinct bundled names, the offered list is the kernel's list
/// followed by the bundled algorithms that are neither blocked nor listed by
/// the kernel, in bundled order.
pub proof fn lemma_augmented_appends_filtered(
    native: Seq<Seq<char>>,
    blocked: Seq<Seq<char>>,
    bundled: Seq<Seq<char>>,
)
    requires
        forall|i: int, j: int| 0 <= i < j < bundled.len() ==> bundled[i] != bundled[j],
    ensures
        augmented(native, blocked, bundled) == native + bundled.filter(
            extra_algorithm(native, blocked),
        ),
    decreases bundled.len(),
{
    reveal(Seq::filter);
    if bundled.len() > 0 {
        let d = bundled.drop_last();
        let a = bundled.last();
        let pred = extra_algorithm(native, blocked);
        lemma_augmented_appends_filtered(native, blocked, d);
        let f = d.filter(pred);
        let prev = native + f;
        assert(augmented(native, blocked, d) == prev);
        if f.contains(a) {
            d.lemma_filter_contains_rev(pred, a);
            let k = choose|k: int| 0 <= k < d.len() && d[k] == a;
            assert(bundled[k] == bundled[bundled.len() - 1]);
        }
        assert(!f.contains(a));
        assert(seq_has(prev, a) == seq_has(native, a)) by {
            if seq_has(native, a) {
                let i = choose|i: int| 0 <= i < native.len() && native[i] == a;
                assert(prev[i] == a);
            }
            if seq_has(prev, a) {
                let i = choose|i: int| 0 <= i < prev.len() && prev[i] == a;
                if i >= native.len() {
                    assert(f[i - native.len()] == a);
                    assert(f.contains(a));
                }
            }
        }
        assert(bundled.filter(pred) == if pred(a) { f.push(a) } else { f });
        if pred(a) {
            assert(prev.push(a) =~= native + f.push(a));
        }
    }
}

// ---------------------------------------------------------------------------
// The unavailable-qdisc marker
/// Known qdiscs listed in the `unavailable_qdiscs` file.
pub open spec fn unavailable_qdisc_spec(content: Option<Seq<char>>) -> Seq<Seq<char>> {
    match content {
        Some(c) => words(c).filter(|w: Seq<char>| known_qdisc(w)),
        None => seq![],
    }
}

/// The qdiscs marked unavailable, from the marker file's content when it
/// could be read.
pub fn unavailable_qdiscs(content: Option<&str>) -> (r: Vec<String>)
    ensures
        string_views(r@) == unavailable_qdisc_spec(
            match content {
                Some(c) => Some(c@),
                None => None,
            },
        ),
{
    let c = match content {
        Some(c) => c,
        None => {
            let out: Vec<String> = Vec::new();
            assert(string_views(out@) =~= seq![]);
            return out;
        },
    };
    let cs = chars_of(c);
    let ws = split_whitespace(cs.as_slice());
    let ghost w = views(ws@);
    let mut out: Vec<String> = Vec::new();
    let mut i: usize = 0;
    assert(w.subrange(0, 0).filter(|x: Seq<char>| known_qdisc(x)) =~= seq![]);
    while i < ws.len()
        invariant
            i <= ws@.len(),
            w == views(ws@),
            w == words(c@),
            string_views(out@) == w.subrange(0, i as int).filter(|x: Seq<char>| known_qdisc(x)),
        decreases ws@.len() - i,
    {
        let word = crate::text::string_of(ws[i].as_slice());
        assert(word@ == w[i as int]);
        let ghost before = string_views(out@);
        let ghost pre = w.subrange(0, i as int);
        assert(w.subrange(0, i + 1) =~= pre.push(w[i as int]));
        proof {
            pre.lemma_filter_push(w[i as int], |x: Seq<char>| known_qdisc(x));
        }
        if is_known_qdisc(word.as_str()) {
            let ghost wv = word@;
            out.push(word);
            assert(string_views(out@) =~= before.push(wv));
        }
        i += 1;
    }
    assert(w.subrange(0, ws@.len() as int) =~= w);
    out
}

/// The qdiscs to record after marking `qdisc` unavailable, from
/// the marker's content when it could be read: the recorded ones and
/// `qdisc`, sorted, each once. An unknown name is refused.
pub fn marked_qdisc_unavailable(content: Option<&str>, qdisc: &str) -> (r: Result<
    Vec<String>,
    ModuleError,
>)
    ensures
        !known_qdisc(qdisc@) ==> (r matches Err(ModuleError::UnknownQdisc(a)) && a@
            == qdisc@),
        known_qdisc(qdisc@) ==> (r matches Ok(v) && strictly_sorted(string_views(v@))
            && forall|x: Seq<char>|
            string_views(v@).contains(x) <==> (unavailable_qdisc_spec(content_view(content)).contains(x)
                || x == qdisc@)),
{
    if !is_known_qdisc(qdisc) {
        return Err(ModuleError::UnknownQdisc(owned(qdisc)));
    }
    let mut blocked = unavailable_qdiscs(content);
    let ghost before = string_views(blocked@);
    blocked.push(owned(qdisc));
    proof {
        assert(string_views(blocked@) =~= before.push(qdisc@));
        assert forall|x: Seq<char>| string_views(blocked@).contains(x) <==> (before.contains(x)
            || x == qdisc@) by {
            if string_views(blocked@).contains(x) {
                let j = choose|j: int| 0 <= j < string_views(blocked@).len() && string_views(blocked@)[j] == x;
                if j < before.len() {
                    assert(before[j] == x);
                }
            }
            if before.contains(x) {
                let j = choose|j: int| 0 <= j < before.len() && before[j] == x;
                assert(string_views(blocked@)[j] == x);
            }
            if x == qdisc@ {
                assert(string_views(blocked@)[before.len() as int] == x);
            }
        }
    }
    Ok(sort_dedup(&blocked))
}

/// The qdiscs to record after clearing `qdisc`: `None` when it was
/// not recorded (nothing changes), otherwise the others, sorted, each once;
/// an empty list means that the marker is removed.
pub fn cleared_qdisc_unavailable(content: Option<&str>, qdisc: &str) -> (r: Option<Vec<String>>)
    ensures
        !unavailable_qdisc_spec(content_view(content)).contains(qdisc@) <==> r is None,
        r matches Some(v) ==> strictly_sorted(string_views(v@)) && forall|x: Seq<char>|
            string_views(v@).contains(x) <==> (unavailable_qdisc_spec(content_view(content)).contains(x)
                && x != qdisc@),
{
    let blocked = unavailable_qdiscs(content);
    let ghost bv = string_views(blocked@);
    let mut rest: Vec<String> = Vec::new();
    let mut found = false;
    let mut i: usize = 0;
    while i < blocked.len()
        invariant
            bv == string_views(blocked@),
            i <= blocked@.len(),
            found <==> bv.subrange(0, i as int).contains(qdisc@),
            forall|x: Seq<char>|
                string_views(rest@).contains(x) <==> (bv.subrange(0, i as int).contains(x) && x
                    != qdisc@),
        decreases blocked@.len() - i,
    {
        let ghost pre = bv.subrange(0, i as int);
        let ghost next = bv.subrange(0, i + 1);
        assert(next =~= pre.push(bv[i as int]));
        let ghost old_rest = string_views(rest@);
        if str_eq(blocked[i].as_str(), qdisc) {
            found = true;
        } else {
            rest.push(owned(blocked[i].as_str()));
            assert(string_views(rest@) =~= old_rest.push(bv[i as int]));
        }
        proof {
            assert forall|x: Seq<char>| next.contains(x) <==> (pre.contains(x) || x == bv[i as int]) by {
                if next.contains(x) {
                    let j = choose|j: int| 0 <= j < next.len() && next[j] == x;
                    if j < pre.len() {
                        assert(pre[j] == x);
                    }
                }
                if pre.contains(x) {
                    let j = choose|j: int| 0 <= j < pre.len() && pre[j] == x;
                    assert(next[j] == x);
                }
                if x == bv[i as int] {
                    assert(next[i as int] == x);
                }
            }
            assert forall|x: Seq<char>| string_views(rest@).contains(x) <==> (next.contains(x) && x
                != qdisc@) by {
                if string_views(rest@).contains(x) && !old_rest.contains(x) {
                    let j = choose|j: int| 0 <= j < string_views(rest@).len() && string_views(rest@)[j] == x;
                    assert(j == old_rest.len());
                }
                if old_rest.contains(x) && string_views(rest@) != old_rest {
                    let j = choose|j: int| 0 <= j < old_rest.len() && old_rest[j] == x;
                    assert(string_views(rest@)[j] == x);
                }
                if x == bv[i as int] && x != qdisc@ {
                    assert(string_views(rest@)[old_rest.len() as int] == x);
                }
            }
        }
        i += 1;
    }
    assert(bv.subrange(0, blocked@.len() as int) =~= bv);
    if !found {
        return None;
    }
    Some(sort_dedup(&rest))
}

/// The list offered to the policy is the kernel's own list, unchanged, then
/// each bundled algorithm of this kernel, in table order, that is neither
/// marked unavailable nor already listed by the kernel.
pub proof fn lemma_augment_keeps_native_then_bundled(
    native: Seq<Seq<char>>,
    blocked: Seq<Seq<char>>,
    modules: Seq<Seq<char>>,
)
    ensures
        augmented(native, blocked, bundled_algorithms_spec(modules)).subrange(0, native.len() as int)
            == native,
        augmented(native, blocked, bundled_algorithms_spec(modules)).subrange(
            native.len() as int,
            augmented(native, blocked, bundled_algorithms_spec(modules)).len() as int,
        ) == bundled_algorithms_spec(modules).filter(extra_algorithm(native, blocked)),
{
    let b = bundled_algorithms_spec(modules);
    reveal_strlit("bbr");
    reveal_strlit("bbr3");
    assert(forall|i: int, j: int| 0 <= i < j < b.len() ==> b[i] != b[j]) by {
        if b.len() == 2 {
            assert(b[0] == "bbr"@ && b[1] == "bbr3"@);
            assert(b[0].len() != b[1].len());
        }
    }
    lemma_augmented_appends_filtered(native, blocked, b);
    let r = augmented(native, blocked, b);
    let f = b.filter(extra_algorithm(native, blocked));
    assert(r.subrange(0, native.len() as int) =~= native);
    assert(r.subrange(native.len() as int, r.len() as int) =~= f);
}

} // verus!


