//! The order of strings (`str`'s `Ord`: byte order of UTF-8, which is the
//! order of the characters' code points) and sorting a list of messages
//! into sorted, duplicate-free form.
use vstd::prelude::*;

use crate::text::{chars_of, owned, string_views};

verus! {

/// `a` sorts before `b`.
pub open spec fn text_lt(a: Seq<char>, b: Seq<char>) -> bool
    decreases a.len(),
{
    if a.len() == 0 {
        b.len() > 0
    } else if b.len() == 0 {
        false
    } else if a[0] != b[0] {
        (a[0] as u32) < (b[0] as u32)
    } else {
        text_lt(a.drop_first(), b.drop_first())
    }
}

/// No text sorts before itself.
pub proof fn lemma_text_lt_irreflexive(a: Seq<char>)
    ensures
        !text_lt(a, a),
    decreases a.len(),
{
    if a.len() > 0 {
        lemma_text_lt_irreflexive(a.drop_first());
    }
}

/// Of two texts, exactly one sorts first, or they are equal.
pub proof fn lemma_text_lt_total(a: Seq<char>, b: Seq<char>)
    ensures
        text_lt(a, b) || a == b || text_lt(b, a),
        !(text_lt(a, b) && text_lt(b, a)),
    decreases a.len(),
{
    if a.len() == 0 {
        if b.len() == 0 {
            assert(a =~= b);
        }
    } else if b.len() == 0 {
    } else if a[0] != b[0] {
        vstd::utf8::char_u32_cast(a[0], a[0] as u32);
        vstd::utf8::char_u32_cast(b[0], b[0] as u32);
    } else {
        lemma_text_lt_total(a.drop_first(), b.drop_first());
        if a.drop_first() == b.drop_first() {
            assert(a =~= seq![a[0]] + a.drop_first());
            assert(b =~= seq![b[0]] + b.drop_first());
        }
    }
}

/// The order is transitive.
pub proof fn lemma_text_lt_transitive(a: Seq<char>, b: Seq<char>, c: Seq<char>)
    requires
        text_lt(a, b),
        text_lt(b, c),
    ensures
        text_lt(a, c),
    decreases a.len(),
{
    if a.len() == 0 {
    } else if a[0] != b[0] || b[0] != c[0] {
    } else {
        lemma_text_lt_transitive(a.drop_first(), b.drop_first(), c.drop_first());
    }
}

/// Strictly increasing: sorted, with no text twice.
pub open spec fn strictly_sorted(s: Seq<Seq<char>>) -> bool {
    forall|i: int, j: int| 0 <= i < j < s.len() ==> text_lt(s[i], s[j])
}

/// `a` sorts before `b`.
pub fn text_less(a: &[char], b: &[char]) -> (r: bool)
    ensures
        r == text_lt(a@, b@),
{
    let mut i: usize = 0;
    assert(a@.subrange(0, a@.len() as int) =~= a@);
    assert(b@.subrange(0, b@.len() as int) =~= b@);
    loop
        invariant
            i <= a@.len(),
            i <= b@.len(),
            text_lt(a@, b@) == text_lt(a@.subrange(i as int, a@.len() as int), b@.subrange(
                i as int,
                b@.len() as int,
            )),
        decreases a@.len() - i,
    {
        let ghost sa = a@.subrange(i as int, a@.len() as int);
        let ghost sb = b@.subrange(i as int, b@.len() as int);
        if i == a.len() {
            return i < b.len();
        }
        if i == b.len() {
            return false;
        }
        assert(sa[0] == a@[i as int] && sb[0] == b@[i as int]);
        if a[i] != b[i] {
            return (a[i] as u32) < (b[i] as u32);
        }
        assert(sa.drop_first() =~= a@.subrange(i + 1, a@.len() as int));
        assert(sb.drop_first() =~= b@.subrange(i + 1, b@.len() as int));
        i += 1;
    }
}

/// The messages, sorted, each once (what `sort` then `dedup` leaves).
pub fn sort_dedup(v: &Vec<String>) -> (r: Vec<String>)
    ensures
        strictly_sorted(string_views(r@)),
        forall|x: Seq<char>| string_views(r@).contains(x) <==> string_views(v@).contains(x),
{
    let mut out: Vec<String> = Vec::new();
    let mut keys: Vec<Vec<char>> = Vec::new();
    let mut k: usize = 0;
    while k < v.len()
        invariant
            k <= v@.len(),
            keys@.len() == out@.len(),
            forall|i: int| 0 <= i < out@.len() ==> keys@[i]@ == out@[i]@,
            strictly_sorted(string_views(out@)),
            forall|x: Seq<char>| string_views(out@).contains(x) <==> string_views(v@).subrange(
                0,
                k as int,
            ).contains(x),
        decreases v@.len() - k,
    {
        let x = chars_of(v[k].as_str());
        let ghost sv = string_views(out@);
        let mut p: usize = 0;
        while p < out.len() && text_less(keys[p].as_slice(), x.as_slice())
            invariant
                p <= out@.len(),
                keys@.len() == out@.len(),
                forall|i: int| 0 <= i < out@.len() ==> keys@[i]@ == out@[i]@,
                sv == string_views(out@),
                forall|i: int| 0 <= i < p ==> text_lt(sv[i], x@),
            decreases out@.len() - p,
        {
            assert(sv[p as int] == out@[p as int]@);
            p += 1;
        }
        let ghost pre = string_views(v@).subrange(0, k as int);
        assert(string_views(v@).subrange(0, k + 1) =~= pre.push(x@));
        assert(string_views(v@)[k as int] == v@[k as int]@);
        if p < out.len() && crate::text::chars_eq(keys[p].as_slice(), x.as_slice()) {
            assert(sv[p as int] == x@);
            assert forall|y: Seq<char>| sv.contains(y) <==> pre.push(x@).contains(y) by {
                if pre.push(x@).contains(y) && y != x@ {
                    let j = choose|j: int| 0 <= j < pre.push(x@).len() && pre.push(x@)[j] == y;
                    assert(pre[j] == y);
                    assert(pre.contains(y));
                }
                if sv.contains(y) {
                    assert(pre.contains(y));
                    let j = choose|j: int| 0 <= j < pre.len() && pre[j] == y;
                    assert(pre.push(x@)[j] == y);
                }
            }
        } else {
            proof {
                if p < out@.len() {
                    assert(!text_lt(sv[p as int], x@));
                    assert(sv[p as int] != x@);
                    lemma_text_lt_total(sv[p as int], x@);
                }
            }
            let item = owned(v[k].as_str());
            out.insert(p, item);
            keys.insert(p, x);
            proof {
                let nv = string_views(out@);
                assert(nv =~= sv.insert(p as int, x@));
                assert forall|i: int, j: int| 0 <= i < j < nv.len() implies text_lt(
                    nv[i],
                    nv[j],
                ) by {
                    if j < p {
                    } else if j == p {
                    } else if i < p {
                        assert(nv[j] == sv[j - 1]);
                        if i < p {
                            assert(text_lt(sv[i], x@));
                            if (j - 1) == p {
                                lemma_text_lt_transitive(sv[i], x@, sv[j - 1]);
                            } else {
                                assert(text_lt(sv[i], sv[j - 1]));
                            }
                        }
                    } else if i == p {
                        assert(nv[i] == x@);
                        assert(text_lt(x@, sv[p as int]));
                        if j - 1 > p {
                            lemma_text_lt_transitive(x@, sv[p as int], sv[j - 1]);
                        }
                    } else {
                        assert(nv[i] == sv[i - 1] && nv[j] == sv[j - 1]);
                    }
                }
                assert forall|y: Seq<char>| nv.contains(y) <==> pre.push(x@).contains(y) by {
                    if nv.contains(y) {
                        let j = choose|j: int| 0 <= j < nv.len() && nv[j] == y;
                        if j == p {
                            assert(pre.push(x@)[pre.len() as int] == y);
                        } else if j < p {
                            assert(sv[j] == y);
                            assert(sv.contains(y));
                            let m = choose|m: int| 0 <= m < pre.len() && pre[m] == y;
                            assert(pre.push(x@)[m] == y);
                        } else {
                            assert(sv[j - 1] == y);
                            assert(sv.contains(y));
                            let m = choose|m: int| 0 <= m < pre.len() && pre[m] == y;
                            assert(pre.push(x@)[m] == y);
                        }
                    }
                    if pre.push(x@).contains(y) {
                        let j = choose|j: int| 0 <= j < pre.push(x@).len() && pre.push(x@)[j] == y;
                        if j == pre.len() {
                            assert(nv[p as int] == y);
                        } else {
                            assert(pre[j] == y);
                            assert(pre.contains(y));
                            assert(sv.contains(y));
                            let m = choose|m: int| 0 <= m < sv.len() && sv[m] == y;
                            if m < p {
                                assert(nv[m] == y);
                            } else {
                                assert(nv[m + 1] == y);
                            }
                        }
                    }
                }
                assert forall|i: int| 0 <= i < out@.len() implies keys@[i]@ == out@[i]@ by {
                    if i < p {
                    } else if i == p {
                    } else {
                    }
                }
            }
        }
        k += 1;
    }
    assert(string_views(v@).subrange(0, v@.len() as int) =~= string_views(v@));
    out
}

} // verus!
