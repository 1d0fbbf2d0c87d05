//! The order in which text is sorted, and listings of key/value entries put
//! in that order.
//!
//! `Ord` on `str` compares the UTF-8 bytes lexicographically; UTF-8 keeps the
//! order of code points, so that is the lexicographic order of the
//! characters by code point, which `text_lt` states.

use vstd::prelude::*;
use vstd::multiset::Multiset;
use crate::text::chars_of;

verus! {

broadcast use vstd::seq_lib::group_to_multiset_ensures;

/// `a` sorts strictly before `b`.
pub open spec fn text_lt(a: Seq<char>, b: Seq<char>) -> bool
    decreases a.len(),
{
    if a.len() == 0 {
        b.len() > 0
    } else if b.len() == 0 {
        false
    } else if a[0] != b[0] {
        (a[0] as int) < (b[0] as int)
    } else {
        text_lt(a.drop_first(), b.drop_first())
    }
}

/// Nothing sorts before itself.
pub proof fn lemma_text_lt_irreflexive(a: Seq<char>)
    ensures
        !text_lt(a, a),
    decreases a.len(),
{
    if a.len() > 0 {
        lemma_text_lt_irreflexive(a.drop_first());
    }
}

/// Of two texts that sort one before the other, the second does not sort
/// before the first.
pub proof fn lemma_text_lt_asymmetric(a: Seq<char>, b: Seq<char>)
    ensures
        text_lt(a, b) ==> !text_lt(b, a),
    decreases a.len(),
{
    if a.len() > 0 && b.len() > 0 && a[0] == b[0] {
        lemma_text_lt_asymmetric(a.drop_first(), b.drop_first());
    }
}

/// Two different texts are ordered one way or the other.
pub proof fn lemma_text_lt_total(a: Seq<char>, b: Seq<char>)
    ensures
        a == b || text_lt(a, b) || text_lt(b, a),
    decreases a.len(),
{
    if a.len() == 0 && b.len() == 0 {
        assert(a =~= b);
    } else if a.len() > 0 && b.len() > 0 && a[0] == b[0] {
        lemma_text_lt_total(a.drop_first(), b.drop_first());
        if a.drop_first() == b.drop_first() {
            assert(a =~= seq![a[0]] + a.drop_first());
            assert(b =~= seq![b[0]] + b.drop_first());
        }
    }
}

/// The order is transitive.
pub proof fn lemma_text_lt_transitive(a: Seq<char>, b: Seq<char>, c: Seq<char>)
    requires
        text_lt(a, b),
        text_lt(b, c),
    ensures
        text_lt(a, c),
    decreases a.len(),
{
    if a.len() > 0 && b.len() > 0 && c.len() > 0 && a[0] == b[0] && b[0] == c[0] {
        lemma_text_lt_transitive(a.drop_first(), b.drop_first(), c.drop_first());
    }
}

/// Whether `a` sorts strictly before `b`, as `a < b` on `str` decides it.
pub fn text_less(a: &str, b: &str) -> (res: bool)
    ensures
        res == text_lt(a@, b@),
{
    let x = chars_of(a);
    let y = chars_of(b);
    let mut i: usize = 0;
    proof {
        assert(a@.skip(0) =~= a@);
        assert(b@.skip(0) =~= b@);
    }
    while i < x.len() && i < y.len()
        invariant
            x@ == a@,
            y@ == b@,
            i <= x.len(),
            i <= y.len(),
            text_lt(a@, b@) == text_lt(a@.skip(i as int), b@.skip(i as int)),
        decreases x.len() - i,
    {
        if x[i] != y[i] {
            return x[i] < y[i];
        }
        proof {
            assert(a@.skip(i as int).drop_first() =~= a@.skip(i + 1));
            assert(b@.skip(i as int).drop_first() =~= b@.skip(i + 1));
        }
        i = i + 1;
    }
    i < y.len()
}

/// The entries are in order of their keys; entries with equal keys may
/// stand in any order.
pub open spec fn keys_sorted<V>(s: Seq<(String, V)>) -> bool {
    forall|i: int, j: int|
        #![trigger s[i], s[j]]
        0 <= i < j < s.len() ==> !text_lt(s[j].0@, s[i].0@)
}

/// Putting `e` at `p` keeps a sorted listing sorted when the keys before `p`
/// sort before `e`'s and the key at `p` does not.
proof fn lemma_insert_keeps_sorted<V>(s: Seq<(String, V)>, p: int, e: (String, V))
    requires
        keys_sorted(s),
        0 <= p <= s.len(),
        forall|q: int| 0 <= q < p ==> text_lt(#[trigger] s[q].0@, e.0@),
        p < s.len() ==> !text_lt(s[p].0@, e.0@),
    ensures
        keys_sorted(s.insert(p, e)),
{
    let t = s.insert(p, e);
    assert forall|i: int, j: int| 0 <= i < j < t.len() implies !text_lt(
        #[trigger] t[j].0@,
        #[trigger] t[i].0@,
    ) by {
        if i == p {
            // t[j] is s[j - 1], at or after p.
            let k = s[j - 1].0@;
            if text_lt(k, e.0@) {
                lemma_text_lt_total(k, s[p].0@);
                if k != s[p].0@ && text_lt(s[p].0@, k) {
                    lemma_text_lt_transitive(s[p].0@, k, e.0@);
                } else if k != s[p].0@ {
                    assert(j - 1 > p);
                    assert(!text_lt(s[j - 1].0@, s[p].0@));
                }
            }
        } else if j == p {
            lemma_text_lt_asymmetric(s[i].0@, e.0@);
        } else if i < p && j > p {
            assert(t[j] == s[j - 1]);
            assert(t[i] == s[i]);
        } else if j < p {
            assert(t[j] == s[j] && t[i] == s[i]);
        } else {
            assert(t[j] == s[j - 1] && t[i] == s[i - 1]);
        }
    }
}

/// The entries, sorted by key as a stable sort orders them.
pub fn sort_entries(v: Vec<(String, String)>) -> (res: Vec<(String, String)>)
    ensures
        res@.to_multiset() == v@.to_multiset(),
        keys_sorted(res@),
{
    let ghost all = v@;
    let mut rest = v;
    let mut out: Vec<(String, String)> = Vec::new();
    proof {
        assert(out@.to_multiset() =~= Multiset::empty());
        assert(out@.to_multiset().add(rest@.to_multiset()) =~= all.to_multiset());
    }
    while rest.len() > 0
        invariant
            out@.to_multiset().add(rest@.to_multiset()) == all.to_multiset(),
            keys_sorted(out@),
        decreases rest.len(),
    {
        let ghost before = rest@;
        let e = rest.pop().unwrap();
        proof {
            assert(before =~= rest@.push(e));
        }
        let mut p: usize = 0;
        while p < out.len() && text_less(out[p].0.as_str(), e.0.as_str())
            invariant
                p <= out.len(),
                forall|q: int| 0 <= q < p ==> text_lt(#[trigger] out@[q].0@, e.0@),
            decreases out.len() - p,
        {
            p = p + 1;
        }
        proof {
            lemma_insert_keeps_sorted(out@, p as int, e);
        }
        let ghost old_out = out@;
        out.insert(p, e);
        proof {
            assert(out@.to_multiset() == old_out.to_multiset().insert(e));
            assert(out@.to_multiset().add(rest@.to_multiset()) =~= old_out.to_multiset().add(
                before.to_multiset(),
            ));
        }
    }
    proof {
        assert(rest@.to_multiset() =~= Multiset::empty());
        assert(out@.to_multiset() =~= all.to_multiset());
    }
    out
}

} // verus!
