//! Canonical orderings: sorting numbers and names, and the fact that a sorted sequence
//! is determined by its elements.
use vstd::prelude::*;
use vstd::relations::{sorted_by, total_ordering};

use crate::text;

verus! {

broadcast use vstd::seq_lib::group_to_multiset_ensures;

/// The usual order of unsigned numbers.
pub open spec fn u64_le() -> spec_fn(u64, u64) -> bool {
    |a: u64, b: u64| a <= b
}

/// The code-point order of texts, as a non-strict order.
pub open spec fn text_le() -> spec_fn(Seq<char>, Seq<char>) -> bool {
    |a: Seq<char>, b: Seq<char>| !text::text_less(b, a)
}

/// The texts of `names`.
pub open spec fn views(names: Seq<String>) -> Seq<Seq<char>> {
    names.map_values(|s: String| s@)
}

pub proof fn lemma_u64_le_total()
    ensures
        total_ordering(u64_le()),
{
}

pub proof fn lemma_text_le_total()
    ensures
        total_ordering(text_le()),
{
    let le = text_le();
    assert forall|x: Seq<char>| #[trigger] le(x, x) by {
        text::lemma_text_less_irreflexive(x);
    }
    assert forall|x: Seq<char>, y: Seq<char>| #[trigger] le(x, y) && #[trigger] le(y, x) implies x
        == y by {
        text::lemma_text_less_total(x, y);
    }
    assert forall|x: Seq<char>, y: Seq<char>, z: Seq<char>| #[trigger] le(x, y) && #[trigger] le(
        y,
        z,
    ) implies le(x, z) by {
        if text::text_less(z, x) {
            text::lemma_text_less_total(x, y);
            text::lemma_text_less_total(y, z);
            if x == y {
            } else if y == z {
            } else {
                text::lemma_text_less_transitive(x, y, z);
                text::lemma_text_less_asymmetric(z, x);
            }
        }
    }
    assert forall|x: Seq<char>, y: Seq<char>| #[trigger] le(x, y) || #[trigger] le(y, x) by {
        if text::text_less(y, x) {
            text::lemma_text_less_asymmetric(y, x);
        }
    }
}

/// Two sorted sequences with the same elements (counted with multiplicity) are equal:
/// sorting is canonical.
pub proof fn lemma_sorted_unique<T>(s: Seq<T>, t: Seq<T>, le: spec_fn(T, T) -> bool)
    requires
        total_ordering(le),
        sorted_by(s, le),
        sorted_by(t, le),
        s.to_multiset() == t.to_multiset(),
    ensures
        s == t,
    decreases s.len(),
{
    assert(s.to_multiset().len() == s.len());
    assert(t.to_multiset().len() == t.len());
    if s.len() == 0 {
        assert(t.len() == 0);
        assert(s =~= t);
    } else {
        assert(t.len() == s.len());
        let a = s[0];
        let b = t[0];
        assert(s.contains(a));
        assert(t.to_multiset().count(a) > 0);
        assert(t.contains(a));
        let j = choose|j: int| 0 <= j < t.len() && t[j] == a;
        if j > 0 {
            assert(le(t[0], t[j]));
        }
        assert(le(b, a));
        assert(t.contains(b));
        assert(s.to_multiset().count(b) > 0);
        assert(s.contains(b));
        let k = choose|k: int| 0 <= k < s.len() && s[k] == b;
        if k > 0 {
            assert(le(s[0], s[k]));
        }
        assert(le(a, b));
        assert(a == b);
        let s1 = s.drop_first();
        let t1 = t.drop_first();
        assert(s.remove(0) =~= s1);
        assert(t.remove(0) =~= t1);
        assert(s1.to_multiset() =~= t1.to_multiset());
        assert(sorted_by(s1, le)) by {
            assert forall|x: int, y: int| 0 <= x < y < s1.len() implies #[trigger] le(s1[x], s1[y]) by {
                assert(le(s[x + 1], s[y + 1]));
            }
        }
        assert(sorted_by(t1, le)) by {
            assert forall|x: int, y: int| 0 <= x < y < t1.len() implies #[trigger] le(t1[x], t1[y]) by {
                assert(le(t[x + 1], t[y + 1]));
            }
        }
        lemma_sorted_unique(s1, t1, le);
        assert forall|i: int| 0 <= i < s.len() implies s[i] == t[i] by {
            if i > 0 {
                assert(s[i] == s1[i - 1]);
                assert(t[i] == t1[i - 1]);
            }
        }
        assert(s =~= t);
    }
}

/// Inserting an element adds it to the multiset.
proof fn lemma_insert_multiset<T>(s: Seq<T>, i: int, x: T)
    requires
        0 <= i <= s.len(),
    ensures
        s.insert(i, x).to_multiset() == s.to_multiset().insert(x),
{
    let t = s.insert(i, x);
    s.insert_ensures(i, x);
    assert(t.remove(i) =~= s);
    assert(t.remove(i).to_multiset() =~= t.to_multiset().remove(t[i]));
    assert(t.to_multiset().count(x) > 0) by {
        assert(t.contains(x));
    }
    assert(t.to_multiset() =~= s.to_multiset().insert(x));
}

/// `values` sorted into ascending order.
pub fn sort_u64(values: &Vec<u64>) -> (r: Vec<u64>)
    ensures
        sorted_by(r@, u64_le()),
        r@.to_multiset() == values@.to_multiset(),
{
    let mut out: Vec<u64> = Vec::new();
    let mut i: usize = 0;
    assert(values@.subrange(0, 0) =~= Seq::<u64>::empty());
    while i < values.len()
        invariant
            i <= values@.len(),
            sorted_by(out@, u64_le()),
            out@.to_multiset() == values@.subrange(0, i as int).to_multiset(),
        decreases values@.len() - i,
    {
        let x = values[i];
        let mut p: usize = 0;
        while p < out.len() && out[p] < x
            invariant
                p <= out@.len(),
                forall|q: int| 0 <= q < p ==> out@[q] < x,
            decreases out@.len() - p,
        {
            p = p + 1;
        }
        let ghost before = out@;
        out.insert(p, x);
        proof {
            before.insert_ensures(p as int, x);
            lemma_insert_multiset(before, p as int, x);
            assert(values@.subrange(0, i + 1) =~= values@.subrange(0, i as int).push(x));
            let le = u64_le();
            assert forall|a: int, b: int| 0 <= a < b < out@.len() implies #[trigger] le(
                out@[a],
                out@[b],
            ) by {
                if a < p && b == p {
                } else if a < p && b > p {
                    assert(out@[b] == before[b - 1]);
                    assert(le(before[a], before[b - 1]));
                } else if a == p && b > p {
                    assert(out@[b] == before[b - 1]);
                    assert(before[p as int] >= x);
                    assert(le(before[p as int], before[b - 1]) || b - 1 == p);
                } else if a > p {
                    assert(out@[a] == before[a - 1]);
                    assert(out@[b] == before[b - 1]);
                    assert(le(before[a - 1], before[b - 1]));
                }
            }
        }
        i = i + 1;
    }
    assert(values@.subrange(0, i as int) =~= values@);
    out
}

/// `names` sorted into ascending code-point order.
pub fn sort_texts(names: &Vec<String>) -> (r: Vec<String>)
    ensures
        sorted_by(views(r@), text_le()),
        views(r@).to_multiset() == views(names@).to_multiset(),
{
    let mut out: Vec<String> = Vec::new();
    let mut i: usize = 0;
    assert(views(names@.subrange(0, 0)) =~= Seq::<Seq<char>>::empty());
    assert(views(out@) =~= Seq::<Seq<char>>::empty());
    while i < names.len()
        invariant
            i <= names@.len(),
            sorted_by(views(out@), text_le()),
            views(out@).to_multiset() == views(names@.subrange(0, i as int)).to_multiset(),
        decreases names@.len() - i,
    {
        let x = names[i].clone();
        let mut p: usize = 0;
        while p < out.len() && text::text_lt(out[p].as_str(), x.as_str())
            invariant
                p <= out@.len(),
                forall|q: int| 0 <= q < p ==> text::text_less(#[trigger] out@[q]@, x@),
            decreases out@.len() - p,
        {
            p = p + 1;
        }
        let ghost before = views(out@);
        let ghost xv = x@;
        out.insert(p, x);
        proof {
            assert(views(out@) =~= before.insert(p as int, xv));
            before.insert_ensures(p as int, xv);
            lemma_insert_multiset(before, p as int, xv);
            assert(views(names@.subrange(0, i + 1)) =~= views(names@.subrange(0, i as int)).push(
                xv,
            ));
            let le = text_le();
            lemma_text_le_total();
            if p < before.len() {
                assert(!text::text_less(before[p as int], xv));
            }
            assert forall|a: int, b: int| 0 <= a < b < before.len() + 1 implies #[trigger] le(
                before.insert(p as int, xv)[a],
                before.insert(p as int, xv)[b],
            ) by {
                let t = before.insert(p as int, xv);
                if a < p && b == p {
                    assert(text::text_less(before[a], xv));
                    text::lemma_text_less_asymmetric(before[a], xv);
                } else if a < p && b > p {
                    assert(t[b] == before[b - 1]);
                    assert(le(before[a], before[b - 1]));
                } else if a == p && b > p {
                    assert(t[b] == before[b - 1]);
                    assert(le(xv, before[p as int]));
                    if b - 1 > p {
                        assert(le(before[p as int], before[b - 1]));
                    }
                } else if a > p {
                    assert(t[a] == before[a - 1]);
                    assert(t[b] == before[b - 1]);
                    assert(le(before[a - 1], before[b - 1]));
                }
            }
        }
        i = i + 1;
    }
    assert(names@.subrange(0, i as int) =~= names@);
    out
}

} // verus!
