//! Text order (code point by code point, as `String`'s order) and sorting
//! of keyed records by it.

use vstd::prelude::*;
use vstd::multiset::Multiset;
use vstd::relations::total_ordering;

use crate::text::{chars_of, str_eq};

verus! {

/// `a` comes no later than `b`: compared character by character by code
/// point, a proper prefix first.
pub open spec fn text_le(a: Seq<char>, b: Seq<char>) -> bool
    decreases a.len(),
{
    if a.len() == 0 {
        true
    } else if b.len() == 0 {
        false
    } else if a[0] != b[0] {
        a[0] < b[0]
    } else {
        text_le(a.drop_first(), b.drop_first())
    }
}

pub proof fn lemma_text_le_reflexive(a: Seq<char>)
    ensures
        text_le(a, a),
    decreases a.len(),
{
    if a.len() > 0 {
        lemma_text_le_reflexive(a.drop_first());
    }
}

pub proof fn lemma_text_le_antisymmetric(a: Seq<char>, b: Seq<char>)
    requires
        text_le(a, b),
        text_le(b, a),
    ensures
        a == b,
    decreases a.len(),
{
    if a.len() > 0 && b.len() > 0 {
        lemma_text_le_antisymmetric(a.drop_first(), b.drop_first());
        assert(a == seq![a[0]] + a.drop_first());
        assert(b == seq![b[0]] + b.drop_first());
    }
}

pub proof fn lemma_text_le_transitive(a: Seq<char>, b: Seq<char>, c: Seq<char>)
    requires
        text_le(a, b),
        text_le(b, c),
    ensures
        text_le(a, c),
    decreases a.len(),
{
    if a.len() > 0 && b.len() > 0 && c.len() > 0 {
        if a[0] == b[0] && b[0] == c[0] {
            lemma_text_le_transitive(a.drop_first(), b.drop_first(), c.drop_first());
        }
    }
}

pub proof fn lemma_text_le_total(a: Seq<char>, b: Seq<char>)
    ensures
        text_le(a, b) || text_le(b, a),
    decreases a.len(),
{
    if a.len() > 0 && b.len() > 0 && a[0] == b[0] {
        lemma_text_le_total(a.drop_first(), b.drop_first());
    }
}

/// [`text_le`] is a total order.
pub proof fn text_order_is_total()
    ensures
        total_ordering(|a: Seq<char>, b: Seq<char>| text_le(a, b)),
{
    let r = |a: Seq<char>, b: Seq<char>| text_le(a, b);
    assert forall|x: Seq<char>| #[trigger] r(x, x) by {
        lemma_text_le_reflexive(x);
    }
    assert forall|x: Seq<char>, y: Seq<char>| #[trigger] r(x, y) && #[trigger] r(y, x) implies x
        == y by {
        lemma_text_le_antisymmetric(x, y);
    }
    assert forall|x: Seq<char>, y: Seq<char>, z: Seq<char>| #[trigger] r(x, y) && #[trigger] r(
        y,
        z,
    ) implies r(x, z) by {
        lemma_text_le_transitive(x, y, z);
    }
    assert forall|x: Seq<char>, y: Seq<char>| #[trigger] r(x, y) || #[trigger] r(y, x) by {
        lemma_text_le_total(x, y);
    }
}

fn chars_le(a: &Vec<char>, b: &Vec<char>) -> (r: bool)
    ensures
        r == text_le(a@, b@),
{
    let mut i: usize = 0;
    assert(a@.skip(0) == a@ && b@.skip(0) == b@);
    while i < a.len() && i < b.len()
        invariant
            i <= a@.len(),
            i <= b@.len(),
            forall|j: int| 0 <= j < i ==> a@[j] == b@[j],
            text_le(a@, b@) == text_le(a@.skip(i as int), b@.skip(i as int)),
        decreases a.len() - i,
    {
        if a[i] != b[i] {
            return a[i] < b[i];
        }
        assert(a@.skip(i as int).drop_first() == a@.skip(i as int + 1));
        assert(b@.skip(i as int).drop_first() == b@.skip(i as int + 1));
        i += 1;
    }
    i == a.len()
}

/// Whether `a` comes no later than `b` in text order.
pub fn str_le(a: &str, b: &str) -> (r: bool)
    ensures
        r == text_le(a@, b@),
{
    chars_le(&chars_of(a), &chars_of(b))
}

/// The records are in text order of their keys.
pub open spec fn keys_sorted<T>(s: Seq<(String, T)>) -> bool {
    forall|i: int, j: int| 0 <= i < j < s.len() ==> text_le(#[trigger] s[i].0@, #[trigger] s[j].0@)
}

/// Sort records by key in text order: the same records, keys in order.
pub fn sort_by_key<T>(v: Vec<(String, T)>) -> (r: Vec<(String, T)>)
    ensures
        keys_sorted(r@),
        r@.to_multiset() == v@.to_multiset(),
        r@.len() == v@.len(),
{
    broadcast use vstd::seq_lib::group_to_multiset_ensures;

    let mut r: Vec<(String, T)> = Vec::new();
    let mut src = v;
    let ghost orig = src@;
    let total = src.len();
    assert(orig.len() == total);
    let mut taken: usize = 0;
    assert(orig.skip(0) == orig);
    assert(orig.take(0).to_multiset() =~= Multiset::empty());
    while src.len() > 0
        invariant
            orig.len() <= usize::MAX,
            keys_sorted(r@),
            src@ == orig.skip(taken as int),
            taken <= orig.len(),
            r@.to_multiset() == orig.take(taken as int).to_multiset(),
            r@.len() == taken,
        decreases src.len(),
    {
        let x = src.remove(0);
        proof {
            assert(orig.take(taken as int + 1) == orig.take(taken as int).push(x));
            assert(src@ == orig.skip(taken as int + 1));
        }
        let ghost xk = x.0@;
        let mut p: usize = 0;
        while p < r.len() && str_le(r[p].0.as_str(), x.0.as_str())
            invariant
                p <= r@.len(),
                keys_sorted(r@),
                forall|j: int| 0 <= j < p ==> text_le(#[trigger] r@[j].0@, xk),
                xk == x.0@,
            decreases r.len() - p,
        {
            p += 1;
        }
        let ghost before = r@;
        proof {
            if p < r@.len() {
                lemma_text_le_total(r@[p as int].0@, xk);
            }
        }
        r.insert(p, x);
        proof {
            assert(r@ == before.insert(p as int, x));
            assert forall|i: int, j: int| 0 <= i < j < r@.len() implies text_le(
                #[trigger] r@[i].0@,
                #[trigger] r@[j].0@,
            ) by {
                if j < p {
                    assert(r@[i] == before[i] && r@[j] == before[j]);
                } else if j == p {
                    assert(r@[i] == before[i]);
                } else if i == p {
                    assert(r@[j] == before[j - 1]);
                    assert(text_le(xk, before[p as int].0@));
                    if j - 1 > p {
                        lemma_text_le_transitive(xk, before[p as int].0@, before[j - 1].0@);
                    }
                } else if i < p {
                    assert(r@[i] == before[i] && r@[j] == before[j - 1]);
                } else {
                    assert(r@[i] == before[i - 1] && r@[j] == before[j - 1]);
                }
            }
            vstd::seq_lib::to_multiset_insert(before, p as int, x);
            vstd::seq_lib::to_multiset_build(orig.take(taken as int), x);
        }
        taken += 1;
    }
    proof {
        assert(orig.take(taken as int) == orig);
    }
    r
}

/// Strictly increasing in text order: sorted, no name twice.
pub open spec fn strictly_sorted(s: Seq<Seq<char>>) -> bool {
    forall|i: int, j: int| 0 <= i < j < s.len() ==> text_le(#[trigger] s[i], #[trigger] s[j]) && s[i] != s[j]
}

pub open spec fn names_of(s: Seq<String>) -> Seq<Seq<char>> {
    s.map_values(|t: String| t@)
}

/// Insert `x` into a strictly sorted list of names, unless it is there
/// already.
pub fn insert_sorted_name(r: &mut Vec<String>, x: &str)
    requires
        strictly_sorted(names_of(old(r)@)),
    ensures
        strictly_sorted(names_of(final(r)@)),
        forall|t: Seq<char>| #[trigger] names_of(final(r)@).contains(t) <==> (names_of(old(r)@).contains(t) || t == x@),
{
    let ghost before = names_of(r@);
    let mut p: usize = 0;
    while p < r.len() && str_le(r[p].as_str(), x) && !str_eq(r[p].as_str(), x)
        invariant
            p <= r@.len(),
            before == names_of(r@),
            strictly_sorted(before),
            forall|j: int| 0 <= j < p ==> text_le(#[trigger] before[j], x@) && before[j] != x@,
        decreases r.len() - p,
    {
        p += 1;
    }
    if p < r.len() && str_eq(r[p].as_str(), x) {
        assert(before[p as int] == x@);
        assert forall|t: Seq<char>| #[trigger] before.contains(t) <==> (before.contains(t) || t == x@) by {
            if t == x@ {
                assert(before[p as int] == t);
            }
        }
        return;
    }
    proof {
        if p < r@.len() {
            lemma_text_le_total(before[p as int], x@);
        }
    }
    r.insert(p, String::from_str(x));
    let ghost after = names_of(r@);
    assert(after =~= before.insert(p as int, x@));
    assert forall|i: int, j: int| 0 <= i < j < after.len() implies text_le(#[trigger] after[i], #[trigger] after[j]) && after[i] != after[j] by {
        if j < p {
            assert(after[i] == before[i] && after[j] == before[j]);
        } else if j == p {
            assert(after[i] == before[i]);
        } else if i == p {
            assert(after[j] == before[j - 1]);
            assert(text_le(x@, before[p as int]) && x@ != before[p as int]);
            if j - 1 > p {
                lemma_text_le_transitive(x@, before[p as int], before[j - 1]);
                if x@ == before[j - 1] {
                    lemma_text_le_antisymmetric(before[p as int], x@);
                }
            }
        } else if i < p {
            assert(after[i] == before[i] && after[j] == before[j - 1]);
            assert(text_le(before[i], x@) && before[i] != x@);
            assert(text_le(x@, before[p as int]));
            lemma_text_le_transitive(before[i], x@, before[p as int]);
            if j - 1 > p {
                lemma_text_le_transitive(before[i], before[p as int], before[j - 1]);
            }
        } else {
            assert(after[i] == before[i - 1] && after[j] == before[j - 1]);
        }
    }
    assert forall|t: Seq<char>| #[trigger] after.contains(t) <==> (before.contains(t) || t == x@) by {
        if after.contains(t) {
            let k = choose|k: int| 0 <= k < after.len() && #[trigger] after[k] == t;
            if k < p {
                assert(before[k] == t);
            } else if k > p {
                assert(before[k - 1] == t);
            }
        }
        if before.contains(t) {
            let k = choose|k: int| 0 <= k < before.len() && #[trigger] before[k] == t;
            if k < p {
                assert(after[k] == t);
            } else {
                assert(after[k + 1] == t);
            }
        }
        if t == x@ {
            assert(after[p as int] == t);
        }
    }
}

/// The names, each once, in text order.
pub fn sorted_distinct(names: &Vec<String>) -> (r: Vec<String>)
    ensures
        strictly_sorted(names_of(r@)),
        forall|t: Seq<char>| #[trigger] names_of(r@).contains(t) <==> names_of(names@).contains(t),
{
    let ghost all = names_of(names@);
    let mut r: Vec<String> = Vec::new();
    let mut i: usize = 0;
    while i < names.len()
        invariant
            i <= names@.len(),
            all == names_of(names@),
            strictly_sorted(names_of(r@)),
            forall|t: Seq<char>| #[trigger] names_of(r@).contains(t) <==> all.subrange(0, i as int).contains(t),
        decreases names.len() - i,
    {
        insert_sorted_name(&mut r, names[i].as_str());
        assert forall|t: Seq<char>| #[trigger] names_of(r@).contains(t) <==> all.subrange(0, i as int + 1).contains(t) by {
            let pre = all.subrange(0, i as int);
            let cur = all.subrange(0, i as int + 1);
            if cur.contains(t) {
                let k = choose|k: int| 0 <= k < cur.len() && #[trigger] cur[k] == t;
                if k < i {
                    assert(pre[k] == t);
                }
            }
            if pre.contains(t) {
                let k = choose|k: int| 0 <= k < pre.len() && #[trigger] pre[k] == t;
                assert(cur[k] == t);
            }
            if t == all[i as int] {
                assert(cur[i as int] == t);
            }
        }
        i += 1;
    }
    assert(all.subrange(0, names@.len() as int) =~= all);
    r
}

} // verus!
