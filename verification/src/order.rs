//! Texts in code point order.

use vstd::prelude::*;
use vstd::relations::{sorted_by, total_ordering};
use vstd::seq_lib::{lemma_sorted_unique, to_multiset_insert};

use crate::text::{before, stands_before, texts};

verus! {

/// `a` does not stand after `b`.
pub open spec fn text_order() -> spec_fn(Seq<char>, Seq<char>) -> bool {
    |a: Seq<char>, b: Seq<char>| !before(b, a)
}

/// The texts `v` in order.
pub open spec fn in_order(v: Seq<Seq<char>>) -> Seq<Seq<char>> {
    v.sort_by(text_order())
}

proof fn lemma_before_irreflexive(a: Seq<char>)
    ensures
        !before(a, a),
    decreases a.len(),
{
    if a.len() > 0 {
        lemma_before_irreflexive(a.drop_first());
    }
}

/// Of two texts, one stands before the other or they are the same.
pub proof fn law_before_is_total(a: Seq<char>, b: Seq<char>)
    ensures
        before(a, b) || before(b, a) || a == b,
        !(before(a, b) && before(b, a)),
    decreases a.len(),
{
    if a.len() > 0 && b.len() > 0 {
        if a[0] == b[0] {
            law_before_is_total(a.drop_first(), b.drop_first());
            if a.drop_first() == b.drop_first() {
                assert(a =~= seq![a[0]] + a.drop_first());
                assert(b =~= seq![b[0]] + b.drop_first());
            }
        }
    } else if a.len() == 0 && b.len() == 0 {
        assert(a =~= b);
    }
}

proof fn lemma_before_transitive(a: Seq<char>, b: Seq<char>, c: Seq<char>)
    ensures
        before(a, b) && before(b, c) ==> before(a, c),
    decreases a.len(),
{
    if a.len() > 0 && b.len() > 0 && c.len() > 0 && a[0] == b[0] && b[0] == c[0] {
        lemma_before_transitive(a.drop_first(), b.drop_first(), c.drop_first());
    }
}

/// What does not stand after `b`, where `b` does not stand after `c`, does not
/// stand after `c`.
pub proof fn law_not_before_is_transitive(a: Seq<char>, b: Seq<char>, c: Seq<char>)
    ensures
        !before(b, a) && !before(c, b) ==> !before(c, a),
{
    law_before_is_total(a, b);
    law_before_is_total(b, c);
    law_before_is_total(a, c);
    lemma_before_transitive(a, b, c);
    lemma_before_irreflexive(a);
}

/// Code point order is a total order.
pub proof fn law_text_order_is_total()
    ensures
        total_ordering(text_order()),
{
    let leq = text_order();
    assert forall|x: Seq<char>| #[trigger] leq(x, x) by {
        lemma_before_irreflexive(x);
    }
    assert forall|x: Seq<char>, y: Seq<char>| #[trigger] leq(x, y) && #[trigger] leq(y, x) implies x
        == y by {
        law_before_is_total(x, y);
    }
    assert forall|x: Seq<char>, y: Seq<char>, z: Seq<char>| #[trigger]
        leq(x, y) && #[trigger] leq(y, z) implies leq(x, z) by {
        law_before_is_total(x, y);
        law_before_is_total(y, z);
        lemma_before_transitive(x, y, z);
        law_before_is_total(x, z);
    }
    assert forall|x: Seq<char>, y: Seq<char>| #[trigger] leq(x, y) || #[trigger] leq(y, x) by {
        law_before_is_total(x, y);
    }
}

/// The texts in order are the one sorted list of them: any list `w` of the same texts
/// that is sorted is it.
pub proof fn law_sorted_list_is_unique(v: Seq<Seq<char>>, w: Seq<Seq<char>>)
    requires
        w.to_multiset() == v.to_multiset(),
        sorted_by(w, text_order()),
    ensures
        in_order(v) == w,
        sorted_by(in_order(v), text_order()),
{
    law_text_order_is_total();
    v.lemma_sort_by_ensures(text_order());
    lemma_sorted_unique(w, in_order(v), text_order());
}

/// The texts `v` in order, copied.
pub fn sorted_texts(v: &Vec<String>) -> (r: Vec<String>)
    ensures
        texts(r@) == in_order(texts(v@)),
{
    let ghost all = texts(v@);
    let ghost leq = text_order();
    let mut r: Vec<String> = Vec::new();
    assert(texts(r@) =~= all.take(0));
    let mut i: usize = 0;
    while i < v.len()
        invariant
            i <= v@.len(),
            all == texts(v@),
            leq == text_order(),
            r@.len() == i,
            texts(r@).to_multiset() == all.take(i as int).to_multiset(),
            sorted_by(texts(r@), leq),
        decreases v.len() - i,
    {
        let mut k: usize = 0;
        while k < r.len() && !stands_before(v[i].as_str(), r[k].as_str())
            invariant
                k <= r@.len(),
                i < v@.len(),
                all == texts(v@),
                leq == text_order(),
                forall|j: int| 0 <= j < k ==> leq(#[trigger] texts(r@)[j], all[i as int]),
            decreases r.len() - k,
        {
            assert(texts(r@)[k as int] == r@[k as int]@);
            k = k + 1;
        }
        let ghost placed = texts(r@);
        let ghost x = all[i as int];
        proof {
            law_text_order_is_total();
            if k < placed.len() {
                law_before_is_total(x, placed[k as int]);
                assert(leq(x, placed[k as int]));
            }
            to_multiset_insert(placed, k as int, x);
            to_multiset_insert(all.take(i as int), i as int, x);
            assert(all.take(i + 1) =~= all.take(i as int).insert(i as int, x));
        }
        r.insert(k, v[i].clone());
        assert(texts(r@) =~= placed.insert(k as int, x));
        assert forall|a: int, b: int| 0 <= a < b < texts(r@).len() implies #[trigger] leq(
            texts(r@)[a],
            texts(r@)[b],
        ) by {
            let from = if a < k {
                a
            } else {
                a - 1
            };
            let to = if b < k {
                b
            } else {
                b - 1
            };
            if a == k {
                if to > k {
                    assert(leq(placed[k as int], placed[to]));
                }
                assert(leq(x, placed[to]));
            } else if b == k {
                assert(leq(placed[a], x));
            } else {
                assert(leq(placed[from], placed[to]));
            }
        }
        i = i + 1;
    }
    proof {
        assert(all.take(i as int) =~= all);
        law_sorted_list_is_unique(all, texts(r@));
    }
    r
}

} // verus!
