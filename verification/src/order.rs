//! The order of texts, and sorting by it.
//!
//! Texts are ordered by their first difference, character by character, a
//! prefix before what it begins.
use vstd::prelude::*;
use vstd::relations::*;
use vstd::seq_lib::*;

use crate::text::{chars_of, texts};

verus! {

/// Whether `a` comes no later than `b`.
pub open spec fn text_leq(a: Seq<char>, b: Seq<char>) -> bool
    decreases a.len(),
{
    if a.len() == 0 {
        true
    } else if b.len() == 0 {
        false
    } else if a[0] == b[0] {
        text_leq(a.skip(1), b.skip(1))
    } else {
        a[0] < b[0]
    }
}

/// The order of texts as a relation.
pub open spec fn text_order() -> spec_fn(Seq<char>, Seq<char>) -> bool {
    |a: Seq<char>, b: Seq<char>| text_leq(a, b)
}

/// The order of sized items: by name, then by size.
pub open spec fn sized_leq(a: (Seq<char>, u64), b: (Seq<char>, u64)) -> bool {
    if a.0 == b.0 {
        a.1 <= b.1
    } else {
        text_leq(a.0, b.0)
    }
}

/// The order of sized items as a relation.
pub open spec fn sized_order() -> spec_fn((Seq<char>, u64), (Seq<char>, u64)) -> bool {
    |a: (Seq<char>, u64), b: (Seq<char>, u64)| sized_leq(a, b)
}

/// The texts of a list in order.
pub open spec fn sorted_texts(s: Seq<Seq<char>>) -> Seq<Seq<char>> {
    s.sort_by(text_order())
}

/// The sized items of a list in order.
pub open spec fn sorted_sized(s: Seq<(Seq<char>, u64)>) -> Seq<(Seq<char>, u64)> {
    s.sort_by(sized_order())
}

/// The characters and the number of each pair of a list.
pub open spec fn sized_view(v: Seq<(String, u64)>) -> Seq<(Seq<char>, u64)> {
    v.map_values(|p: (String, u64)| (p.0@, p.1))
}

proof fn lemma_leq_reflexive(a: Seq<char>)
    ensures
        text_leq(a, a),
    decreases a.len(),
{
    if a.len() > 0 {
        lemma_leq_reflexive(a.skip(1));
    }
}

proof fn lemma_leq_antisymmetric(a: Seq<char>, b: Seq<char>)
    requires
        text_leq(a, b),
        text_leq(b, a),
    ensures
        a == b,
    decreases a.len(),
{
    if a.len() == 0 || b.len() == 0 {
        assert(a =~= b);
    } else {
        lemma_leq_antisymmetric(a.skip(1), b.skip(1));
        assert(a =~= seq![a[0]] + a.skip(1));
        assert(b =~= seq![b[0]] + b.skip(1));
    }
}

proof fn lemma_leq_transitive(a: Seq<char>, b: Seq<char>, c: Seq<char>)
    requires
        text_leq(a, b),
        text_leq(b, c),
    ensures
        text_leq(a, c),
    decreases a.len(),
{
    if a.len() > 0 && a[0] == b[0] && b[0] == c[0] {
        lemma_leq_transitive(a.skip(1), b.skip(1), c.skip(1));
    }
}

proof fn lemma_leq_connected(a: Seq<char>, b: Seq<char>)
    ensures
        text_leq(a, b) || text_leq(b, a),
    decreases a.len(),
{
    if a.len() > 0 && b.len() > 0 && a[0] == b[0] {
        lemma_leq_connected(a.skip(1), b.skip(1));
    }
}

/// Texts are totally ordered.
pub proof fn lemma_text_order_total()
    ensures
        total_ordering(text_order()),
{
    let r = text_order();
    assert forall|a: Seq<char>| #[trigger] r(a, a) by {
        lemma_leq_reflexive(a);
    }
    assert forall|a: Seq<char>, b: Seq<char>| #[trigger] r(a, b) && #[trigger] r(b, a) implies a
        == b by {
        lemma_leq_antisymmetric(a, b);
    }
    assert forall|a: Seq<char>, b: Seq<char>, c: Seq<char>| #[trigger]
        r(a, b) && #[trigger] r(b, c) implies r(a, c) by {
        lemma_leq_transitive(a, b, c);
    }
    assert forall|a: Seq<char>, b: Seq<char>| #[trigger] r(a, b) || #[trigger] r(b, a) by {
        lemma_leq_connected(a, b);
    }
}

/// Sized items are totally ordered.
pub proof fn lemma_sized_order_total()
    ensures
        total_ordering(sized_order()),
{
    let r = sized_order();
    assert forall|a: (Seq<char>, u64), b: (Seq<char>, u64)| #[trigger]
        r(a, b) && #[trigger] r(b, a) implies a == b by {
        if a.0 != b.0 {
            lemma_leq_antisymmetric(a.0, b.0);
        }
    }
    assert forall|a: (Seq<char>, u64), b: (Seq<char>, u64), c: (Seq<char>, u64)| #[trigger]
        r(a, b) && #[trigger] r(b, c) implies r(a, c) by {
        if a.0 != b.0 && b.0 != c.0 {
            lemma_leq_transitive(a.0, b.0, c.0);
            if a.0 == c.0 {
                lemma_leq_antisymmetric(a.0, b.0);
            }
        }
    }
    assert forall|a: (Seq<char>, u64), b: (Seq<char>, u64)| #[trigger] r(a, b) || #[trigger] r(
        b,
        a,
    ) by {
        lemma_leq_connected(a.0, b.0);
    }
}

/// Two lists with the same texts, each as often, are the same once sorted.
pub proof fn law_sorting_forgets_order(a: Seq<Seq<char>>, b: Seq<Seq<char>>)
    requires
        a.to_multiset() == b.to_multiset(),
    ensures
        sorted_texts(a) == sorted_texts(b),
{
    lemma_text_order_total();
    a.lemma_sort_by_ensures(text_order());
    b.lemma_sort_by_ensures(text_order());
    lemma_sorted_unique(sorted_texts(a), sorted_texts(b), text_order());
}

/// Two lists with the same sized items, each as often, are the same once
/// sorted.
pub proof fn law_sorting_sized_forgets_order(a: Seq<(Seq<char>, u64)>, b: Seq<(Seq<char>, u64)>)
    requires
        a.to_multiset() == b.to_multiset(),
    ensures
        sorted_sized(a) == sorted_sized(b),
{
    lemma_sized_order_total();
    a.lemma_sort_by_ensures(sized_order());
    b.lemma_sort_by_ensures(sized_order());
    lemma_sorted_unique(sorted_sized(a), sorted_sized(b), sized_order());
}

/// Whether `a` comes no later than `b`.
pub fn text_at_most(a: &str, b: &str) -> (r: bool)
    ensures
        r == text_leq(a@, b@),
{
    let v = chars_of(a);
    let w = chars_of(b);
    let mut i: usize = 0;
    proof {
        assert(a@.skip(0) =~= a@);
        assert(b@.skip(0) =~= b@);
    }
    loop
        invariant
            v@ == a@,
            w@ == b@,
            i <= v@.len(),
            i <= w@.len(),
            text_leq(a@, b@) == text_leq(a@.skip(i as int), b@.skip(i as int)),
        decreases v@.len() - i,
    {
        if i == v.len() {
            return true;
        }
        if i == w.len() {
            return false;
        }
        if v[i] != w[i] {
            return v[i] < w[i];
        }
        proof {
            assert(a@.skip(i as int).skip(1) =~= a@.skip(i as int + 1));
            assert(b@.skip(i as int).skip(1) =~= b@.skip(i as int + 1));
        }
        i += 1;
    }
}

/// Whether the sized item `a` comes no later than `b`.
fn sized_at_most(a: &(String, u64), b: &(String, u64)) -> (r: bool)
    ensures
        r == sized_leq((a.0@, a.1), (b.0@, b.1)),
{
    if a.0 == b.0 {
        a.1 <= b.1
    } else {
        text_at_most(a.0.as_str(), b.0.as_str())
    }
}

proof fn lemma_insert_multiset<A>(s: Seq<A>, i: int, x: A)
    requires
        0 <= i <= s.len(),
    ensures
        s.insert(i, x).to_multiset() == s.to_multiset().insert(x),
{
    broadcast use vstd::multiset::group_multiset_axioms;

    let t = s.insert(i, x);
    assert(t.remove(i) =~= s);
    to_multiset_remove(t, i);
    t.to_multiset_ensures();
    assert(t[i] == x);
    assert(t.contains(x));
    assert(t.to_multiset().count(x) > 0);
    assert(t.to_multiset() =~= s.to_multiset().insert(x));
}

/// A sorted copy of a list of texts.
pub fn sort_texts(v: &Vec<String>) -> (r: Vec<String>)
    ensures
        texts(r@) == sorted_texts(texts(v@)),
{
    let ghost order = text_order();
    let mut out: Vec<String> = Vec::new();
    let mut i: usize = 0;
    proof {
        lemma_text_order_total();
        assert(texts(out@) =~= texts(v@).take(0));
    }
    while i < v.len()
        invariant
            i <= v@.len(),
            order == text_order(),
            total_ordering(order),
            sorted_by(texts(out@), order),
            texts(out@).to_multiset() == texts(v@).take(i as int).to_multiset(),
        decreases v@.len() - i,
    {
        let ghost x = texts(v@)[i as int];
        let mut at: usize = out.len();
        while at > 0 && !text_at_most(out[at - 1].as_str(), v[i].as_str())
            invariant
                i < v@.len(),
                at <= out@.len(),
                order == text_order(),
                total_ordering(order),
                x == v@[i as int]@,
                sorted_by(texts(out@), order),
                forall|k: int| at <= k < out@.len() ==> order(x, #[trigger] texts(out@)[k]),
            decreases at,
        {
            proof {
                assert(order(x, texts(out@)[at - 1]) || order(texts(out@)[at - 1], x));
            }
            at -= 1;
        }
        let ghost before = texts(out@);
        proof {
            assert(at > 0 ==> order(before[at - 1], x));
            assert forall|k: int| 0 <= k < at implies order(#[trigger] before[k], x) by {
                if k < at - 1 {
                    assert(order(before[k], before[at - 1]));
                }
            }
        }
        out.insert(at, v[i].clone());
        proof {
            assert(texts(out@) =~= before.insert(at as int, x));
            lemma_insert_multiset(before, at as int, x);
            let upto = texts(v@).take(i as int + 1);
            assert(upto =~= texts(v@).take(i as int).push(x));
            to_multiset_build(texts(v@).take(i as int), x);
            assert forall|p: int, q: int| 0 <= p < q < texts(out@).len() implies #[trigger] order(
                texts(out@)[p],
                texts(out@)[q],
            ) by {
                if q < at {
                    assert(order(before[p], before[q]));
                } else if q == at {
                    assert(order(before[p], x));
                } else if p < at {
                    assert(order(before[p], before[q - 1]));
                } else if p == at {
                    assert(order(x, before[q - 1]));
                } else {
                    assert(order(before[p - 1], before[q - 1]));
                }
            }
        }
        i += 1;
    }
    proof {
        assert(texts(v@).take(i as int) =~= texts(v@));
        texts(v@).lemma_sort_by_ensures(order);
        lemma_sorted_unique(texts(out@), sorted_texts(texts(v@)), order);
    }
    out
}

/// A sorted copy of a list of sized items.
pub fn sort_sized(v: &Vec<(String, u64)>) -> (r: Vec<(String, u64)>)
    ensures
        sized_view(r@) == sorted_sized(sized_view(v@)),
{
    let ghost order = sized_order();
    let mut out: Vec<(String, u64)> = Vec::new();
    let mut i: usize = 0;
    proof {
        lemma_sized_order_total();
        assert(sized_view(out@) =~= sized_view(v@).take(0));
    }
    while i < v.len()
        invariant
            i <= v@.len(),
            order == sized_order(),
            total_ordering(order),
            sorted_by(sized_view(out@), order),
            sized_view(out@).to_multiset() == sized_view(v@).take(i as int).to_multiset(),
        decreases v@.len() - i,
    {
        let ghost x = sized_view(v@)[i as int];
        let mut at: usize = out.len();
        while at > 0 && !sized_at_most(&out[at - 1], &v[i])
            invariant
                i < v@.len(),
                at <= out@.len(),
                order == sized_order(),
                total_ordering(order),
                x == sized_view(v@)[i as int],
                sorted_by(sized_view(out@), order),
                forall|k: int| at <= k < out@.len() ==> order(x, #[trigger] sized_view(out@)[k]),
            decreases at,
        {
            proof {
                assert(order(x, sized_view(out@)[at - 1]) || order(sized_view(out@)[at - 1], x));
            }
            at -= 1;
        }
        let ghost before = sized_view(out@);
        proof {
            assert(at > 0 ==> order(before[at - 1], x));
            assert forall|k: int| 0 <= k < at implies order(#[trigger] before[k], x) by {
                if k < at - 1 {
                    assert(order(before[k], before[at - 1]));
                }
            }
        }
        out.insert(at, (v[i].0.clone(), v[i].1));
        proof {
            assert(sized_view(out@) =~= before.insert(at as int, x));
            lemma_insert_multiset(before, at as int, x);
            let upto = sized_view(v@).take(i as int + 1);
            assert(upto =~= sized_view(v@).take(i as int).push(x));
            to_multiset_build(sized_view(v@).take(i as int), x);
            assert forall|p: int, q: int| 0 <= p < q < sized_view(out@).len() implies #[trigger]
            order(sized_view(out@)[p], sized_view(out@)[q]) by {
                if q < at {
                    assert(order(before[p], before[q]));
                } else if q == at {
                    assert(order(before[p], x));
                } else if p < at {
                    assert(order(before[p], before[q - 1]));
                } else if p == at {
                    assert(order(x, before[q - 1]));
                } else {
                    assert(order(before[p - 1], before[q - 1]));
                }
            }
        }
        i += 1;
    }
    proof {
        assert(sized_view(v@).take(i as int) =~= sized_view(v@));
        sized_view(v@).lemma_sort_by_ensures(order);
        lemma_sorted_unique(sized_view(out@), sorted_sized(sized_view(v@)), order);
    }
    out
}

/// Texts are ordered as in a dictionary, by the first character in which they
/// differ; a text comes before every text that continues it.
pub proof fn law_texts_are_ordered_as_in_a_dictionary(
    head: Seq<char>,
    a: Seq<char>,
    b: Seq<char>,
)
    requires
        b.len() > 0,
        a.len() > 0 ==> a[0] < b[0],
    ensures
        text_leq(head + a, head + b),
        !text_leq(head + b, head + a),
    decreases head.len(),
{
    if head.len() == 0 {
        assert(head + a =~= a);
        assert(head + b =~= b);
    } else {
        law_texts_are_ordered_as_in_a_dictionary(head.skip(1), a, b);
        assert((head + a).skip(1) =~= head.skip(1) + a);
        assert((head + b).skip(1) =~= head.skip(1) + b);
    }
}

/// Sorting puts a list in order and neither adds nor drops an item.
pub proof fn law_sorting_orders_and_keeps(s: Seq<Seq<char>>)
    ensures
        sorted_texts(s).to_multiset() == s.to_multiset(),
        sorted_texts(s).len() == s.len(),
        forall|i: int, j: int|
            0 <= i < j < sorted_texts(s).len() ==> text_leq(
                #[trigger] sorted_texts(s)[i],
                #[trigger] sorted_texts(s)[j],
            ),
{
    lemma_text_order_total();
    s.lemma_sort_by_ensures(text_order());
    let sorted = sorted_texts(s);
    sorted.to_multiset_ensures();
    s.to_multiset_ensures();
    assert forall|i: int, j: int| 0 <= i < j < sorted.len() implies text_leq(
        #[trigger] sorted[i],
        #[trigger] sorted[j],
    ) by {
        assert(text_order()(sorted[i], sorted[j]));
    }
}

/// Sized items are ordered by name, and under one name by size.
pub proof fn law_sized_items_are_ordered_by_name_then_size(
    a: (Seq<char>, u64),
    b: (Seq<char>, u64),
)
    ensures
        a.0 == b.0 ==> (sized_leq(a, b) <==> a.1 <= b.1),
        a.0 != b.0 ==> (sized_leq(a, b) <==> text_leq(a.0, b.0)),
{
}

} // verus!
