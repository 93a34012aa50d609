//! What a stable sort keeps of a list.

use vstd::prelude::*;
use vstd::seq_lib::to_multiset_build;

use crate::sorting::{stable_sort_of, tied, ties, total_preorder};

verus! {

/// What a filter keeps stays in its order.
pub proof fn filters_keep_the_order<T>(items: Seq<T>, test: spec_fn(T) -> bool, i: int, j: int)
    requires
        0 <= i < j < items.len(),
        test(items[i]),
        test(items[j]),
    ensures
        exists|u: int, v: int|
            0 <= u < v < items.filter(test).len() && #[trigger] items.filter(test)[u] == items[i]
                && #[trigger] items.filter(test)[v] == items[j],
{
    let head = items.take(i + 1);
    let tail = items.skip(i + 1);
    assert(items =~= head + tail);
    Seq::filter_distributes_over_add(head, tail, test);
    assert(head[i] == items[i]);
    assert(tail[j - i - 1] == items[j]);
    head.lemma_filter_contains(test, i);
    tail.lemma_filter_contains(test, j - i - 1);
    let u = choose|u: int| 0 <= u < head.filter(test).len() && head.filter(test)[u] == items[i];
    let w = choose|w: int| 0 <= w < tail.filter(test).len() && tail.filter(test)[w] == items[j];
    let v = head.filter(test).len() + w;
    assert(items.filter(test)[u] == items[i]);
    assert(items.filter(test)[v] == items[j]);
}

/// What a filter has kept in some order stood in that order.
pub proof fn kept_items_stood_in_order<T>(items: Seq<T>, test: spec_fn(T) -> bool, u: int, v: int)
    requires
        0 <= u < v < items.filter(test).len(),
    ensures
        exists|i: int, j: int|
            0 <= i < j < items.len() && #[trigger] items[i] == items.filter(test)[u]
                && #[trigger] items[j] == items.filter(test)[v],
    decreases items.len(),
{
    reveal(Seq::filter);
    if items.len() > 0 {
        let rest = items.drop_last();
        let last = items.last();
        let kept = rest.filter(test);
        if v < kept.len() {
            kept_items_stood_in_order(rest, test, u, v);
            let (i, j) = choose|i: int, j: int|
                0 <= i < j < rest.len() && #[trigger] rest[i] == kept[u] && #[trigger] rest[j]
                    == kept[v];
            assert(items[i] == items.filter(test)[u]);
            assert(items[j] == items.filter(test)[v]);
        } else {
            assert(items.filter(test) == kept.push(last));
            assert(kept.contains(kept[u]));
            rest.lemma_filter_contains_rev(test, kept[u]);
            let i = choose|i: int| 0 <= i < rest.len() && rest[i] == kept[u];
            assert(items[i] == items.filter(test)[u]);
            assert(items[items.len() - 1] == items.filter(test)[v]);
        }
    }
}

/// Items that a stable sort does not tell apart stay in their order.
pub proof fn ties_stay_in_their_order<T>(
    sorted: Seq<T>,
    items: Seq<T>,
    le: spec_fn(T, T) -> bool,
    i: int,
    j: int,
)
    requires
        total_preorder(le),
        stable_sort_of(sorted, items, le),
        0 <= i < j < items.len(),
        le(items[i], items[j]),
        le(items[j], items[i]),
    ensures
        exists|p: int, q: int|
            0 <= p < q < sorted.len() && #[trigger] sorted[p] == items[i] && #[trigger] sorted[q]
                == items[j],
{
    let x = items[i];
    let test = |y: T| tied(le, x, y);
    assert(le(x, x));
    filters_keep_the_order(items, test, i, j);
    assert(ties(sorted, le, x) == ties(items, le, x));
    let (u, v) = choose|u: int, v: int|
        0 <= u < v < items.filter(test).len() && #[trigger] items.filter(test)[u] == items[i]
            && #[trigger] items.filter(test)[v] == items[j];
    kept_items_stood_in_order(sorted, test, u, v);
}

proof fn lemma_filter_count<T>(items: Seq<T>, test: spec_fn(T) -> bool, x: T)
    requires
        test(x),
    ensures
        items.filter(test).to_multiset().count(x) == items.to_multiset().count(x),
    decreases items.len(),
{
    reveal(Seq::filter);
    if items.len() > 0 {
        let rest = items.drop_last();
        let last = items.last();
        lemma_filter_count(rest, test, x);
        assert(items =~= rest.push(last));
        to_multiset_build(rest, last);
        to_multiset_build(rest.filter(test), last);
    } else {
        assert(items.filter(test) =~= items);
    }
}

/// A sort loses nothing and adds nothing: each item stands in the sorted list as often as before.
pub proof fn sorting_keeps_every_item<T>(
    sorted: Seq<T>,
    items: Seq<T>,
    le: spec_fn(T, T) -> bool,
)
    requires
        total_preorder(le),
        stable_sort_of(sorted, items, le),
    ensures
        sorted.to_multiset() == items.to_multiset(),
        sorted.len() == items.len(),
{
    assert forall|x: T| sorted.to_multiset().count(x) == items.to_multiset().count(x) by {
        let test = |y: T| tied(le, x, y);
        assert(le(x, x));
        assert(ties(sorted, le, x) == ties(items, le, x));
        lemma_filter_count(sorted, test, x);
        lemma_filter_count(items, test, x);
    }
    assert(sorted.to_multiset() =~= items.to_multiset());
    sorted.to_multiset_ensures();
    items.to_multiset_ensures();
}

/// In a sorted list no item comes after one that it has to come before.
pub proof fn sorted_items_are_in_order<T>(
    sorted: Seq<T>,
    items: Seq<T>,
    le: spec_fn(T, T) -> bool,
    i: int,
    j: int,
)
    requires
        stable_sort_of(sorted, items, le),
        0 <= i < j < sorted.len(),
    ensures
        le(sorted[i], sorted[j]),
{
}

} // verus!
