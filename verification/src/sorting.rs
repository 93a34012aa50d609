//! A stable sort by any total preorder.

use vstd::prelude::*;

verus! {

/// An order in which any two items compare, and which carries over.
pub open spec fn total_preorder<T>(le: spec_fn(T, T) -> bool) -> bool {
    &&& forall|a: T, b: T| #[trigger] le(a, b) || le(b, a)
    &&& forall|a: T, b: T, c: T| #[trigger] le(a, b) && #[trigger] le(b, c) ==> le(a, c)
}

pub open spec fn in_order<T>(items: Seq<T>, le: spec_fn(T, T) -> bool) -> bool {
    forall|i: int, j: int|
        0 <= i < j < items.len() ==> le(#[trigger] items[i], #[trigger] items[j])
}

/// Neither of two items comes before the other.
pub open spec fn tied<T>(le: spec_fn(T, T) -> bool, a: T, b: T) -> bool {
    le(a, b) && le(b, a)
}

/// The items that tie with a given one, in order.
pub open spec fn ties<T>(items: Seq<T>, le: spec_fn(T, T) -> bool, a: T) -> Seq<T> {
    items.filter(|b: T| tied(le, a, b))
}

/// One list is a stable sort of the other: it is in order, and items that tie stand as they stood.
pub open spec fn stable_sort_of<T>(sorted: Seq<T>, items: Seq<T>, le: spec_fn(T, T) -> bool) -> bool {
    &&& in_order(sorted, le)
    &&& forall|a: T| #[trigger] ties(sorted, le, a) == ties(items, le, a)
}

proof fn lemma_ties_add<T>(a: Seq<T>, b: Seq<T>, le: spec_fn(T, T) -> bool, x: T)
    ensures
        ties(a + b, le, x) == ties(a, le, x) + ties(b, le, x),
{
    Seq::filter_distributes_over_add(a, b, |y: T| tied(le, x, y));
}

proof fn lemma_ties_push<T>(a: Seq<T>, y: T, le: spec_fn(T, T) -> bool, x: T)
    ensures
        ties(a.push(y), le, x) == if tied(le, x, y) {
            ties(a, le, x).push(y)
        } else {
            ties(a, le, x)
        },
{
    a.lemma_filter_push(y, |y: T| tied(le, x, y));
}

proof fn lemma_no_ties<T>(a: Seq<T>, le: spec_fn(T, T) -> bool, x: T)
    requires
        forall|i: int| 0 <= i < a.len() ==> !tied(le, x, #[trigger] a[i]),
    ensures
        ties(a, le, x) == Seq::<T>::empty(),
    decreases a.len(),
{
    if a.len() > 0 {
        lemma_no_ties(a.drop_last(), le, x);
        lemma_ties_push(a.drop_last(), a.last(), le, x);
        assert(a =~= a.drop_last().push(a.last()));
    } else {
        assert(ties(a, le, x) =~= Seq::<T>::empty());
    }
}

/// A sorted item stood in the unsorted list.
pub proof fn lemma_sorted_item<T>(sorted: Seq<T>, items: Seq<T>, le: spec_fn(T, T) -> bool, i: int)
    requires
        total_preorder(le),
        stable_sort_of(sorted, items, le),
        0 <= i < sorted.len(),
    ensures
        items.contains(sorted[i]),
{
    let x = sorted[i];
    let pred = |y: T| tied(le, x, y);
    assert(le(x, x));
    sorted.lemma_filter_contains(pred, i);
    assert(ties(sorted, le, x) == ties(items, le, x));
    assert(items.filter(pred).contains(x));
    items.lemma_filter_contains_rev(pred, x);
}

/// Every item of the unsorted list stands in the sorted one.
pub proof fn lemma_item_sorted<T>(sorted: Seq<T>, items: Seq<T>, le: spec_fn(T, T) -> bool, i: int)
    requires
        total_preorder(le),
        stable_sort_of(sorted, items, le),
        0 <= i < items.len(),
    ensures
        sorted.contains(items[i]),
{
    let x = items[i];
    let pred = |y: T| tied(le, x, y);
    assert(le(x, x));
    items.lemma_filter_contains(pred, i);
    assert(ties(sorted, le, x) == ties(items, le, x));
    assert(sorted.filter(pred).contains(x));
    sorted.lemma_filter_contains_rev(pred, x);
}

/// No two items of a list tie.
pub open spec fn untied<T>(items: Seq<T>, le: spec_fn(T, T) -> bool) -> bool {
    forall|i: int, j: int|
        0 <= i < j < items.len() ==> !tied(le, #[trigger] items[i], #[trigger] items[j])
}

proof fn lemma_few_ties<T>(items: Seq<T>, le: spec_fn(T, T) -> bool, x: T)
    requires
        total_preorder(le),
        untied(items, le),
    ensures
        ties(items, le, x).len() <= 1,
    decreases items.len(),
{
    if items.len() > 0 {
        let init = items.drop_last();
        let last = items.last();
        lemma_few_ties(init, le, x);
        lemma_ties_push(init, last, le, x);
        assert(items =~= init.push(last));
        if tied(le, x, last) {
            assert forall|i: int| 0 <= i < init.len() implies !tied(le, x, #[trigger] init[i]) by {
                if tied(le, x, init[i]) {
                    assert(le(init[i], x) && le(x, last));
                    assert(le(last, x) && le(x, init[i]));
                    assert(!tied(le, items[i], items[items.len() - 1]));
                }
            }
            lemma_no_ties(init, le, x);
        }
    } else {
        lemma_no_ties(items, le, x);
    }
}

/// Sorting a list in which no two items tie puts them in strict order.
pub proof fn lemma_sorted_untied<T>(sorted: Seq<T>, items: Seq<T>, le: spec_fn(T, T) -> bool)
    requires
        total_preorder(le),
        stable_sort_of(sorted, items, le),
        untied(items, le),
    ensures
        untied(sorted, le),
{
    assert forall|i: int, j: int| 0 <= i < j < sorted.len() implies !tied(
        le,
        #[trigger] sorted[i],
        #[trigger] sorted[j],
    ) by {
        if tied(le, sorted[i], sorted[j]) {
            let x = sorted[i];
            let pred = |y: T| tied(le, x, y);
            let head = sorted.take(i + 1);
            let tail = sorted.skip(i + 1);
            assert(le(x, x));
            assert(sorted =~= head + tail);
            lemma_ties_add(head, tail, le, x);
            assert(head[i] == x);
            head.lemma_filter_contains(pred, i);
            assert(tail[j - i - 1] == sorted[j]);
            tail.lemma_filter_contains(pred, j - i - 1);
            assert(ties(head, le, x).contains(x));
            assert(ties(tail, le, x).contains(sorted[j]));
            lemma_few_ties(items, le, x);
            assert(ties(sorted, le, x) == ties(items, le, x));
        }
    }
}

proof fn lemma_first_tied<T>(s: Seq<T>, le: spec_fn(T, T) -> bool, x: T)
    requires
        s.len() > 0,
        tied(le, x, s[0]),
    ensures
        ties(s, le, x).len() > 0,
        ties(s, le, x)[0] == s[0],
{
    let rest = s.drop_first();
    assert(s =~= seq![s[0]] + rest);
    lemma_ties_add(seq![s[0]], rest, le, x);
    lemma_ties_push(Seq::<T>::empty(), s[0], le, x);
    assert(seq![s[0]] =~= Seq::<T>::empty().push(s[0]));
    assert(ties(Seq::<T>::empty(), le, x) =~= Seq::<T>::empty());
}

/// A list has only one stable sort.
pub proof fn stable_sort_is_unique<T>(
    a: Seq<T>,
    b: Seq<T>,
    items: Seq<T>,
    le: spec_fn(T, T) -> bool,
)
    requires
        total_preorder(le),
        stable_sort_of(a, items, le),
        stable_sort_of(b, items, le),
    ensures
        a == b,
{
    lemma_same_sort(a, b, le);
}

proof fn lemma_same_sort<T>(a: Seq<T>, b: Seq<T>, le: spec_fn(T, T) -> bool)
    requires
        total_preorder(le),
        in_order(a, le),
        in_order(b, le),
        forall|x: T| #[trigger] ties(a, le, x) == ties(b, le, x),
    ensures
        a == b,
    decreases a.len(),
{
    if a.len() == 0 {
        if b.len() > 0 {
            assert(le(b[0], b[0]));
            lemma_first_tied(b, le, b[0]);
            lemma_no_ties(a, le, b[0]);
            assert(ties(a, le, b[0]) == ties(b, le, b[0]));
        }
        assert(a =~= b);
    } else {
        let x = a[0];
        assert(le(x, x));
        lemma_first_tied(a, le, x);
        assert(ties(a, le, x) == ties(b, le, x));
        if b.len() == 0 {
            lemma_no_ties(b, le, x);
        }
        let y = b[0];
        assert(le(y, y));
        lemma_first_tied(b, le, y);
        assert(ties(a, le, y) == ties(b, le, y));
        // The heads tie: each list holds an item that ties with the head of the other.
        if !tied(le, x, y) {
            if !le(x, y) {
                assert forall|i: int| 0 <= i < a.len() implies !tied(le, y, #[trigger] a[i]) by {
                    if tied(le, y, a[i]) && i > 0 {
                        assert(le(x, a[i]));
                        assert(le(a[i], y));
                    }
                }
                lemma_no_ties(a, le, y);
            } else {
                assert forall|i: int| 0 <= i < b.len() implies !tied(le, x, #[trigger] b[i]) by {
                    if tied(le, x, b[i]) && i > 0 {
                        assert(le(y, b[i]));
                        assert(le(b[i], x));
                    }
                }
                lemma_no_ties(b, le, x);
            }
        }
        lemma_first_tied(b, le, x);
        assert(a[0] == b[0]);
        let a1 = a.drop_first();
        let b1 = b.drop_first();
        assert forall|z: T| #[trigger] ties(a1, le, z) == ties(b1, le, z) by {
            assert(a =~= seq![x] + a1);
            assert(b =~= seq![x] + b1);
            lemma_ties_add(seq![x], a1, le, z);
            lemma_ties_add(seq![x], b1, le, z);
            assert(ties(a, le, z) == ties(b, le, z));
            let head = ties(seq![x], le, z);
            assert(ties(a1, le, z) =~= (head + ties(a1, le, z)).skip(head.len() as int));
            assert(ties(b1, le, z) =~= (head + ties(b1, le, z)).skip(head.len() as int));
        }
        lemma_same_sort(a1, b1, le);
        assert(a =~= seq![x] + a1);
        assert(b =~= seq![x] + b1);
    }
}

proof fn lemma_ties_pop<T>(s: Seq<T>, le: spec_fn(T, T) -> bool, x: T)
    requires
        s.len() > 0,
    ensures
        ties(s, le, x) == ties(s.drop_last(), le, x) + ties(seq![s.last()], le, x),
{
    assert(s =~= s.drop_last() + seq![s.last()]);
    lemma_ties_add(s.drop_last(), seq![s.last()], le, x);
}

/// Moving the last item of the right list to the front of the merged ones keeps all ties in place.
proof fn lemma_take_right<T>(
    left: Seq<T>,
    right: Seq<T>,
    done: Seq<T>,
    le: spec_fn(T, T) -> bool,
    x: T,
)
    requires
        right.len() > 0,
    ensures
        ties(left, le, x) + ties(right, le, x) + ties(done, le, x) == ties(left, le, x) + ties(
            right.drop_last(),
            le,
            x,
        ) + ties(seq![right.last()] + done, le, x),
{
    lemma_ties_pop(right, le, x);
    lemma_ties_add(seq![right.last()], done, le, x);
    assert(ties(left, le, x) + ties(right, le, x) + ties(done, le, x) =~= ties(left, le, x) + ties(
        right.drop_last(),
        le,
        x,
    ) + ties(seq![right.last()] + done, le, x));
}

/// Moving the last item of the left list to the front of the merged ones keeps all ties in place,
/// where it comes after all of the right list.
proof fn lemma_take_left<T>(
    left: Seq<T>,
    right: Seq<T>,
    done: Seq<T>,
    le: spec_fn(T, T) -> bool,
    x: T,
)
    requires
        total_preorder(le),
        left.len() > 0,
        forall|i: int| 0 <= i < right.len() ==> !le(left.last(), #[trigger] right[i]),
    ensures
        ties(left, le, x) + ties(right, le, x) + ties(done, le, x) == ties(
            left.drop_last(),
            le,
            x,
        ) + ties(right, le, x) + ties(seq![left.last()] + done, le, x),
{
    let l = left.last();
    lemma_ties_pop(left, le, x);
    lemma_ties_add(seq![l], done, le, x);
    if tied(le, x, l) {
        assert forall|i: int| 0 <= i < right.len() implies !tied(le, x, #[trigger] right[i]) by {
            if tied(le, x, right[i]) {
                assert(le(l, x) && le(x, right[i]));
            }
        }
        lemma_no_ties(right, le, x);
    } else {
        lemma_no_ties(seq![l], le, x);
    }
    assert(ties(left, le, x) + ties(right, le, x) + ties(done, le, x) =~= ties(
        left.drop_last(),
        le,
        x,
    ) + ties(right, le, x) + ties(seq![l] + done, le, x));
}

proof fn lemma_front_in_order<T>(x: T, done: Seq<T>, le: spec_fn(T, T) -> bool)
    requires
        in_order(done, le),
        forall|i: int| 0 <= i < done.len() ==> le(x, #[trigger] done[i]),
    ensures
        in_order(seq![x] + done, le),
{
    let longer = seq![x] + done;
    assert forall|i: int, j: int| 0 <= i < j < longer.len() implies le(
        #[trigger] longer[i],
        #[trigger] longer[j],
    ) by {
        assert(longer[j] == done[j - 1]);
        if i > 0 {
            assert(longer[i] == done[i - 1]);
        }
    }
}

/// Each of some items comes before or ties with each of the merged ones.
spec fn all_before<T>(items: Seq<T>, done: Seq<T>, le: spec_fn(T, T) -> bool) -> bool {
    forall|i: int, j: int|
        0 <= i < items.len() && 0 <= j < done.len() ==> le(#[trigger] items[i], #[trigger] done[j])
}

fn merge<T, F: Fn(&T, &T) -> bool>(
    left: Vec<T>,
    right: Vec<T>,
    before: &F,
    Ghost(le): Ghost<spec_fn(T, T) -> bool>,
) -> (merged: Vec<T>)
    requires
        total_preorder(le),
        forall|a: T, b: T| #[trigger] before.requires((&a, &b)),
        forall|a: T, b: T, r: bool| #[trigger] before.ensures((&a, &b), r) ==> r == le(a, b),
        in_order(left@, le),
        in_order(right@, le),
    ensures
        in_order(merged@, le),
        forall|x: T| #[trigger]
            ties(merged@, le, x) == ties(left@, le, x) + ties(right@, le, x),
{
    let ghost left0 = left@;
    let ghost right0 = right@;
    let mut left = left;
    let mut right = right;
    let mut reversed: Vec<T> = Vec::new();
    let ghost mut done: Seq<T> = Seq::empty();
    proof {
        assert forall|x: T| #[trigger]
            ties(left0, le, x) + ties(right0, le, x) == ties(left@, le, x) + ties(right@, le, x)
                + ties(done, le, x) by {
            lemma_no_ties(done, le, x);
            assert(ties(left@, le, x) + ties(right@, le, x) + ties(done, le, x) =~= ties(
                left0,
                le,
                x,
            ) + ties(right0, le, x));
        }
    }
    while left.len() > 0 || right.len() > 0
        invariant
            total_preorder(le),
            forall|a: T, b: T| #[trigger] before.requires((&a, &b)),
            forall|a: T, b: T, r: bool| #[trigger] before.ensures((&a, &b), r) ==> r == le(a, b),
            in_order(left@, le),
            in_order(right@, le),
            in_order(done, le),
            all_before(left@, done, le),
            all_before(right@, done, le),
            done == reversed@.reverse(),
            forall|x: T|
                ties(left0, le, x) + ties(right0, le, x) == ties(left@, le, x) + ties(right@, le, x)
                    + #[trigger] ties(done, le, x),
        decreases left.len() + right.len(),
    {
        let from_right = if left.len() == 0 {
            true
        } else if right.len() == 0 {
            false
        } else {
            before(&left[left.len() - 1], &right[right.len() - 1])
        };
        let ghost l = left@;
        let ghost r = right@;
        let ghost d = done;
        if from_right {
            let item = right.pop().unwrap();
            proof {
                done = seq![item] + d;
                assert forall|j: int| 0 <= j < d.len() implies le(item, #[trigger] d[j]) by {
                    assert(le(r[r.len() - 1], d[j]));
                }
                lemma_front_in_order(item, d, le);
                assert forall|x: T|
                    ties(left0, le, x) + ties(right0, le, x) == ties(l, le, x) + ties(
                        right@,
                        le,
                        x,
                    ) + #[trigger] ties(done, le, x) by {
                    lemma_take_right(l, r, d, le, x);
                    assert(ties(left0, le, x) + ties(right0, le, x) == ties(l, le, x) + ties(
                        r,
                        le,
                        x,
                    ) + ties(d, le, x));
                }
                assert forall|i: int, j: int|
                    0 <= i < l.len() && 0 <= j < done.len() implies le(
                    #[trigger] l[i],
                    #[trigger] done[j],
                ) by {
                    if j == 0 {
                        assert(le(l[l.len() - 1], item));
                        if i < l.len() - 1 {
                            assert(le(l[i], l[l.len() - 1]));
                        }
                    } else {
                        assert(done[j] == d[j - 1]);
                    }
                }
                assert forall|i: int, j: int|
                    0 <= i < right@.len() && 0 <= j < done.len() implies le(
                    #[trigger] right@[i],
                    #[trigger] done[j],
                ) by {
                    assert(right@[i] == r[i]);
                    if j == 0 {
                        assert(le(r[i], r[r.len() - 1]));
                    } else {
                        assert(done[j] == d[j - 1]);
                    }
                }
            }
            reversed.push(item);
        } else {
            let item = left.pop().unwrap();
            proof {
                done = seq![item] + d;
                assert forall|j: int| 0 <= j < d.len() implies le(item, #[trigger] d[j]) by {
                    assert(le(l[l.len() - 1], d[j]));
                }
                lemma_front_in_order(item, d, le);
                assert forall|i: int| 0 <= i < r.len() implies !le(item, #[trigger] r[i]) by {
                    if le(item, r[i]) && i < r.len() - 1 {
                        assert(le(r[i], r[r.len() - 1]));
                    }
                }
                assert forall|x: T|
                    ties(left0, le, x) + ties(right0, le, x) == ties(left@, le, x) + ties(r, le, x)
                        + #[trigger] ties(done, le, x) by {
                    lemma_take_left(l, r, d, le, x);
                    assert(ties(left0, le, x) + ties(right0, le, x) == ties(l, le, x) + ties(
                        r,
                        le,
                        x,
                    ) + ties(d, le, x));
                }
                assert forall|i: int, j: int|
                    0 <= i < left@.len() && 0 <= j < done.len() implies le(
                    #[trigger] left@[i],
                    #[trigger] done[j],
                ) by {
                    assert(left@[i] == l[i]);
                    if j == 0 {
                        assert(le(l[i], l[l.len() - 1]));
                    } else {
                        assert(done[j] == d[j - 1]);
                    }
                }
                assert forall|i: int, j: int|
                    0 <= i < r.len() && 0 <= j < done.len() implies le(
                    #[trigger] r[i],
                    #[trigger] done[j],
                ) by {
                    if j == 0 {
                        assert(le(item, r[i]) || le(r[i], item));
                    } else {
                        assert(done[j] == d[j - 1]);
                    }
                }
            }
            reversed.push(item);
        }
        proof {
            assert(reversed@.reverse() =~= done);
        }
    }
    let mut merged: Vec<T> = Vec::with_capacity(reversed.len());
    let ghost all = reversed@;
    while reversed.len() > 0
        invariant
            reversed@.len() <= all.len(),
            reversed@ == all.take(reversed@.len() as int),
            merged@ == all.skip(reversed@.len() as int).reverse(),
        decreases reversed.len(),
    {
        let ghost rest = reversed@;
        let item = reversed.pop().unwrap();
        proof {
            assert(all.skip(rest.len() - 1).reverse() =~= all.skip(rest.len() as int).reverse().push(
                item,
            ));
        }
        merged.push(item);
    }
    proof {
        assert(all.skip(0) =~= all);
        assert(merged@ == done);
        assert forall|x: T| #[trigger] ties(merged@, le, x) == ties(left0, le, x) + ties(
            right0,
            le,
            x,
        ) by {
            lemma_no_ties(left@, le, x);
            lemma_no_ties(right@, le, x);
            assert(ties(left@, le, x) + ties(right@, le, x) + ties(done, le, x) =~= ties(
                done,
                le,
                x,
            ));
        }
    }
    merged
}

/// Sorts items by a total preorder that `before` decides; items that tie keep their order.
pub(crate) fn stable_sort<T, F: Fn(&T, &T) -> bool>(
    items: Vec<T>,
    before: &F,
    Ghost(le): Ghost<spec_fn(T, T) -> bool>,
) -> (sorted: Vec<T>)
    requires
        total_preorder(le),
        forall|a: T, b: T| #[trigger] before.requires((&a, &b)),
        forall|a: T, b: T, r: bool| #[trigger] before.ensures((&a, &b), r) ==> r == le(a, b),
    ensures
        stable_sort_of(sorted@, items@, le),
    decreases items.len(),
{
    if items.len() <= 1 {
        return items;
    }
    let ghost given = items@;
    let mut left = items;
    let middle = left.len() / 2;
    let right = left.split_off(middle);
    let ghost left0 = left@;
    let ghost right0 = right@;
    let left = stable_sort(left, before, Ghost(le));
    let right = stable_sort(right, before, Ghost(le));
    let ghost left1 = left@;
    let ghost right1 = right@;
    let sorted = merge(left, right, before, Ghost(le));
    proof {
        assert forall|x: T| #[trigger] ties(sorted@, le, x) == ties(given, le, x) by {
            assert(given =~= left0 + right0);
            lemma_ties_add(left0, right0, le, x);
            assert(ties(left1, le, x) == ties(left0, le, x));
            assert(ties(right1, le, x) == ties(right0, le, x));
        }
    }
    sorted
}

} // verus!
