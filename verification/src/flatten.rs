//! Lists that are put together from parts.

use vstd::prelude::*;

verus! {

/// The parts of a list, one behind the other.
pub open spec fn flattened<T>(n: nat, part: spec_fn(int) -> Seq<T>) -> Seq<T>
    decreases n,
{
    if n == 0 {
        Seq::empty()
    } else {
        flattened((n - 1) as nat, part) + part(n - 1)
    }
}

/// Every item of a part stands in the list, behind the items of the parts before it.
pub proof fn items_of_parts_are_listed<T>(
    n: nat,
    part: spec_fn(int) -> Seq<T>,
    i: int,
    k: int,
)
    requires
        0 <= i < n,
        0 <= k < part(i).len(),
    ensures
        flattened(i as nat, part).len() + k < flattened(n, part).len(),
        flattened(n, part)[flattened(i as nat, part).len() + k] == part(i)[k],
    decreases n,
{
    if i < n - 1 {
        items_of_parts_are_listed((n - 1) as nat, part, i, k);
    }
}

/// Every item of the list is one of a part, behind the items of the parts before it.
pub proof fn listed_items_are_of_parts<T>(n: nat, part: spec_fn(int) -> Seq<T>, at: int) -> (place: (
    int,
    int,
))
    requires
        0 <= at < flattened(n, part).len(),
    ensures
        0 <= place.0 < n,
        0 <= place.1 < part(place.0).len(),
        at == flattened(place.0 as nat, part).len() + place.1,
        flattened(n, part)[at] == part(place.0)[place.1],
    decreases n,
{
    let before = flattened((n - 1) as nat, part);
    if at < before.len() {
        listed_items_are_of_parts((n - 1) as nat, part, at)
    } else {
        (n - 1, at - before.len())
    }
}

/// Items of earlier parts stand before items of later ones, and items of one part in their order.
pub proof fn items_are_listed_by_parts<T>(
    n: nat,
    part: spec_fn(int) -> Seq<T>,
    i: int,
    k: int,
    j: int,
    l: int,
)
    requires
        0 <= i <= j < n,
        0 <= k < part(i).len(),
        0 <= l < part(j).len(),
        i < j || k < l,
    ensures
        flattened(i as nat, part).len() + k < flattened(j as nat, part).len() + l,
    decreases j,
{
    if i < j {
        items_of_parts_are_listed(j as nat, part, i, k);
    }
}

} // verus!
