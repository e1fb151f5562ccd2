//! Ordering by a key, largest first, in a way that keeps the order of equal keys.

use vstd::prelude::*;

verus! {

/// Whether `order` lists the indices of `keys` by key, largest first, and of those with
/// the same key the smaller index first. There is exactly one such list for each `keys`.
pub open spec fn is_descending_order(keys: Seq<i128>, order: Seq<usize>) -> bool {
    &&& order.len() == keys.len()
    &&& forall|a: int| 0 <= a < order.len() ==> (#[trigger] order[a]) < keys.len()
    &&& forall|a: int, b: int|
        0 <= a < b < order.len() ==> keys[(#[trigger] order[a]) as int] >= keys[(
        #[trigger] order[b]) as int]
    &&& forall|a: int, b: int|
        0 <= a < b < order.len() && keys[(#[trigger] order[a]) as int] == keys[(
        #[trigger] order[b]) as int] ==> order[a] < order[b]
    &&& forall|a: int, b: int|
        0 <= a < b < order.len() ==> (#[trigger] order[a]) != (#[trigger] order[b])
    &&& forall|j: int| 0 <= j < keys.len() ==> #[trigger] lists(order, j)
}

/// Whether `order` lists the index `j`.
pub open spec fn lists(order: Seq<usize>, j: int) -> bool {
    exists|a: int| is_place_of(order, a, j)
}

/// Whether `order` lists the index `j` at place `a`.
pub open spec fn is_place_of(order: Seq<usize>, a: int, j: int) -> bool {
    0 <= a < order.len() && order[a] == j
}

/// The indices of `keys` by key, largest first; equal keys keep their order.
pub fn descending_order(keys: &Vec<i128>) -> (order: Vec<usize>)
    ensures
        is_descending_order(keys@, order@),
{
    let mut order: Vec<usize> = Vec::new();
    let mut i: usize = 0;
    while i < keys.len()
        invariant
            i <= keys.len(),
            order.len() == i,
            forall|a: int| 0 <= a < order.len() ==> (#[trigger] order[a]) < i,
            forall|a: int, b: int|
                0 <= a < b < order.len() ==> keys[(#[trigger] order[a]) as int] >= keys[(
                #[trigger] order[b]) as int],
            forall|a: int, b: int|
                0 <= a < b < order.len() && keys[(#[trigger] order[a]) as int] == keys[(
                #[trigger] order[b]) as int] ==> order[a] < order[b],
            forall|a: int, b: int|
                0 <= a < b < order.len() ==> (#[trigger] order[a]) != (#[trigger] order[b]),
            forall|j: int| 0 <= j < i ==> #[trigger] lists(order@, j),
        decreases keys.len() - i,
    {
        let key = keys[i];
        let mut at: usize = 0;
        while at < order.len() && keys[order[at]] >= key
            invariant
                at <= order.len(),
                order.len() == i,
                i < keys.len(),
                key == keys[i as int],
                forall|a: int| 0 <= a < order.len() ==> (#[trigger] order[a]) < i,
                forall|a: int| 0 <= a < at ==> keys[(#[trigger] order[a]) as int] >= key,
            decreases order.len() - at,
        {
            at += 1;
        }
        let ghost before = order@;
        order.insert(at, i);
        proof {
            assert forall|j: int| 0 <= j < i + 1 implies #[trigger] lists(order@, j) by {
                if j == i {
                    assert(is_place_of(order@, at as int, j));
                } else {
                    assert(lists(before, j));
                    let a = choose|a: int| is_place_of(before, a, j);
                    if a < at {
                        assert(is_place_of(order@, a, j));
                    } else {
                        assert(is_place_of(order@, a + 1, j));
                    }
                }
            }
        }
        i += 1;
    }
    order
}

} // verus!
