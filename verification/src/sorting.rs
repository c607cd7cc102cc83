//! Putting things in order by a number: the stable ascending order of the
//! places of a list of numbers.

use vstd::prelude::*;

verus! {

/// Among the places of `keys`, `i` comes before `j`: it holds the smaller
/// number, or the same number and comes first in the list.
pub open spec fn key_ahead(keys: Seq<i128>, i: int, j: int) -> bool {
    keys[i] < keys[j] || (keys[i] == keys[j] && i < j)
}

/// Where a new last place goes into `order`: behind every place that does
/// not hold a greater number.
pub open spec fn slot_for(keys: Seq<i128>, order: Seq<int>, place: int) -> int
    decreases order.len(),
{
    if order.len() > 0 && keys[order.last()] > keys[place] {
        slot_for(keys, order.drop_last(), place)
    } else {
        order.len() as int
    }
}

/// The first `n` places of `keys` in ascending order of their numbers,
/// places with the same number in the order of the list.
pub open spec fn ascending_prefix(keys: Seq<i128>, n: nat) -> Seq<int>
    decreases n,
{
    if n == 0 {
        Seq::empty()
    } else {
        let rest = ascending_prefix(keys, (n - 1) as nat);
        rest.insert(slot_for(keys, rest, n - 1), n - 1)
    }
}

/// The places of `keys` in ascending order of their numbers, places with
/// the same number in the order of the list.
pub open spec fn ascending_places(keys: Seq<i128>) -> Seq<int> {
    ascending_prefix(keys, keys.len())
}

/// `order` lists each of the places below `n` once, each before all that
/// come after it by `key_ahead`.
pub open spec fn is_ascending(keys: Seq<i128>, order: Seq<int>, n: nat) -> bool {
    &&& order.len() == n
    &&& forall|p: int| 0 <= p < order.len() ==> 0 <= #[trigger] order[p] < n
    &&& forall|p: int, q: int|
        0 <= p < q < order.len() ==> key_ahead(keys, #[trigger] order[p], #[trigger] order[q])
    &&& forall|x: int| 0 <= x < n ==> #[trigger] order.contains(x)
}

/// The slot for a new place lies within the order, every place before it
/// holds no greater number, and every place from it on holds a greater one.
pub proof fn lemma_slot_for(keys: Seq<i128>, order: Seq<int>, place: int)
    ensures
        0 <= slot_for(keys, order, place) <= order.len(),
        forall|q: int|
            slot_for(keys, order, place) <= q < order.len() ==> keys[#[trigger] order[q]]
                > keys[place],
        slot_for(keys, order, place) > 0 ==> keys[order[slot_for(keys, order, place) - 1]]
            <= keys[place],
    decreases order.len(),
{
    if order.len() > 0 && keys[order.last()] > keys[place] {
        lemma_slot_for(keys, order.drop_last(), place);
        let slot = slot_for(keys, order.drop_last(), place);
        assert forall|q: int| slot <= q < order.len() implies keys[#[trigger] order[q]]
            > keys[place] by {
            if q < order.len() - 1 {
                assert(order.drop_last()[q] == order[q]);
            }
        }
        if slot > 0 {
            assert(order.drop_last()[slot - 1] == order[slot - 1]);
        }
    }
}

/// The ascending order of the first `n` places lists each of them once,
/// smaller numbers first and equal numbers in the order of the list.
pub proof fn lemma_ascending_prefix(keys: Seq<i128>, n: nat)
    requires
        n <= keys.len(),
    ensures
        is_ascending(keys, ascending_prefix(keys, n), n),
    decreases n,
{
    if n > 0 {
        lemma_ascending_prefix(keys, (n - 1) as nat);
        let rest = ascending_prefix(keys, (n - 1) as nat);
        let place = n - 1;
        lemma_slot_for(keys, rest, place);
        let slot = slot_for(keys, rest, place);
        let order = rest.insert(slot, place);
        assert(order.len() == n);
        assert forall|p: int| 0 <= p < order.len() implies 0 <= #[trigger] order[p] < n by {
            if p < slot {
                assert(order[p] == rest[p]);
            } else if p > slot {
                assert(order[p] == rest[p - 1]);
            }
        }
        assert forall|p: int, q: int| 0 <= p < q < order.len() implies key_ahead(
            keys,
            #[trigger] order[p],
            #[trigger] order[q],
        ) by {
            if q < slot {
                assert(order[p] == rest[p] && order[q] == rest[q]);
            } else if p > slot {
                assert(order[p] == rest[p - 1] && order[q] == rest[q - 1]);
            } else if p == slot {
                assert(order[q] == rest[q - 1]);
            } else if q == slot {
                assert(order[p] == rest[p]);
                if p < slot - 1 {
                    assert(key_ahead(keys, rest[p], rest[slot - 1]));
                }
            } else {
                assert(order[p] == rest[p] && order[q] == rest[q - 1]);
            }
        }
        assert forall|x: int| 0 <= x < n implies #[trigger] order.contains(x) by {
            if x == place {
                assert(order[slot] == x);
            } else {
                assert(rest.contains(x));
                let at = choose|at: int| 0 <= at < rest.len() && rest[at] == x;
                if at < slot {
                    assert(order[at] == x);
                } else {
                    assert(order[at + 1] == x);
                }
            }
        }
    }
}

/// The places of a list of numbers as a list of integers.
pub open spec fn as_places(order: Seq<usize>) -> Seq<int> {
    Seq::new(order.len(), |k: int| order[k] as int)
}

/// The places of `keys` in ascending order of their numbers, places with
/// the same number in the order of the list.
pub fn places_ascending(keys: &Vec<i128>) -> (order: Vec<usize>)
    ensures
        as_places(order@) == ascending_places(keys@),
        order@.len() == keys@.len(),
        forall|k: int| 0 <= k < order@.len() ==> #[trigger] order@[k] < keys@.len(),
{
    let mut order: Vec<usize> = Vec::new();
    let mut i: usize = 0;
    assert(as_places(order@) =~= ascending_prefix(keys@, 0));
    while i < keys.len()
        invariant
            i <= keys@.len(),
            order@.len() == i,
            as_places(order@) == ascending_prefix(keys@, i as nat),
            forall|k: int| 0 <= k < order@.len() ==> #[trigger] order@[k] < i,
        decreases keys@.len() - i,
    {
        let ghost rest = as_places(order@);
        let mut slot: usize = order.len();
        assert(rest.subrange(0, slot as int) =~= rest);
        while slot > 0 && keys[order[slot - 1]] > keys[i]
            invariant
                slot <= order@.len(),
                i < keys@.len(),
                rest == as_places(order@),
                forall|k: int| 0 <= k < order@.len() ==> #[trigger] order@[k] < i,
                slot_for(keys@, rest, i as int) == slot_for(
                    keys@,
                    rest.subrange(0, slot as int),
                    i as int,
                ),
            decreases slot,
        {
            proof {
                let front = rest.subrange(0, slot as int);
                assert(front.last() == order@[slot - 1] as int);
                assert(front.drop_last() =~= rest.subrange(0, slot - 1));
            }
            slot = slot - 1;
        }
        proof {
            let front = rest.subrange(0, slot as int);
            if slot > 0 {
                assert(front.last() == order@[slot - 1] as int);
            }
            assert(slot_for(keys@, rest, i as int) == slot);
        }
        order.insert(slot, i);
        proof {
            assert(as_places(order@) =~= rest.insert(slot as int, i as int));
        }
        i = i + 1;
    }
    order
}

} // verus!
