//! Walking the keys of a hash map: every key once, in an order that the
//! map chooses.

use std::collections::HashMap;
use vstd::prelude::*;
use vstd::std_specs::iter::IteratorSpec;

verus! {

broadcast use vstd::std_specs::hash::group_hash_axioms;

/// True when `order` lists each of `ids` once: one way to walk them.
pub open spec fn is_walk(order: Seq<u32>, ids: Set<u32>) -> bool {
    order.no_duplicates() && order.to_set() == ids
}

/// The keys of `map`, each once, in the order in which the map hands them
/// out.
pub fn keys<V>(map: &HashMap<u32, V>) -> (order: Vec<u32>)
    ensures
        is_walk(order@, map@.dom()),
{
    let mut order: Vec<u32> = Vec::new();
    let ghost all: Seq<u32> = map.keys().remaining().unref();
    for key in it: map.keys()
        invariant
            it.seq().unref() == all,
            order@ == all.take(it.index()),
    {
        order.push(*key);
    }
    assert(order@ =~= all);
    order
}

/// A set of one id is walked in one way.
pub proof fn lemma_walk_of_one(order: Seq<u32>, id: u32)
    requires
        is_walk(order, set![id]),
    ensures
        order == seq![id],
{
    assert(set![id].contains(id));
    assert(order.to_set().contains(id));
    assert(order.len() >= 1);
    assert forall|i: int| 0 <= i < order.len() implies order[i] == id by {
        assert(order.to_set().contains(order[i]));
    }
    if order.len() >= 2 {
        assert(order[0] == order[1]);
    }
    assert(order =~= seq![id]);
}

/// Every finite set of ids can be walked.
pub proof fn walk_of(ids: Set<u32>) -> (order: Seq<u32>)
    requires
        ids.finite(),
    ensures
        is_walk(order, ids),
    decreases ids.len(),
{
    if ids.len() == 0 {
        let order = Seq::<u32>::empty();
        assert(ids =~= Set::<u32>::empty());
        assert(order.to_set() =~= ids);
        order
    } else {
        let id = ids.choose();
        let rest = walk_of(ids.remove(id));
        let order = rest.push(id);
        assert(!rest.to_set().contains(id));
        assert(order.to_set() =~= ids) by {
            assert forall|k: u32| order.to_set().contains(k) <==> ids.contains(k) by {
                if order.contains(k) {
                    let i = choose|i: int| 0 <= i < order.len() && order[i] == k;
                    if i < rest.len() {
                        assert(rest.to_set().contains(rest[i]));
                    }
                }
                if ids.contains(k) {
                    if k == id {
                        assert(order[rest.len() as int] == k);
                    } else {
                        assert(rest.to_set().contains(k));
                        let i = choose|i: int| 0 <= i < rest.len() && rest[i] == k;
                        assert(order[i] == k);
                    }
                }
            }
        }
        assert(order.no_duplicates()) by {
            assert forall|i: int, j: int|
                0 <= i < order.len() && 0 <= j < order.len() && i != j implies order[i]
                != order[j] by {
                if i < rest.len() {
                    assert(rest.to_set().contains(rest[i]));
                }
                if j < rest.len() {
                    assert(rest.to_set().contains(rest[j]));
                }
            }
        }
        order
    }
}

} // verus!
