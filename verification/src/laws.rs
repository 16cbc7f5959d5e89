//! What the operations promise their callers, each law read off the calls themselves: from what
//! went into a call and what came out of it, with nothing said through an intermediate definition.
pub mod agreement;
pub mod basics;
pub mod capabilities;
pub mod enforcement;
pub mod fleet;
pub mod gateway;
pub mod governor;
pub mod identity;
pub mod journal;
pub mod lifecycle;
pub mod mesh;
pub mod models;
pub mod opacity;
pub mod ordered_log;
pub mod replica;
pub mod routes;
pub mod tools;

use vstd::prelude::*;

verus! {

/// Positions in the order they stand in.
pub open spec fn increasing(idx: Seq<int>) -> bool {
    forall|a: int, b: int| #![trigger idx[a], idx[b]] 0 <= a < b < idx.len() ==> idx[a] < idx[b]
}

/// Positions with one more behind them, or without it.
pub proof fn lemma_pushed(front: Seq<int>, p: int, kept: bool, idx: Seq<int>)
    requires
        idx == if kept {
            front.push(p)
        } else {
            front
        },
        increasing(front),
        forall|j: int| 0 <= j < front.len() ==> #[trigger] front[j] < p,
    ensures
        increasing(idx),
        idx.contains(p) <==> kept,
        forall|i: int| i != p ==> (#[trigger] idx.contains(i) <==> front.contains(i)),
{
    if kept {
        assert(idx[front.len() as int] == p);
    } else if idx.contains(p) {
        let j = choose|j: int| 0 <= j < idx.len() && idx[j] == p;
        assert(front[j] == p);
    }
    assert forall|i: int| i != p implies (#[trigger] idx.contains(i) <==> front.contains(i)) by {
        if front.contains(i) {
            let j = choose|j: int| 0 <= j < front.len() && front[j] == i;
            assert(idx[j] == i);
        }
        if idx.contains(i) {
            let j = choose|j: int| 0 <= j < idx.len() && idx[j] == i;
            assert(front[j] == i);
        }
    }
}

} // verus!
