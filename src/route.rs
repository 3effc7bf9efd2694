//! The route optimizer: a return path is shortened by jumping from its head
//! straight to the last node of the path that is a neighbor of the drone.
use vstd::prelude::*;

use crate::drone::RustBustersDrone;
use crate::packet::{copy_vec, NodeId};

verus! {

/// The largest index `j` with `1 <= j <= i` such that `path[j]` is in `nb`,
/// or 0 when there is none.
pub open spec fn last_neighbor_upto(path: Seq<NodeId>, nb: Set<NodeId>, i: int) -> int
    decreases i,
{
    if i < 1 {
        0
    } else if nb.contains(path[i]) {
        i
    } else {
        last_neighbor_upto(path, nb, i - 1)
    }
}

/// The path optimized against the neighbor set `nb`: its head, followed by
/// the tail that starts at the last node (other than the head) that is a
/// neighbor. A path of fewer than two nodes, or one in which no node but the
/// head is a neighbor, stays as it is.
pub open spec fn optimized_path(path: Seq<NodeId>, nb: Set<NodeId>) -> Seq<NodeId> {
    let i = last_neighbor_upto(path, nb, path.len() - 1);
    if path.len() < 2 || i == 0 {
        path
    } else {
        seq![path[0]].add(path.subrange(i, path.len() as int))
    }
}

pub proof fn lemma_last_neighbor_upto(path: Seq<NodeId>, nb: Set<NodeId>, i: int)
    requires
        i < path.len(),
    ensures
        0 <= last_neighbor_upto(path, nb, i) <= if i < 0 { 0 } else { i },
        last_neighbor_upto(path, nb, i) != 0 ==> nb.contains(
            path[last_neighbor_upto(path, nb, i)],
        ),
        forall|j: int|
            last_neighbor_upto(path, nb, i) < j <= i && 1 <= j ==> !nb.contains(#[trigger] path[j]),
    decreases i,
{
    if i >= 1 && !nb.contains(path[i]) {
        lemma_last_neighbor_upto(path, nb, i - 1);
    }
}

/// The optimizer keeps the head, never makes a path longer, and when it
/// changes a path it makes it strictly shorter while keeping a non-empty
/// tail of it.
pub proof fn lemma_optimized_is_tail_replacement(path: Seq<NodeId>, nb: Set<NodeId>)
    ensures
        optimized_path(path, nb).len() <= path.len(),
        path.len() > 0 ==> optimized_path(path, nb).len() > 0 && optimized_path(path, nb)[0]
            == path[0],
        path.len() >= 2 ==> optimized_path(path, nb).len() >= 2,
        optimized_path(path, nb) != path ==> {
            &&& optimized_path(path, nb).len() < path.len()
            &&& exists|k: int|
                1 <= k <= optimized_path(path, nb).len() && #[trigger] optimized_path(
                    path,
                    nb,
                ).subrange(optimized_path(path, nb).len() - k, optimized_path(path, nb).len() as int)
                    == path.subrange(path.len() - k, path.len() as int)
        },
{
    let q = optimized_path(path, nb);
    let i = last_neighbor_upto(path, nb, path.len() - 1);
    lemma_last_neighbor_upto(path, nb, path.len() - 1);
    if path.len() >= 2 && i != 0 {
        let k = path.len() - i;
        assert(q.subrange(q.len() - k, q.len() as int) =~= path.subrange(
            path.len() - k,
            path.len() as int,
        ));
        if i == 1 {
            assert(q =~= path);
        }
    }
}

/// A path in which no node after the second is a neighbor is already
/// optimal: the optimizer returns it unchanged.
pub proof fn lemma_optimized_identity(path: Seq<NodeId>, nb: Set<NodeId>)
    requires
        forall|j: int| 2 <= j < path.len() ==> !nb.contains(#[trigger] path[j]),
    ensures
        optimized_path(path, nb) == path,
{
    lemma_last_neighbor_upto(path, nb, path.len() - 1);
    let i = last_neighbor_upto(path, nb, path.len() - 1);
    if path.len() >= 2 && i != 0 {
        assert(i == 1);
        assert(optimized_path(path, nb) =~= path);
    }
}

impl<S> RustBustersDrone<S> {
    /// Shortens `path` through the drone's neighbors, as `optimized_path`
    /// says.
    pub fn optimize_route(&self, path: &Vec<NodeId>) -> (r: Vec<NodeId>)
        ensures
            r@ == optimized_path(path@, self@.neighbors.dom()),
    {
        let n = path.len();
        if n < 2 {
            return copy_vec(path);
        }
        let ghost nb = self@.neighbors.dom();
        let mut i: usize = n - 1;
        while i >= 1 && !self.is_neighbor(path[i])
            invariant
                n == path.len(),
                1 <= n,
                i < n,
                nb == self@.neighbors.dom(),
                last_neighbor_upto(path@, nb, n - 1) == last_neighbor_upto(path@, nb, i as int),
            decreases i,
        {
            i -= 1;
        }
        if i == 0 {
            return copy_vec(path);
        }
        let mut r: Vec<NodeId> = Vec::new();
        r.push(path[0]);
        let mut j: usize = i;
        while j < n
            invariant
                n == path.len(),
                1 <= i <= j <= n,
                r@ == seq![path@[0]].add(path@.subrange(i as int, j as int)),
            decreases n - j,
        {
            r.push(path[j]);
            j += 1;
            assert(r@ =~= seq![path@[0]].add(path@.subrange(i as int, j as int)));
        }
        r
    }
}

} // verus!
