//! A small undirected graph keyed by dense node indexes, used by network
//! exercising tools to track which nodes have met which.
//!
//! Nodes get increasing indexes as they are added. An edge is stored under
//! the ordered pair (larger index first), together with whatever value the
//! two nodes negotiated when the edge appeared.

use vstd::prelude::*;

verus! {

/// A participant in the graph: told when an edge to another node appears,
/// and answers with the edge's value. What it answers is the caller's
/// business; the graph only stores it.
pub trait GraphNode<M>: Sized {
    fn edge_added(&mut self, other: &Self, other_id: usize) -> M;
}

/// The graph: nodes by index, edges by ordered index pair.
pub struct GraphMap<M, N: GraphNode<M>> {
    pub index: usize,
    pub nodes: Vec<(usize, N)>,
    pub edges: Vec<((usize, usize), M)>,
}

/// Whether some node in the table has the given index.
pub open spec fn has_node<N>(nodes: Seq<(usize, N)>, id: usize) -> bool {
    exists|k: int| 0 <= k < nodes.len() && (#[trigger] nodes[k].0) == id
}

/// The edge table without every entry under the given key, order kept.
pub open spec fn edges_without<M>(edges: Seq<((usize, usize), M)>, key: (usize, usize)) -> Seq<
    ((usize, usize), M),
>
    decreases edges.len(),
{
    if edges.len() == 0 {
        Seq::empty()
    } else {
        let rest = edges_without(edges.skip(1), key);
        if edges[0].0 == key {
            rest
        } else {
            seq![edges[0]] + rest
        }
    }
}

/// The node table is well formed: every index was handed out by `add_node`
/// (so it is below the counter), and no index appears twice.
pub open spec fn graph_wf<N>(nodes: Seq<(usize, N)>, index: usize) -> bool {
    &&& forall|i: int| 0 <= i < nodes.len() ==> (#[trigger] nodes[i].0) < index
    &&& forall|i: int, j: int|
        0 <= i < nodes.len() && 0 <= j < nodes.len() && i != j ==> (#[trigger] nodes[i].0) != (
        #[trigger] nodes[j].0)
}

impl<M, N: GraphNode<M>> GraphMap<M, N> {
    /// The structural invariant: see [`graph_wf`].
    pub open spec fn wf(self) -> bool {
        graph_wf(self.nodes@, self.index)
    }

    /// An empty graph.
    pub fn new() -> (r: GraphMap<M, N>)
        ensures
            r.wf(),
            r.index == 0,
            r.nodes@.len() == 0,
            r.edges@.len() == 0,
    {
        GraphMap { index: 0, nodes: Vec::new(), edges: Vec::new() }
    }

    /// Add a node under the next free index and hand the index back. Indexes
    /// only grow, so they are never reused.
    pub fn add_node(&mut self, n: N) -> (r: usize)
        requires
            old(self).wf(),
            old(self).index < usize::MAX,
        ensures
            final(self).wf(),
            r == old(self).index,
            final(self).index == old(self).index + 1,
            final(self).nodes@ == old(self).nodes@.push((r, n)),
            final(self).edges@ == old(self).edges@,
    {
        let i = self.index;
        self.index = self.index + 1;
        self.nodes.push((i, n));
        i
    }

    /// Record an edge between two present nodes: the node with the larger
    /// index is told about the other, and its answer becomes the edge's
    /// value, appended under the ordered key. Nothing happens when either
    /// node is missing or both name the same node.
    pub fn add_edge(&mut self, lhs: usize, rhs: usize) -> (r: bool)
        requires
            old(self).wf(),
        ensures
            final(self).wf(),
            final(self).index == old(self).index,
            r == (lhs != rhs && has_node(old(self).nodes@, lhs) && has_node(
                old(self).nodes@,
                rhs,
            )),
            r ==> {
                &&& final(self).edges@.len() == old(self).edges@.len() + 1
                &&& final(self).edges@[final(self).edges@.len() - 1].0 == sort_args(lhs, rhs)
                &&& final(self).edges@.take(old(self).edges@.len() as int) == old(self).edges@
                &&& final(self).nodes@.len() == old(self).nodes@.len()
                &&& forall|j: int|
                    0 <= j < old(self).nodes@.len() ==> (#[trigger] final(self).nodes@[j].0) == old(
                        self,
                    ).nodes@[j].0
            },
            !r ==> *final(self) == *old(self),
    {
        let ghost nodes0 = self.nodes@;
        let (a, b) = sort_args_exec(lhs, rhs);
        let Some(ai) = find_node(&self.nodes, a) else {
            proof {
                assert(!has_node(nodes0, a));
            }
            return false;
        };
        let Some(bi) = find_node(&self.nodes, b) else {
            proof {
                assert(!has_node(nodes0, b));
            }
            return false;
        };
        if lhs == rhs {
            return false;
        }
        proof {
            assert(nodes0[ai as int].0 == a);
            assert(nodes0[bi as int].0 == b);
            assert(has_node(nodes0, lhs) && has_node(nodes0, rhs));
            assert(ai != bi);
        }
        // Take both nodes out so the one can be told about the other, then
        // put them back where they were.
        let (hi, lo) = if ai > bi {
            (ai, bi)
        } else {
            (bi, ai)
        };
        let ghost pre = self.nodes@;
        let second = self.nodes.remove(hi);
        let first = self.nodes.remove(lo);
        let (mut a_entry, b_entry) = if ai > bi {
            (second, first)
        } else {
            (first, second)
        };
        let value = a_entry.1.edge_added(&b_entry.1, b);
        self.edges.push(((a, b), value));
        let (lo_entry, hi_entry) = if ai > bi {
            (b_entry, a_entry)
        } else {
            (a_entry, b_entry)
        };
        self.nodes.insert(lo, lo_entry);
        self.nodes.insert(hi, hi_entry);
        proof {
            assert(self.nodes@.len() == pre.len());
            assert forall|j: int| 0 <= j < pre.len() implies (#[trigger] self.nodes@[j].0)
                == pre[j].0 by {
                if j != ai as int && j != bi as int {
                    assert(self.nodes@[j] == pre[j]);
                }
            }
            assert(self.edges@.take(old(self).edges@.len() as int) =~= old(self).edges@);
        }
        true
    }

    /// Forget every edge between the two nodes, whichever order they are
    /// named in; everything else stays as it was. A repeated call changes
    /// nothing more.
    pub fn remove_edge(&mut self, lhs: usize, rhs: usize)
        ensures
            final(self).index == old(self).index,
            final(self).nodes@ == old(self).nodes@,
            final(self).edges@ == edges_without(old(self).edges@, sort_args(lhs, rhs)),
    {
        let (a, b) = sort_args_exec(lhs, rhs);
        let ghost key = sort_args(lhs, rhs);
        let ghost all = self.edges@;
        let mut kept: Vec<((usize, usize), M)> = Vec::new();
        proof {
            assert(edges_without(all, key) =~= kept@ + edges_without(self.edges@, key));
        }
        while self.edges.len() > 0
            invariant
                self.index == old(self).index,
                self.nodes@ == old(self).nodes@,
                key == sort_args(lhs, rhs),
                (a, b) == key,
                edges_without(all, key) == kept@ + edges_without(self.edges@, key),
            decreases self.edges@.len(),
        {
            let ghost before = self.edges@;
            let e = self.edges.remove(0);
            proof {
                assert(before[0] == e);
                assert(self.edges@ =~= before.skip(1));
            }
            if !(e.0 .0 == a && e.0 .1 == b) {
                proof {
                    assert(e.0 != key);
                    assert(edges_without(before, key) == seq![e] + edges_without(
                        self.edges@,
                        key,
                    ));
                }
                kept.push(e);
                proof {
                    assert(kept@ + edges_without(self.edges@, key) =~= edges_without(all, key));
                }
            } else {
                proof {
                    assert(e.0 == key);
                }
            }
        }
        proof {
            assert(edges_without(self.edges@, key) =~= Seq::<((usize, usize), M)>::empty());
            assert(kept@ =~= edges_without(all, key));
        }
        self.edges = kept;
    }
}

/// The ordered form of an index pair: larger first.
pub open spec fn sort_args(lhs: usize, rhs: usize) -> (usize, usize) {
    if lhs > rhs {
        (lhs, rhs)
    } else {
        (rhs, lhs)
    }
}

/// Order an index pair, larger first.
fn sort_args_exec(lhs: usize, rhs: usize) -> (r: (usize, usize))
    ensures
        r == sort_args(lhs, rhs),
{
    if lhs > rhs {
        (lhs, rhs)
    } else {
        (rhs, lhs)
    }
}

/// Find the position of a node index in the table.
fn find_node<N>(nodes: &Vec<(usize, N)>, id: usize) -> (r: Option<usize>)
    ensures
        match r {
            Some(i) => i < nodes@.len() && nodes@[i as int].0 == id,
            None => !has_node(nodes@, id),
        },
{
    let mut i: usize = 0;
    let n = nodes.len();
    while i < n
        invariant
            n == nodes@.len(),
            i <= n,
            forall|j: int| 0 <= j < i ==> (#[trigger] nodes@[j].0) != id,
        decreases n - i,
    {
        if nodes[i].0 == id {
            return Some(i);
        }
        i += 1;
    }
    None
}

} // verus!
