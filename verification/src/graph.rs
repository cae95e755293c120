//! Undirected multigraph over two independently compacting arrays.
//!
//! Nodes and edges are appended at the end of their arrays and removed by
//! swap-with-last-then-pop, so removal is O(1) but may relocate one other
//! element.  Every mutation that can relocate an element reports it, so the
//! caller can repair whatever external reference pointed at the old
//! position; the arrays themselves never leave a hole.

use vstd::prelude::*;

verus! {

/// One edge: the array positions of its two incident nodes, plus a
/// caller-supplied payload.  The payload must carry enough identity for
/// the edge to describe itself after a relocation.
#[derive(Copy, Clone, Debug)]
pub struct Edge<E> {
    /// Position of the first incident node.
    pub node1: u32,
    /// Position of the second incident node.
    pub node2: u32,
    /// Caller-supplied payload.
    pub weight: E,
}

/// Graph on compacting node and edge arrays.
#[derive(Clone, Debug)]
pub struct InteractionGraph<N, E> {
    /// Node payloads, indexed by node position.
    pub nodes: Vec<N>,
    /// Edges, indexed by edge position.
    pub edges: Vec<Edge<E>>,
}

/// Where an endpoint points after the node previously at `last` has been
/// relocated to `id`.
pub open spec fn relink(e: u32, last: u32, id: u32) -> u32 {
    if e == last {
        id
    } else {
        e
    }
}

impl<N: Copy, E: Copy> InteractionGraph<N, E> {
    /// Well-formedness: node positions fit strictly below the `u32`
    /// sentinel and every edge endpoint is a real node position.
    pub open spec fn wf(self) -> bool {
        &&& self.nodes@.len() <= 0xffff_ffff
        &&& forall|k: int|
            0 <= k < self.edges@.len() ==> (#[trigger] self.edges@[k]).node1 < self.nodes@.len()
                && self.edges@[k].node2 < self.nodes@.len()
    }

    /// Edge `k` is incident to node position `n`.
    pub open spec fn edge_touches(self, k: int, n: u32) -> bool {
        self.edges@[k].node1 == n || self.edges@[k].node2 == n
    }

    /// The incident triples `(node payload, node payload, edge payload)`
    /// collected from the first `n` edges, in edge order.
    pub open spec fn incident_upto(self, id: u32, n: int) -> Seq<(N, N, E)>
        decreases n,
    {
        if n <= 0 {
            Seq::empty()
        } else {
            let prev = self.incident_upto(id, n - 1);
            let e = self.edges@[n - 1];
            if e.node1 == id || e.node2 == id {
                prev.push((self.nodes@[e.node1 as int], self.nodes@[e.node2 as int], e.weight))
            } else {
                prev
            }
        }
    }

    /// Distinguishes a real node position from the sentinel a body carries
    /// before its first joint.
    pub fn is_graph_index_valid(index: u32) -> (r: bool)
        ensures
            r == (index != crate::INVALID_U32),
    {
        index != crate::INVALID_U32
    }

    /// Creates an empty graph.
    pub fn new() -> (r: InteractionGraph<N, E>)
        ensures
            r.wf(),
            r.nodes@.len() == 0,
            r.edges@.len() == 0,
    {
        InteractionGraph { nodes: Vec::new(), edges: Vec::new() }
    }

    /// Appends a node and returns its position.
    pub fn add_node(&mut self, weight: N) -> (r: u32)
        requires
            old(self).wf(),
            old(self).nodes@.len() < 0xffff_ffff,
        ensures
            final(self).wf(),
            r == old(self).nodes@.len(),
            r < 0xffff_ffff,
            final(self).nodes@ == old(self).nodes@.push(weight),
            final(self).edges == old(self).edges,
    {
        let r = self.nodes.len() as u32;
        self.nodes.push(weight);
        r
    }

    /// Appends an edge between two existing nodes and returns its position.
    pub fn add_edge(&mut self, a: u32, b: u32, weight: E) -> (r: usize)
        requires
            old(self).wf(),
            a < old(self).nodes@.len(),
            b < old(self).nodes@.len(),
        ensures
            final(self).wf(),
            r == old(self).edges@.len(),
            final(self).edges@ == old(self).edges@.push(Edge { node1: a, node2: b, weight }),
            final(self).nodes == old(self).nodes,
    {
        let r = self.edges.len();
        self.edges.push(Edge { node1: a, node2: b, weight });
        r
    }

    /// The payload of the node at a position.
    pub fn node_weight(&self, id: u32) -> (r: Option<&N>)
        ensures
            match r {
                Some(w) => id < self.nodes@.len() && *w == self.nodes@[id as int],
                None => id >= self.nodes@.len(),
            },
    {
        if (id as usize) < self.nodes.len() {
            Some(&self.nodes[id as usize])
        } else {
            None
        }
    }

    /// The payload of the edge at a position.
    pub fn edge_weight(&self, id: usize) -> (r: Option<&E>)
        ensures
            match r {
                Some(w) => id < self.edges@.len() && *w == self.edges@[id as int].weight,
                None => id >= self.edges@.len(),
            },
    {
        if id < self.edges.len() {
            Some(&self.edges[id].weight)
        } else {
            None
        }
    }

    /// The two incident node positions of the edge at a position.
    pub fn edge_endpoints(&self, id: usize) -> (r: Option<(u32, u32)>)
        ensures
            match r {
                Some(p) => id < self.edges@.len() && p.0 == self.edges@[id as int].node1 && p.1
                    == self.edges@[id as int].node2,
                None => id >= self.edges@.len(),
            },
    {
        if id < self.edges.len() {
            Some((self.edges[id].node1, self.edges[id].node2))
        } else {
            None
        }
    }

    /// Removes the edge at a position by swap-with-last-then-pop and
    /// returns its payload.  If another edge occupied the last position it
    /// now lives at `id`; the caller must observe it there and repair any
    /// external reference to its old position.
    pub fn remove_edge(&mut self, id: usize) -> (r: Option<E>)
        requires
            old(self).wf(),
        ensures
            final(self).wf(),
            id < old(self).edges@.len() ==> {
                &&& r == Some(old(self).edges@[id as int].weight)
                &&& final(self).edges@ == old(self).edges@.update(
                    id as int,
                    old(self).edges@.last(),
                ).drop_last()
            },
            id >= old(self).edges@.len() ==> r is None && *final(self) == *old(self),
            final(self).nodes == old(self).nodes,
    {
        if id < self.edges.len() {
            let e = self.edges.swap_remove(id);
            Some(e.weight)
        } else {
            None
        }
    }

    /// Removes the node at a position by swap-with-last-then-pop, after the
    /// caller has cleared every edge incident to it.  Edges incident to the
    /// relocated node are re-pointed at its new position; the relocated
    /// node's payload is returned so the caller can repair the external
    /// back-reference that still names the old position.
    pub fn remove_node(&mut self, id: u32) -> (r: Option<N>)
        requires
            old(self).wf(),
            id < old(self).nodes@.len(),
            forall|k: int| 0 <= k < old(self).edges@.len() ==> !old(self).edge_touches(k, id),
        ensures
            final(self).wf(),
            final(self).nodes@ == old(self).nodes@.update(
                id as int,
                old(self).nodes@.last(),
            ).drop_last(),
            final(self).edges@.len() == old(self).edges@.len(),
            forall|k: int|
                0 <= k < old(self).edges@.len() ==> {
                    let last = (old(self).nodes@.len() - 1) as u32;
                    &&& (#[trigger] final(self).edges@[k]).weight == old(self).edges@[k].weight
                    &&& final(self).edges@[k].node1 == relink(old(self).edges@[k].node1, last, id)
                    &&& final(self).edges@[k].node2 == relink(old(self).edges@[k].node2, last, id)
                },
            r == if id == old(self).nodes@.len() - 1 {
                None
            } else {
                Some(old(self).nodes@.last())
            },
    {
        let last_usize = self.nodes.len() - 1;
        let last = last_usize as u32;
        let ghost last_spec = last;
        let mut k: usize = 0;
        while k < self.edges.len()
            invariant
                0 <= k <= self.edges@.len(),
                self.edges@.len() == old(self).edges@.len(),
                self.nodes == old(self).nodes,
                id < old(self).nodes@.len(),
                last_spec as int == old(self).nodes@.len() - 1,
                last == last_spec,
                forall|j: int|
                    0 <= j < k ==> (#[trigger] self.edges@[j]).weight == old(self).edges@[j].weight
                        && self.edges@[j].node1 == relink(old(self).edges@[j].node1, last_spec, id)
                        && self.edges@[j].node2 == relink(old(self).edges@[j].node2, last_spec, id),
                forall|j: int|
                    k <= j < self.edges@.len() ==> #[trigger] self.edges@[j] == old(
                        self,
                    ).edges@[j],
            decreases self.edges@.len() - k,
        {
            let e = &mut self.edges[k];
            if e.node1 == last {
                e.node1 = id;
            }
            if e.node2 == last {
                e.node2 = id;
            }
            k += 1;
        }
        self.nodes.swap_remove(id as usize);
        proof {
            assert forall|k: int|
                0 <= k < self.edges@.len() implies (#[trigger] self.edges@[k]).node1
                < self.nodes@.len() && self.edges@[k].node2 < self.nodes@.len() by {
                assert(!old(self).edge_touches(k, id));
                assert(old(self).edges@[k].node1 < old(self).nodes@.len());
            }
        }
        if id as usize == last_usize {
            None
        } else {
            let moved = self.nodes[id as usize];
            Some(moved)
        }
    }

    /// All edges incident to the node at `id`, reported as
    /// `(payload of one endpoint, payload of the other, edge payload)` in
    /// edge order.  This reads the current state; it must not be
    /// interleaved with structural mutation of the graph.
    pub fn interactions_with(&self, id: u32) -> (r: Vec<(N, N, E)>)
        requires
            self.wf(),
        ensures
            r@ == self.incident_upto(id, self.edges@.len() as int),
    {
        let mut out: Vec<(N, N, E)> = Vec::new();
        let mut k: usize = 0;
        while k < self.edges.len()
            invariant
                self.wf(),
                0 <= k <= self.edges@.len(),
                out@ == self.incident_upto(id, k as int),
            decreases self.edges@.len() - k,
        {
            let e = &self.edges[k];
            if e.node1 == id || e.node2 == id {
                out.push((self.nodes[e.node1 as usize], self.nodes[e.node2 as usize], e.weight));
            }
            k += 1;
        }
        out
    }
}

} // verus!
