//! The joint set: stable joint identities over a compacting joint graph.
//!
//! A [`JointSet`] owns an arena mapping each [`JointHandle`] to the current
//! position of the joint's edge in the interaction graph, and the graph
//! itself.  It is the only component that knows why nodes and edges exist
//! (bodies and joints) and the only one allowed to mutate them, so it can
//! keep three things consistent through every insertion and removal:
//!
//! * arena entry `handle -> edge position` and the edge's own recorded
//!   handle agree, in both directions, after every single call;
//! * each body's cached graph-node position agrees with the node array;
//! * removed handles never resolve again, even after slot reuse.

use crate::arena::Arena;
use crate::arena::ArenaIndex;
use crate::body::BodyComponents;
use crate::body::RigidBodyActivation;
use crate::body::BodySet;
use crate::body::IslandManager;
use crate::body::RigidBodyHandle;
use crate::graph::Edge;
use crate::graph::InteractionGraph;
use vstd::prelude::*;

verus! {

broadcast use vstd::seq_lib::group_seq_properties;

/// The unique identifier of a joint added to the joint set.
#[derive(Copy, Clone, Debug, Hash, PartialEq, Eq, Structural)]
pub struct JointHandle(pub ArenaIndex);

/// The always-invalid joint handle, as a spec value.
pub open spec fn invalid_joint_handle() -> JointHandle {
    JointHandle(ArenaIndex { index: 0xffff_ffffu32, generation: 0xffff_ffffu32 })
}

impl JointHandle {
    /// Converts this handle into its (index, generation) components.
    pub fn into_raw_parts(self) -> (r: (u32, u32))
        ensures
            r.0 == self.0.index,
            r.1 == self.0.generation,
    {
        (self.0.index, self.0.generation)
    }

    /// Reconstructs a handle from its (index, generation) components.
    pub fn from_raw_parts(id: u32, generation: u32) -> (r: Self)
        ensures
            r == JointHandle(ArenaIndex { index: id, generation }),
    {
        JointHandle(ArenaIndex { index: id, generation })
    }

    /// An always-invalid joint handle: both components sit at the
    /// out-of-range sentinel, which no real allocation ever uses.
    pub fn invalid() -> (r: Self)
        ensures
            r == invalid_joint_handle(),
    {
        JointHandle(ArenaIndex { index: crate::INVALID_U32, generation: crate::INVALID_U32 })
    }
}

/// Which kind of constraint a joint applies.  The numeric solver
/// parameters of each kind belong to the solver, which is out of scope
/// here; this core only routes the value between insertion and solving.
#[derive(Copy, Clone, Debug, PartialEq, Eq, Structural)]
pub enum JointParams {
    /// Ball-and-socket constraint.
    Ball,
    /// All relative movement removed.
    Fixed,
    /// Sliding along one axis.
    Prismatic,
    /// Rotation about one axis.
    Revolute,
}

/// A joint: the edge payload of the interaction graph.  It carries its own
/// handle so that the edge can still be identified after the edge array
/// compacts and the edge changes position.
#[derive(Copy, Clone, Debug, PartialEq, Eq, Structural)]
pub struct Joint {
    /// First constrained body.
    pub body1: RigidBodyHandle,
    /// Second constrained body.
    pub body2: RigidBodyHandle,
    /// The external identity of this joint.
    pub handle: JointHandle,
    /// Kind of constraint.
    pub params: JointParams,
}

/// Position of a joint's edge in the graph's edge array.  Valid only until
/// the next structural mutation.
pub type JointIndex = usize;

/// The joint names the given body as one of its endpoints.
pub open spec fn joint_touches(j: Joint, b: RigidBodyHandle) -> bool {
    j.body1 == b || j.body2 == b
}

/// A joint qualifies for solving when at least one endpoint is dynamic
/// and no dynamic endpoint is currently sleeping.
pub open spec fn joint_is_active(j: Joint, bodies: BodySet) -> bool {
    let c1 = bodies@[j.body1.0 as int];
    let c2 = bodies@[j.body2.0 as int];
    &&& (c1.body_type.spec_is_dynamic() || c2.body_type.spec_is_dynamic())
    &&& (!c1.body_type.spec_is_dynamic() || !c1.activation.sleeping)
    &&& (!c2.body_type.spec_is_dynamic() || !c2.activation.sleeping)
}

/// The island a qualifying joint is filed under: the island of a dynamic
/// endpoint, preferring the second body's island when the first body is
/// not dynamic (a joint against a static or kinematic anchor belongs to
/// its dynamic partner's island).
pub open spec fn joint_island(j: Joint, bodies: BodySet) -> int {
    if !bodies@[j.body1.0 as int].body_type.spec_is_dynamic() {
        bodies@[j.body2.0 as int].ids.active_island_id as int
    } else {
        bodies@[j.body1.0 as int].ids.active_island_id as int
    }
}

/// The positions, among the first `n` edges and in increasing order, of
/// the qualifying joints filed under island `isl`.
pub open spec fn selected_upto(s: JointSet, bodies: BodySet, isl: int, n: int) -> Seq<JointIndex>
    decreases n,
{
    if n <= 0 {
        Seq::empty()
    } else {
        let prev = selected_upto(s, bodies, isl, n - 1);
        let j = s.joint_graph.edges@[n - 1].weight;
        if joint_is_active(j, bodies) && joint_island(j, bodies) == isl {
            prev.push((n - 1) as JointIndex)
        } else {
            prev
        }
    }
}

/// A body with its sleep flag cleared, all other components kept.
pub open spec fn woken(c: BodyComponents) -> BodyComponents {
    BodyComponents { activation: RigidBodyActivation { sleeping: false }, ..c }
}

/// The body storage after waking body `b1`, then body `b2`.
pub open spec fn wake_two(bs: Seq<BodyComponents>, b1: int, b2: int) -> Seq<BodyComponents> {
    let s1 = bs.update(b1, woken(bs[b1]));
    s1.update(b2, woken(s1[b2]))
}

/// A set of joints between rigid bodies.
pub struct JointSet {
    /// Maps each joint handle to the current position of its edge.
    pub joint_ids: Arena<JointIndex>,
    /// Nodes are bodies, edges are joints.
    pub joint_graph: InteractionGraph<RigidBodyHandle, Joint>,
}

impl View for JointSet {
    type V = Map<JointHandle, Joint>;

    /// The set viewed as the map from live handles to their joints.
    open spec fn view(&self) -> Map<JointHandle, Joint> {
        Map::new(|h: JointHandle| self.live(h), |h: JointHandle| self.joint_of(h))
    }
}

impl JointSet {
    /// The handle currently resolves to a joint.
    pub open spec fn live(self, h: JointHandle) -> bool {
        self.joint_ids.is_live(h.0)
    }

    /// The edge position a live handle resolves to.
    pub open spec fn edge_of(self, h: JointHandle) -> int {
        self.joint_ids.value_of(h.0) as int
    }

    /// The joint a live handle resolves to.
    pub open spec fn joint_of(self, h: JointHandle) -> Joint {
        self.joint_graph.edges@[self.edge_of(h)].weight
    }

    /// Number of joints in the set.
    pub open spec fn num_joints(self) -> nat {
        self.joint_graph.edges@.len()
    }

    /// The core invariant.  Arena and graph are each well-formed; the
    /// arena and the handles recorded on the edges form a bijection
    /// between live handles and edge positions; and each edge's endpoint
    /// nodes carry exactly the two bodies its joint names.
    pub open spec fn wf(self) -> bool {
        &&& self.joint_ids.wf()
        &&& self.joint_graph.wf()
        &&& forall|h: JointHandle|
            #[trigger] self.live(h) ==> 0 <= self.edge_of(h) < self.joint_graph.edges@.len()
                && self.joint_graph.edges@[self.edge_of(h)].weight.handle == h
        &&& forall|k: int|
            0 <= k < self.joint_graph.edges@.len() ==> {
                let e = #[trigger] self.joint_graph.edges@[k];
                &&& self.live(e.weight.handle)
                &&& self.edge_of(e.weight.handle) == k
                &&& self.joint_graph.nodes@[e.node1 as int] == e.weight.body1
                &&& self.joint_graph.nodes@[e.node2 as int] == e.weight.body2
            }
    }

    /// The cross-structure invariant with the body storage: graph nodes
    /// and bodies-with-a-cached-position are in bijection, each node's
    /// body caching exactly that node's position, and every body either
    /// caches the sentinel or its own node.
    pub open spec fn bodies_wf(self, bodies: BodySet) -> bool {
        &&& forall|n: int|
            0 <= n < self.joint_graph.nodes@.len() ==> {
                let b = (#[trigger] self.joint_graph.nodes@[n]).0;
                &&& b < bodies@.len()
                &&& bodies@[b as int].ids.joint_graph_index == n
            }
        &&& forall|b: int|
            0 <= b < bodies@.len() && (#[trigger] bodies@[b]).ids.joint_graph_index
                != crate::INVALID_U32 ==> {
                let n = bodies@[b].ids.joint_graph_index;
                &&& n < self.joint_graph.nodes@.len()
                &&& self.joint_graph.nodes@[n as int].0 == b
            }
    }

    /// Creates a new empty set of joints.
    pub fn new() -> (r: Self)
        ensures
            r.wf(),
            r@ == Map::<JointHandle, Joint>::empty(),
            r.num_joints() == 0,
            r.joint_graph.nodes@.len() == 0,
            r.joint_ids.slots@.len() == 0,
    {
        let r = JointSet { joint_ids: Arena::new(), joint_graph: InteractionGraph::new() };
        proof {
            assert(r@ =~= Map::<JointHandle, Joint>::empty());
        }
        r
    }

    /// The number of joints in this set.
    pub fn len(&self) -> (r: usize)
        ensures
            r == self.num_joints(),
    {
        self.joint_graph.edges.len()
    }

    /// `true` if there are no joints in this set.
    pub fn is_empty(&self) -> (r: bool)
        ensures
            r == (self.num_joints() == 0),
    {
        self.joint_graph.edges.is_empty()
    }

    /// Retrieve the joint graph where edges are joints and nodes are
    /// rigid body handles.
    pub fn joint_graph(&self) -> (r: &InteractionGraph<RigidBodyHandle, Joint>)
        ensures
            *r == self.joint_graph,
    {
        &self.joint_graph
    }

    /// Is the given joint handle valid?
    pub fn contains(&self, handle: JointHandle) -> (r: bool)
        ensures
            r == self@.contains_key(handle),
    {
        self.joint_ids.contains(handle.0)
    }

    /// Gets the joint with the given handle.
    pub fn get(&self, handle: JointHandle) -> (r: Option<&Joint>)
        requires
            self.wf(),
        ensures
            match r {
                Some(j) => self@.contains_key(handle) && *j == self@[handle],
                None => !self@.contains_key(handle),
            },
    {
        match self.joint_ids.get(handle.0) {
            Some(id) => self.joint_graph.edge_weight(*id),
            None => None,
        }
    }

    /// Gets a mutable reference to the joint with the given handle.  The
    /// identity fields of the joint (its bodies and its own handle) must
    /// be left as they are: the final clause records that the invariant
    /// survives exactly when the borrower did so.
    pub fn get_mut(&mut self, handle: JointHandle) -> (r: Option<&mut Joint>)
        requires
            old(self).wf(),
        ensures
            match r {
                Some(j) => {
                    &&& old(self)@.contains_key(handle)
                    &&& *j == old(self)@[handle]
                    &&& final(self).joint_ids == old(self).joint_ids
                    &&& final(self).joint_graph.nodes == old(self).joint_graph.nodes
                    &&& final(self).joint_graph.edges@ == old(self).joint_graph.edges@.update(
                        old(self).edge_of(handle),
                        Edge {
                            weight: *final(j),
                            ..old(self).joint_graph.edges@[old(self).edge_of(handle)]
                        },
                    )
                    &&& old(self).edge_of(handle) < old(self).joint_graph.edges@.len()
                },
                None => !old(self)@.contains_key(handle) && *final(self) == *old(self),
            },
    {
        match self.joint_ids.get(handle.0) {
            Some(id) => {
                let id = *id;
                proof {
                    assert(self.live(handle));
                    assert(self@.contains_key(handle));
                }
                if id < self.joint_graph.edges.len() {
                    let e = &mut self.joint_graph.edges[id];
                    Some(&mut e.weight)
                } else {
                    None
                }
            },
            None => None,
        }
    }

    /// Gets the joint at slot position `i` together with the handle that
    /// currently owns the slot.
    ///
    /// This bypasses the generation check that protects handles from the
    /// ABA hazard: position `i` is recycled between a removal and a later
    /// insertion, so the entry found here may be unrelated to any entry
    /// previously seen at the same position.  Prefer `get` with a full
    /// handle wherever one is known.
    pub fn get_unknown_gen(&self, i: u32) -> (r: Option<(&Joint, JointHandle)>)
        requires
            self.wf(),
        ensures
            match r {
                Some(p) => {
                    &&& self.joint_ids.occupied_at(i)
                    &&& p.1 == JointHandle(self.joint_ids.handle_at(i))
                    &&& self@.contains_key(p.1)
                    &&& *p.0 == self@[p.1]
                },
                None => !self.joint_ids.occupied_at(i),
            },
    {
        match self.joint_ids.get_unknown_gen(i) {
            Some((id, h)) => {
                proof {
                    assert(self.live(JointHandle(h)));
                    assert(self@.contains_key(JointHandle(h)));
                }
                match self.joint_graph.edge_weight(*id) {
                    Some(j) => Some((j, JointHandle(h))),
                    None => None,
                }
            },
            None => None,
        }
    }


    /// Mutable variant of `get_unknown_gen`: the joint at slot position
    /// `i` together with the handle that currently owns the slot.  The
    /// same ABA caution applies, and as with `get_mut` the joint's
    /// identity fields must be left as they are.
    pub fn get_unknown_gen_mut(&mut self, i: u32) -> (r: Option<(&mut Joint, JointHandle)>)
        requires
            old(self).wf(),
        ensures
            match r {
                Some(p) => {
                    &&& old(self).joint_ids.occupied_at(i)
                    &&& p.1 == JointHandle(old(self).joint_ids.handle_at(i))
                    &&& old(self)@.contains_key(p.1)
                    &&& *p.0 == old(self)@[p.1]
                    &&& final(self).joint_ids == old(self).joint_ids
                    &&& final(self).joint_graph.nodes == old(self).joint_graph.nodes
                    &&& final(self).joint_graph.edges@ == old(self).joint_graph.edges@.update(
                        old(self).edge_of(p.1),
                        Edge {
                            weight: *final(p.0),
                            ..old(self).joint_graph.edges@[old(self).edge_of(p.1)]
                        },
                    )
                },
                None => !old(self).joint_ids.occupied_at(i) && *final(self) == *old(self),
            },
    {
        match self.joint_ids.get_unknown_gen(i) {
            Some((id, hix)) => {
                let id = *id;
                let handle = JointHandle(hix);
                proof {
                    assert(self.live(handle));
                    assert(self@.contains_key(handle));
                }
                if id < self.joint_graph.edges.len() {
                    let e = &mut self.joint_graph.edges[id];
                    Some((&mut e.weight, handle))
                } else {
                    None
                }
            },
            None => None,
        }
    }

    /// All joints of the set with their handles, in edge order.
    pub fn iter(&self) -> (r: Vec<(JointHandle, Joint)>)
        ensures
            r@.len() == self.num_joints(),
            forall|k: int|
                0 <= k < r@.len() ==> #[trigger] r@[k] == (
                    self.joint_graph.edges@[k].weight.handle,
                    self.joint_graph.edges@[k].weight,
                ),
    {
        let mut out: Vec<(JointHandle, Joint)> = Vec::new();
        let mut k: usize = 0;
        while k < self.joint_graph.edges.len()
            invariant
                0 <= k <= self.joint_graph.edges@.len(),
                out@.len() == k,
                forall|j: int|
                    0 <= j < k ==> #[trigger] out@[j] == (
                        self.joint_graph.edges@[j].weight.handle,
                        self.joint_graph.edges@[j].weight,
                    ),
            decreases self.joint_graph.edges@.len() - k,
        {
            let w = self.joint_graph.edges[k].weight;
            out.push((w.handle, w));
            k += 1;
        }
        out
    }

    /// Both endpoint bodies of every joint are present in the given body
    /// storage.
    pub open spec fn joints_cover(self, bodies: BodySet) -> bool {
        forall|k: int|
            0 <= k < self.joint_graph.edges@.len() ==> {
                let e = #[trigger] self.joint_graph.edges@[k];
                e.weight.body1.0 < bodies@.len() && e.weight.body2.0 < bodies@.len()
            }
    }

    /// Removes a live joint: frees its arena entry, removes its edge by
    /// swap-remove, and repairs the arena entry of whichever edge the
    /// compaction relocated into the freed position.
    fn unlink(&mut self, handle: JointHandle) -> (j: Joint)
        requires
            old(self).wf(),
            old(self)@.contains_key(handle),
        ensures
            final(self).wf(),
            j == old(self)@[handle],
            final(self)@ == old(self)@.remove(handle),
            final(self).joint_graph.nodes == old(self).joint_graph.nodes,
            final(self).num_joints() == old(self).num_joints() - 1,
            forall|k: int|
                0 <= k < final(self).joint_graph.edges@.len() ==> exists|k0: int|
                    0 <= k0 < old(self).joint_graph.edges@.len()
                        && #[trigger] final(self).joint_graph.edges@[k] == old(self).joint_graph.edges@[k0],
    {
        proof {
            assert(self.live(handle));
        }
        let id_opt = self.joint_ids.remove(handle.0);
        let id = id_opt.unwrap();
        let removed = self.joint_graph.remove_edge(id);
        let j = removed.unwrap();
        let ghost s0 = *old(self);
        let ghost last = s0.joint_graph.edges@.len() - 1;
        if id < self.joint_graph.edges.len() {
            let moved_handle = self.joint_graph.edges[id].weight.handle;
            proof {
                assert(s0.joint_graph.edges@[last].weight.handle == moved_handle);
                assert(s0.live(moved_handle) && s0.edge_of(moved_handle) == last);
                assert(moved_handle != handle);
                assert(moved_handle.0.index != handle.0.index);
                assert(self.joint_ids.is_live(moved_handle.0));
            }
            self.joint_ids.set_value(moved_handle.0, id);
            proof {
                Self::lemma_unlink_restores(s0, *self, handle, id as int, Some(moved_handle));
            }
            j
        } else {
            proof {
                Self::lemma_unlink_restores(s0, *self, handle, id as int, None);
            }
            j
        }
    }

    /// After removing the arena entry for `handle`, swap-removing its edge
    /// at position `id`, and (when the last edge was relocated) repointing
    /// that edge's arena entry at `id`, the whole invariant holds again
    /// and exactly `handle` has disappeared from the set.
    proof fn lemma_unlink_restores(
        pre: JointSet,
        post: JointSet,
        handle: JointHandle,
        id: int,
        moved: Option<JointHandle>,
    )
        requires
            pre.wf(),
            pre.live(handle),
            pre.edge_of(handle) == id,
            post.joint_graph.nodes == pre.joint_graph.nodes,
            post.joint_graph.edges@ == pre.joint_graph.edges@.update(
                id,
                pre.joint_graph.edges@.last(),
            ).drop_last(),
            match moved {
                Some(m) => {
                    &&& id < pre.joint_graph.edges@.len() - 1
                    &&& m == pre.joint_graph.edges@[pre.joint_graph.edges@.len() - 1].weight.handle
                    &&& post.joint_ids@ == pre.joint_ids@.remove(handle.0).insert(m.0, id as usize)
                    &&& post.joint_ids.wf()
                    &&& forall|h: ArenaIndex|
                        #[trigger] post.joint_ids.is_live(h) <==> (pre.joint_ids.is_live(h) && h
                            != handle.0)
                },
                None => {
                    &&& id == pre.joint_graph.edges@.len() - 1
                    &&& post.joint_ids@ == pre.joint_ids@.remove(handle.0)
                    &&& post.joint_ids.wf()
                    &&& forall|h: ArenaIndex|
                        #[trigger] post.joint_ids.is_live(h) <==> (pre.joint_ids.is_live(h) && h
                            != handle.0)
                },
            },
        ensures
            post.wf(),
            post@ == pre@.remove(handle),
    {
        assert forall|h: JointHandle| #[trigger] post.live(h) implies 0 <= post.edge_of(h)
            < post.joint_graph.edges@.len() && post.joint_graph.edges@[post.edge_of(
            h,
        )].weight.handle == h && post.joint_of(h) == pre.joint_of(h) by {
            assert(pre.live(h));
            assert(h != handle);
            let k0 = pre.edge_of(h);
            assert(k0 != id);
            match moved {
                Some(m) => {
                    if h == m {
                        assert(post.joint_ids@[h.0] == id as usize);
                        assert(post.joint_ids@[h.0] == post.joint_ids.value_of(h.0));
                        assert(post.edge_of(h) == id);
                    } else {
                        assert(k0 != pre.joint_graph.edges@.len() - 1);
                        assert(post.joint_ids@[h.0] == pre.joint_ids@[h.0]);
                        assert(pre.joint_ids@[h.0] == pre.joint_ids.value_of(h.0));
                        assert(post.joint_ids@[h.0] == post.joint_ids.value_of(h.0));
                        assert(post.edge_of(h) == k0);
                    }
                },
                None => {
                    assert(k0 != pre.joint_graph.edges@.len() - 1);
                    assert(post.joint_ids@[h.0] == pre.joint_ids@[h.0]);
                    assert(pre.joint_ids@[h.0] == pre.joint_ids.value_of(h.0));
                    assert(post.joint_ids@[h.0] == post.joint_ids.value_of(h.0));
                    assert(post.edge_of(h) == k0);
                },
            }
        }
        assert forall|k: int| 0 <= k < post.joint_graph.edges@.len() implies {
            let e = #[trigger] post.joint_graph.edges@[k];
            &&& post.live(e.weight.handle)
            &&& post.edge_of(e.weight.handle) == k
            &&& post.joint_graph.nodes@[e.node1 as int] == e.weight.body1
            &&& post.joint_graph.nodes@[e.node2 as int] == e.weight.body2
        } by {
            let last = pre.joint_graph.edges@.len() - 1;
            if k == id {
                let e = pre.joint_graph.edges@[last];
                let h = e.weight.handle;
                assert(post.joint_graph.edges@[k] == e);
                assert(pre.live(h) && pre.edge_of(h) == last);
                assert(h != handle);
                assert(h.0 != handle.0);
                assert(post.live(h));
                let m = moved->Some_0;
                assert(h == m);
                assert(post.joint_ids@[h.0] == id as usize);
                assert(post.joint_ids@[h.0] == post.joint_ids.value_of(h.0));
                assert(post.edge_of(h) == k);
            } else {
                let e = pre.joint_graph.edges@[k];
                let h = e.weight.handle;
                assert(post.joint_graph.edges@[k] == e);
                assert(pre.live(h) && pre.edge_of(h) == k);
                assert(h != handle);
                assert(h.0 != handle.0);
                assert(post.live(h));
                match moved {
                    Some(m) => {
                        assert(h != m);
                        assert(h.0 != m.0);
                        assert(post.joint_ids@[h.0] == pre.joint_ids@[h.0]);
                    },
                    None => {
                        assert(post.joint_ids@[h.0] == pre.joint_ids@[h.0]);
                    },
                }
                assert(pre.joint_ids@[h.0] == pre.joint_ids.value_of(h.0));
                assert(post.joint_ids@[h.0] == post.joint_ids.value_of(h.0));
                assert(post.edge_of(h) == k);
            }
        }
        assert(post@ =~= pre@.remove(handle));
    }



    /// The set of joints as a mutable slice of graph edges, for the
    /// solver's in-place scratch passes; the same identity-field caution
    /// as `joints_vec_mut` applies.
    pub fn joints_mut(&mut self) -> (r: &mut [Edge<Joint>])
        ensures
            r@ == old(self).joint_graph.edges@,
            final(self).joint_ids == old(self).joint_ids,
            final(self).joint_graph.nodes == old(self).joint_graph.nodes,
            final(self).joint_graph.edges@ == final(r)@,
    {
        self.joint_graph.edges.as_mut_slice()
    }

    /// Direct mutable access to the edge array, for the solver's in-place
    /// scratch passes.  As with `get_mut`, each joint's identity fields
    /// must be left as they are; `laws::lemma_weight_update_preserves_wf`
    /// records that such an update keeps the set consistent.
    pub fn joints_vec_mut(&mut self) -> (r: &mut Vec<Edge<Joint>>)
        ensures
            *r == old(self).joint_graph.edges,
            final(self).joint_ids == old(self).joint_ids,
            final(self).joint_graph.nodes == old(self).joint_graph.nodes,
            final(self).joint_graph.edges == *final(r),
    {
        &mut self.joint_graph.edges
    }

    /// Removes a joint from this set.
    ///
    /// If `wake_up` is set to `true`, then the bodies attached to this
    /// joint will be automatically woken up, so a now-unconstrained
    /// sleeping body is not left behind in a stale classification.  A
    /// stale or already-removed handle removes nothing and returns `None`.
    pub fn remove(
        &mut self,
        handle: JointHandle,
        islands: &mut IslandManager,
        bodies: &mut BodySet,
        wake_up: bool,
    ) -> (r: Option<Joint>)
        requires
            old(self).wf(),
            old(self).joints_cover(*old(bodies)),
        ensures
            final(self).wf(),
            *final(islands) == *old(islands),
            final(self).joint_graph.nodes == old(self).joint_graph.nodes,
            old(self)@.contains_key(handle) ==> {
                &&& r == Some(old(self)@[handle])
                &&& final(self)@ == old(self)@.remove(handle)
                &&& final(self).num_joints() == old(self).num_joints() - 1
                &&& (wake_up ==> final(bodies)@ == wake_two(
                    old(bodies)@,
                    old(self)@[handle].body1.0 as int,
                    old(self)@[handle].body2.0 as int,
                ))
                &&& (!wake_up ==> *final(bodies) == *old(bodies))
            },
            !old(self)@.contains_key(handle) ==> {
                &&& r is None
                &&& *final(self) == *old(self)
                &&& *final(bodies) == *old(bodies)
            },
            old(self).bodies_wf(*old(bodies)) ==> final(self).bodies_wf(*final(bodies)),
            final(self).joints_cover(*final(bodies)),
    {
        if !self.joint_ids.contains(handle.0) {
            return None;
        }
        proof {
            assert(self@.contains_key(handle));
        }
        let ghost s0 = *old(self);
        let j = self.unlink(handle);
        proof {
            let k = s0.edge_of(handle);
            assert(s0.joint_graph.edges@[k].weight == j);
            assert(j.body1.0 < old(bodies)@.len() && j.body2.0 < old(bodies)@.len());
        }
        if wake_up {
            islands.wake_up(bodies, j.body1, true);
            islands.wake_up(bodies, j.body2, true);
        }
        proof {
            assert forall|k: int|
                0 <= k < self.joint_graph.edges@.len() implies {
                let e = #[trigger] self.joint_graph.edges@[k];
                e.weight.body1.0 < bodies@.len() && e.weight.body2.0 < bodies@.len()
            } by {
                let k0 = choose|k0: int|
                    0 <= k0 < s0.joint_graph.edges@.len() && self.joint_graph.edges@[k]
                        == s0.joint_graph.edges@[k0];
                assert(s0.joint_graph.edges@[k0].weight.body1.0 < old(bodies)@.len());
            }
            if s0.bodies_wf(*old(bodies)) {
                assert forall|b: int|
                    0 <= b < bodies@.len() implies #[trigger] bodies@[b].ids == old(bodies)@[b].ids by {}
                assert(self.bodies_wf(*bodies));
            }
        }
        Some(j)
    }

    /// Inserts a new joint into this set and retrieves its handle.
    ///
    /// Bodies get their graph node lazily: if either body still caches the
    /// sentinel, a node is created here and its position written back into
    /// the body's cached graph-index field.  This is the only path that
    /// ever creates nodes.  Insertion has no failure path: it always
    /// succeeds given valid body references.
    pub fn insert(
        &mut self,
        bodies: &mut BodySet,
        body1: RigidBodyHandle,
        body2: RigidBodyHandle,
        joint_params: JointParams,
    ) -> (r: JointHandle)
        requires
            old(self).wf(),
            old(self).bodies_wf(*old(bodies)),
            body1.0 < old(bodies)@.len(),
            body2.0 < old(bodies)@.len(),
            old(self).joint_ids.free@.len() > 0 || old(self).joint_ids.slots@.len()
                < 0xffff_ffff,
            old(self).joint_graph.nodes@.len() + 2 < 0xffff_ffff,
        ensures
            final(self).wf(),
            final(self).bodies_wf(*final(bodies)),
            !old(self)@.contains_key(r),
            final(self)@ == old(self)@.insert(
                r,
                Joint { body1, body2, handle: r, params: joint_params },
            ),
            final(self).num_joints() == old(self).num_joints() + 1,
            final(self).joint_graph.edges@[old(self).num_joints() as int].weight == (Joint {
                body1,
                body2,
                handle: r,
                params: joint_params,
            }),
            forall|k: int|
                0 <= k < old(self).num_joints() ==> #[trigger] final(self).joint_graph.edges@[k]
                    == old(self).joint_graph.edges@[k],
            final(bodies)@.len() == old(bodies)@.len(),
            forall|b: int|
                0 <= b < old(bodies)@.len() ==> {
                    &&& (#[trigger] final(bodies)@[b]).body_type == old(bodies)@[b].body_type
                    &&& final(bodies)@[b].activation == old(bodies)@[b].activation
                    &&& final(bodies)@[b].ids.active_island_id == old(bodies)@[b].ids.active_island_id
                    &&& (b != body1.0 && b != body2.0 ==> final(bodies)@[b] == old(bodies)@[b])
                },
            old(self).joint_graph.nodes@.len() <= final(self).joint_graph.nodes@.len() <= old(self).joint_graph.nodes@.len() + 2,
            forall|n: int|
                0 <= n < old(self).joint_graph.nodes@.len() ==> #[trigger] final(self).joint_graph.nodes@[n] == old(self).joint_graph.nodes@[n],
            final(self).joint_ids.slots@.len() <= old(self).joint_ids.slots@.len() + 1,
    {
        let handle_ix = self.joint_ids.insert(0usize);
        let handle = JointHandle(handle_ix);
        let joint = Joint { body1, body2, handle, params: joint_params };

        let mut graph_index1 = bodies.joint_graph_index(body1);
        if !InteractionGraph::<RigidBodyHandle, Joint>::is_graph_index_valid(graph_index1) {
            graph_index1 = self.joint_graph.add_node(body1);
            bodies.set_joint_graph_index(body1, graph_index1);
        }
        proof {
            assert(self.bodies_wf(*bodies));
            assert(graph_index1 < self.joint_graph.nodes@.len());
            assert(self.joint_graph.nodes@[graph_index1 as int] == body1);
        }

        let mut graph_index2 = bodies.joint_graph_index(body2);
        if !InteractionGraph::<RigidBodyHandle, Joint>::is_graph_index_valid(graph_index2) {
            graph_index2 = self.joint_graph.add_node(body2);
            bodies.set_joint_graph_index(body2, graph_index2);
        }
        proof {
            assert(self.bodies_wf(*bodies));
            assert(graph_index1 < self.joint_graph.nodes@.len());
            assert(self.joint_graph.nodes@[graph_index1 as int] == body1);
            assert(graph_index2 < self.joint_graph.nodes@.len());
            assert(self.joint_graph.nodes@[graph_index2 as int] == body2);
        }

        let id = self.joint_graph.add_edge(graph_index1, graph_index2, joint);
        self.joint_ids.set_value(handle_ix, id);
        proof {
            let s0 = *old(self);
            assert(!s0.live(handle));
            assert(self.joint_ids@[handle_ix] == id);
            assert(self.joint_ids@[handle_ix] == self.joint_ids.value_of(handle_ix));
            assert(self.live(handle) && self.edge_of(handle) == id as int);
            assert forall|h: JointHandle| #[trigger] self.live(h) implies 0 <= self.edge_of(h)
                < self.joint_graph.edges@.len() && self.joint_graph.edges@[self.edge_of(
                h,
            )].weight.handle == h by {
                if h != handle {
                    assert(h.0.index != handle_ix.index || !s0.live(h));
                    assert(s0.live(h));
                    assert(self.joint_ids@[h.0] == s0.joint_ids@[h.0]);
                    assert(s0.joint_ids@[h.0] == s0.joint_ids.value_of(h.0));
                    assert(self.joint_ids@[h.0] == self.joint_ids.value_of(h.0));
                    assert(self.edge_of(h) == s0.edge_of(h));
                }
            }
            assert forall|k: int| 0 <= k < self.joint_graph.edges@.len() implies {
                let e = #[trigger] self.joint_graph.edges@[k];
                &&& self.live(e.weight.handle)
                &&& self.edge_of(e.weight.handle) == k
                &&& self.joint_graph.nodes@[e.node1 as int] == e.weight.body1
                &&& self.joint_graph.nodes@[e.node2 as int] == e.weight.body2
            } by {
                if k == id as int {
                } else {
                    let e = s0.joint_graph.edges@[k];
                    let h = e.weight.handle;
                    assert(self.joint_graph.edges@[k] == e);
                    assert(s0.live(h) && s0.edge_of(h) == k);
                    assert(h != handle);
                    assert(h.0.index != handle_ix.index);
                    assert(self.joint_ids@[h.0] == s0.joint_ids@[h.0]);
                    assert(s0.joint_ids@[h.0] == s0.joint_ids.value_of(h.0));
                    assert(self.joint_ids@[h.0] == self.joint_ids.value_of(h.0));
                    assert(e.node1 < s0.joint_graph.nodes@.len());
                    assert(e.node2 < s0.joint_graph.nodes@.len());
                }
            }
            assert(self.wf());
            assert(self@ =~= s0@.insert(handle, joint));
        }
        handle
    }

    /// Body `b` is an endpoint of some joint of `s` incident to `b_del`.
    pub open spec fn endpoint_of_incident(s: JointSet, b_del: RigidBodyHandle, b: int) -> bool {
        exists|h: JointHandle|
            s@.contains_key(h) && joint_touches(#[trigger] s@[h], b_del) && (s@[h].body1.0 == b
                || s@[h].body2.0 == b)
    }

    /// [`JointSet::bodies_wf`] with one body exempted: used right after a
    /// body's deletion, when that body's cached index is allowed to
    /// dangle because its owner is discarding it.
    pub open spec fn bodies_wf_except(self, bodies: BodySet, except: RigidBodyHandle) -> bool {
        &&& forall|n: int|
            0 <= n < self.joint_graph.nodes@.len() ==> {
                let b = (#[trigger] self.joint_graph.nodes@[n]).0;
                &&& b < bodies@.len()
                &&& bodies@[b as int].ids.joint_graph_index == n
            }
        &&& forall|b: int|
            0 <= b < bodies@.len() && b != except.0 && (#[trigger] bodies@[b]).ids.joint_graph_index
                != crate::INVALID_U32 ==> {
                let n = bodies@[b].ids.joint_graph_index;
                &&& n < self.joint_graph.nodes@.len()
                &&& self.joint_graph.nodes@[n as int].0 == b
            }
    }

    /// Cascading deletion, invoked when a body is destroyed: removes every
    /// joint incident to the body's graph node, waking both endpoints of
    /// each (cascading deletion always wakes, unlike the explicit
    /// `remove`, where waking is the caller's choice), then removes the
    /// now-isolated node and writes the relocated node's new position back
    /// into that body's cached graph-index field.  A body with no graph
    /// presence (sentinel index) is a no-op.
    pub fn remove_rigid_body(
        &mut self,
        deleted_id: u32,
        islands: &mut IslandManager,
        bodies: &mut BodySet,
    )
        requires
            old(self).wf(),
            old(self).bodies_wf(*old(bodies)),
            deleted_id != crate::INVALID_U32 ==> deleted_id < old(self).joint_graph.nodes@.len(),
        ensures
            final(self).wf(),
            *final(islands) == *old(islands),
            deleted_id == crate::INVALID_U32 ==> *final(self) == *old(self) && *final(bodies)
                == *old(bodies),
            deleted_id != crate::INVALID_U32 ==> {
                let b_del = old(self).joint_graph.nodes@[deleted_id as int];
                &&& forall|h: JointHandle|
                    old(self)@.contains_key(h) && joint_touches(#[trigger] old(self)@[h], b_del)
                        ==> !final(self)@.contains_key(h)
                &&& forall|h: JointHandle|
                    old(self)@.contains_key(h) && !joint_touches(#[trigger] old(self)@[h], b_del)
                        ==> final(self)@.contains_key(h) && final(self)@[h] == old(self)@[h]
                &&& forall|h: JointHandle|
                    final(self)@.contains_key(h) ==> old(self)@.contains_key(h)
                &&& final(self).joint_graph.nodes@ == old(self).joint_graph.nodes@.update(
                    deleted_id as int,
                    old(self).joint_graph.nodes@.last(),
                ).drop_last()
                &&& final(self).bodies_wf_except(*final(bodies), b_del)
                &&& final(bodies)@.len() == old(bodies)@.len()
                &&& forall|b: int|
                    0 <= b < old(bodies)@.len() ==> (#[trigger] final(bodies)@[b]).body_type
                        == old(bodies)@[b].body_type && final(bodies)@[b].ids.active_island_id
                        == old(bodies)@[b].ids.active_island_id
                &&& forall|h: JointHandle|
                    old(self)@.contains_key(h) && joint_touches(#[trigger] old(self)@[h], b_del)
                        ==> !final(bodies)@[old(self)@[h].body1.0 as int].activation.sleeping
                        && !final(bodies)@[old(self)@[h].body2.0 as int].activation.sleeping
                &&& forall|b: int|
                    0 <= b < old(bodies)@.len() && !Self::endpoint_of_incident(
                        *old(self),
                        b_del,
                        b,
                    ) ==> (#[trigger] final(bodies)@[b]).activation == old(bodies)@[b].activation
                &&& forall|b: int|
                    0 <= b < old(bodies)@.len() && (deleted_id == old(self).joint_graph.nodes@.len()
                        - 1 || b != old(self).joint_graph.nodes@.last().0) ==> (#[trigger] final(bodies)@[b]).ids.joint_graph_index == old(bodies)@[b].ids.joint_graph_index
                &&& (deleted_id != old(self).joint_graph.nodes@.len() - 1 ==> final(bodies)@[old(self).joint_graph.nodes@.last().0 as int].ids.joint_graph_index == deleted_id)
            },
    {
        if !InteractionGraph::<RigidBodyHandle, Joint>::is_graph_index_valid(deleted_id) {
            return ;
        }
        let ghost s0 = *old(self);
        let ghost b0 = *old(bodies);
        let ghost b_del = s0.joint_graph.nodes@[deleted_id as int];
        proof {
            assert forall|k: int|
                0 <= k < s0.joint_graph.edges@.len() implies {
                let e = #[trigger] s0.joint_graph.edges@[k];
                e.weight.body1.0 < b0@.len() && e.weight.body2.0 < b0@.len()
            } by {
                let e = s0.joint_graph.edges@[k];
                assert(s0.joint_graph.nodes@[e.node1 as int] == e.weight.body1);
                assert(s0.joint_graph.nodes@[e.node2 as int] == e.weight.body2);
            }
            assert(s0.joints_cover(b0));
        }

        // Collect the handles of every incident edge first: the per-edge
        // removal below mutates the structure being enumerated.
        let mut to_delete: Vec<JointHandle> = Vec::new();
        let mut k: usize = 0;
        while k < self.joint_graph.edges.len()
            invariant
                *self == s0,
                s0.wf(),
                0 <= k <= s0.joint_graph.edges@.len(),
                forall|p: int|
                    0 <= p < to_delete@.len() ==> {
                        let h = #[trigger] to_delete@[p];
                        &&& s0.live(h)
                        &&& 0 <= s0.edge_of(h) < k
                        &&& s0.joint_graph.edge_touches(s0.edge_of(h), deleted_id)
                    },
                forall|p: int, q: int|
                    0 <= p < q < to_delete@.len() ==> s0.edge_of(#[trigger] to_delete@[p])
                        < s0.edge_of(#[trigger] to_delete@[q]),
                forall|kk: int|
                    0 <= kk < k && s0.joint_graph.edge_touches(kk, deleted_id)
                        ==> to_delete@.contains(s0.joint_graph.edges@[kk].weight.handle),
            decreases s0.joint_graph.edges@.len() - k,
        {
            let e = &self.joint_graph.edges[k];
            if e.node1 == deleted_id || e.node2 == deleted_id {
                to_delete.push(e.weight.handle);
            }
            k += 1;
        }

        // Delete the collected joints one by one, repairing the arena
        // entry of each relocated edge and waking both endpoint bodies.
        let mut p: usize = 0;
        while p < to_delete.len()
            invariant
                self.wf(),
                self.joint_graph.nodes == s0.joint_graph.nodes,
                *islands == *old(islands),
                s0.wf(),
                s0.bodies_wf(b0),
                s0.joints_cover(b0),
                deleted_id != crate::INVALID_U32,
                deleted_id < s0.joint_graph.nodes@.len(),
                b_del == s0.joint_graph.nodes@[deleted_id as int],
                0 <= p <= to_delete@.len(),
                forall|q: int|
                    0 <= q < to_delete@.len() ==> {
                        let h = #[trigger] to_delete@[q];
                        &&& s0.live(h)
                        &&& 0 <= s0.edge_of(h) < s0.joint_graph.edges@.len()
                        &&& s0.joint_graph.edge_touches(s0.edge_of(h), deleted_id)
                    },
                forall|q1: int, q2: int|
                    0 <= q1 < q2 < to_delete@.len() ==> s0.edge_of(#[trigger] to_delete@[q1])
                        < s0.edge_of(#[trigger] to_delete@[q2]),
                forall|kk: int|
                    0 <= kk < s0.joint_graph.edges@.len() && s0.joint_graph.edge_touches(
                        kk,
                        deleted_id,
                    ) ==> to_delete@.contains(s0.joint_graph.edges@[kk].weight.handle),
                forall|h: JointHandle|
                    #[trigger] self@.contains_key(h) <==> (s0@.contains_key(h)
                        && !to_delete@.subrange(0, p as int).contains(h)),
                forall|h: JointHandle|
                    #[trigger] self@.contains_key(h) ==> self@[h] == s0@[h],
                bodies@.len() == b0@.len(),
                forall|b: int|
                    0 <= b < b0@.len() ==> (#[trigger] bodies@[b]).body_type == b0@[b].body_type
                        && bodies@[b].ids == b0@[b].ids,
                forall|q: int|
                    0 <= q < p ==> {
                        let j = s0@[#[trigger] to_delete@[q]];
                        &&& !bodies@[j.body1.0 as int].activation.sleeping
                        &&& !bodies@[j.body2.0 as int].activation.sleeping
                    },
                forall|b: int|
                    0 <= b < b0@.len() && !Self::endpoint_of_incident(s0, b_del, b) ==> (
                    #[trigger] bodies@[b]).activation == b0@[b].activation,
            decreases to_delete@.len() - p,
        {
            let h = to_delete[p];
            proof {
                assert(s0@.contains_key(h));
                assert(!to_delete@.subrange(0, p as int).contains(h)) by {
                    if to_delete@.subrange(0, p as int).contains(h) {
                        let q = choose|q: int|
                            0 <= q < p && to_delete@.subrange(0, p as int)[q] == h;
                        assert(to_delete@[q] == h);
                        assert(s0.edge_of(to_delete@[q]) < s0.edge_of(to_delete@[p as int]));
                    }
                }
                assert(self@.contains_key(h));
            }
            let ghost s_before = *self;
            let j = self.unlink(h);
            proof {
                assert(j == s0@[h]);
                assert(s0.joint_graph.edges@[s0.edge_of(h)].weight == j);
                assert(j.body1.0 < bodies@.len() && j.body2.0 < bodies@.len());
                assert(joint_touches(j, b_del)) by {
                    let kk = s0.edge_of(h);
                    let e = s0.joint_graph.edges@[kk];
                    assert(s0.joint_graph.edge_touches(kk, deleted_id));
                    assert(s0.joint_graph.nodes@[e.node1 as int] == e.weight.body1);
                    assert(s0.joint_graph.nodes@[e.node2 as int] == e.weight.body2);
                }
            }
            islands.wake_up(bodies, j.body1, true);
            islands.wake_up(bodies, j.body2, true);
            p += 1;
            proof {
                assert(to_delete@.subrange(0, p as int) =~= to_delete@.subrange(
                    0,
                    p as int - 1,
                ).push(h));
                assert forall|h2: JointHandle| #[trigger] self@.contains_key(h2) <==> (
                s0@.contains_key(h2) && !to_delete@.subrange(0, p as int).contains(h2)) by {
                    assert(self@ == s_before@.remove(h));
                }
                assert forall|b: int|
                    0 <= b < b0@.len() && !Self::endpoint_of_incident(s0, b_del, b) implies (
                #[trigger] bodies@[b]).activation == b0@[b].activation by {
                    if b == j.body1.0 as int || b == j.body2.0 as int {
                        assert(s0@.contains_key(h) && joint_touches(s0@[h], b_del) && (
                        s0@[h].body1.0 == b || s0@[h].body2.0 == b));
                        assert(Self::endpoint_of_incident(s0, b_del, b));
                    }
                }
            }
        }

        // No incident edge remains: the collected list was complete, the
        // surviving joints kept their values, and endpoints only relink
        // when their node moves.
        proof {
            assert forall|kk: int|
                0 <= kk < self.joint_graph.edges@.len() implies !self.joint_graph.edge_touches(
                kk,
                deleted_id,
            ) by {
                let e = self.joint_graph.edges@[kk];
                let h = e.weight.handle;
                assert(self.live(h) && self.edge_of(h) == kk);
                assert(self@.contains_key(h));
                assert(self@[h] == e.weight);
                assert(s0@.contains_key(h) && !to_delete@.subrange(
                    0,
                    to_delete@.len() as int,
                ).contains(h));
                assert(to_delete@.subrange(0, to_delete@.len() as int) =~= to_delete@);
                if self.joint_graph.edge_touches(kk, deleted_id) {
                    assert(self.joint_graph.nodes@[e.node1 as int] == e.weight.body1);
                    assert(self.joint_graph.nodes@[e.node2 as int] == e.weight.body2);
                    assert(joint_touches(e.weight, b_del));
                    let kk0 = s0.edge_of(h);
                    assert(s0@[h] == e.weight);
                    assert(s0.joint_graph.edges@[kk0].weight == e.weight);
                    assert(s0.joint_graph.nodes@[s0.joint_graph.edges@[kk0].node1 as int]
                        == e.weight.body1);
                    assert(s0.joint_graph.edge_touches(kk0, deleted_id)) by {
                        if e.weight.body1 == b_del {
                            assert(s0.joint_graph.nodes@[s0.joint_graph.edges@[kk0].node1 as int]
                                == s0.joint_graph.nodes@[deleted_id as int]);
                            assert(b0@[b_del.0 as int].ids.joint_graph_index == deleted_id);
                            assert(s0.joint_graph.edges@[kk0].node1 == deleted_id);
                        } else {
                            assert(e.weight.body2 == b_del);
                            assert(s0.joint_graph.edges@[kk0].node2 == deleted_id);
                        }
                    }
                    assert(to_delete@.contains(h));
                }
            }
        }

        let ghost s_mid = *self;
        let ghost bodies_mid = *bodies;
        let relocated = self.joint_graph.remove_node(deleted_id);
        proof {
            let last = s_mid.joint_graph.nodes@.len() - 1;
            assert forall|k: int| 0 <= k < self.joint_graph.edges@.len() implies {
                let e = #[trigger] self.joint_graph.edges@[k];
                &&& self.live(e.weight.handle)
                &&& self.edge_of(e.weight.handle) == k
                &&& self.joint_graph.nodes@[e.node1 as int] == e.weight.body1
                &&& self.joint_graph.nodes@[e.node2 as int] == e.weight.body2
            } by {
                let e0 = s_mid.joint_graph.edges@[k];
                let e = self.joint_graph.edges@[k];
                assert(e.weight == e0.weight);
                assert(s_mid.live(e0.weight.handle) && s_mid.edge_of(e0.weight.handle) == k);
                assert(!s_mid.joint_graph.edge_touches(k, deleted_id));
                if e0.node1 == last as u32 {
                    assert(e.node1 == deleted_id);
                    assert(self.joint_graph.nodes@[deleted_id as int]
                        == s_mid.joint_graph.nodes@[last]);
                } else {
                    assert(e.node1 == e0.node1);
                    assert(e0.node1 != deleted_id);
                    assert(self.joint_graph.nodes@[e.node1 as int]
                        == s_mid.joint_graph.nodes@[e0.node1 as int]);
                }
                if e0.node2 == last as u32 {
                    assert(e.node2 == deleted_id);
                } else {
                    assert(e.node2 == e0.node2);
                    assert(e0.node2 != deleted_id);
                }
            }
            assert forall|h: JointHandle| #[trigger] self.live(h) implies 0 <= self.edge_of(h)
                < self.joint_graph.edges@.len() && self.joint_graph.edges@[self.edge_of(h)].weight.handle == h by {
                assert(s_mid.live(h));
            }
            assert(self.wf());
            assert(self@ =~= s_mid@);
        }
        match relocated {
            Some(other) => {
                proof {
                    assert(other == s0.joint_graph.nodes@.last());
                    assert(other.0 < bodies@.len());
                }
                bodies.set_joint_graph_index(other, deleted_id);
            },
            None => {},
        }
        proof {
            let last = s0.joint_graph.nodes@.len() - 1;
            assert forall|n1: int, n2: int|
                0 <= n1 < s0.joint_graph.nodes@.len() && 0 <= n2 < s0.joint_graph.nodes@.len()
                    && n1 != n2 implies (#[trigger] s0.joint_graph.nodes@[n1]).0 != (
            #[trigger] s0.joint_graph.nodes@[n2]).0 by {
                assert(b0@[s0.joint_graph.nodes@[n1].0 as int].ids.joint_graph_index == n1);
                assert(b0@[s0.joint_graph.nodes@[n2].0 as int].ids.joint_graph_index == n2);
            }
            assert forall|n: int| 0 <= n < self.joint_graph.nodes@.len() implies {
                let b = (#[trigger] self.joint_graph.nodes@[n]).0;
                &&& b < bodies@.len()
                &&& bodies@[b as int].ids.joint_graph_index == n
            } by {
                if n == deleted_id as int && deleted_id as int != last {
                    assert(self.joint_graph.nodes@[n] == s0.joint_graph.nodes@[last]);
                } else {
                    assert(self.joint_graph.nodes@[n] == s0.joint_graph.nodes@[n]);
                    assert(b0@[s0.joint_graph.nodes@[n].0 as int].ids.joint_graph_index == n);
                    if deleted_id as int != last {
                        assert(s0.joint_graph.nodes@[n].0 != s0.joint_graph.nodes@[last].0);
                    }
                }
            }
            assert forall|b: int|
                0 <= b < bodies@.len() && b != b_del.0 && (#[trigger] bodies@[b]).ids.joint_graph_index
                    != crate::INVALID_U32 implies {
                let n = bodies@[b].ids.joint_graph_index;
                &&& n < self.joint_graph.nodes@.len()
                &&& self.joint_graph.nodes@[n as int].0 == b
            } by {
                if deleted_id as int != last && b == s0.joint_graph.nodes@[last].0 {
                    assert(bodies@[b].ids.joint_graph_index == deleted_id);
                    assert(self.joint_graph.nodes@[deleted_id as int].0 == b);
                } else {
                    assert(bodies@[b].ids == b0@[b].ids);
                    let n = b0@[b].ids.joint_graph_index;
                    assert(n < s0.joint_graph.nodes@.len() && s0.joint_graph.nodes@[n as int].0
                        == b);
                    assert(n != deleted_id) by {
                        assert(b0@[b_del.0 as int].ids.joint_graph_index == deleted_id);
                        if n == deleted_id {
                            assert(s0.joint_graph.nodes@[n as int].0 == b_del.0);
                        }
                    }
                    if deleted_id as int != last {
                        assert(n != last) by {
                            if n == last {
                                assert(s0.joint_graph.nodes@[last].0 == b);
                            }
                        }
                        assert(self.joint_graph.nodes@[n as int] == s0.joint_graph.nodes@[n as int]);
                    } else {
                        assert(n < last);
                        assert(self.joint_graph.nodes@[n as int] == s0.joint_graph.nodes@[n as int]);
                    }
                }
            }
            assert(self.bodies_wf_except(*bodies, b_del));
            assert(to_delete@.subrange(0, to_delete@.len() as int) =~= to_delete@);
            assert forall|h: JointHandle|
                s0@.contains_key(h) && joint_touches(#[trigger] s0@[h], b_del) implies !self@.contains_key(h) by {
                let kk = s0.edge_of(h);
                assert(s0@[h] == s0.joint_graph.edges@[kk].weight);
                Self::lemma_touch_iff(s0, b0, deleted_id, kk);
                assert(s0.joint_graph.edge_touches(kk, deleted_id));
                assert(to_delete@.contains(s0.joint_graph.edges@[kk].weight.handle));
                assert(s0.joint_graph.edges@[kk].weight.handle == h);
            }
            assert forall|h: JointHandle|
                s0@.contains_key(h) && !joint_touches(#[trigger] s0@[h], b_del) implies self@.contains_key(h) && self@[h] == s0@[h] by {
                assert(!to_delete@.contains(h)) by {
                    if to_delete@.contains(h) {
                        let q = choose|q: int| 0 <= q < to_delete@.len() && to_delete@[q] == h;
                        assert(s0.live(to_delete@[q]));
                        let kk = s0.edge_of(h);
                        assert(s0.joint_graph.edge_touches(kk, deleted_id));
                        Self::lemma_touch_iff(s0, b0, deleted_id, kk);
                        assert(joint_touches(s0.joint_graph.edges@[kk].weight, b_del));
                        assert(s0@[h] == s0.joint_graph.edges@[kk].weight);
                    }
                }
                assert(!to_delete@.subrange(0, to_delete@.len() as int).contains(h));
                assert(s_mid@.contains_key(h));
                assert(s_mid@[h] == s0@[h]);
                assert(self@ == s_mid@);
            }
            assert forall|h: JointHandle|
                s0@.contains_key(h) && joint_touches(#[trigger] s0@[h], b_del) implies !bodies@[s0@[h].body1.0 as int].activation.sleeping
                && !bodies@[s0@[h].body2.0 as int].activation.sleeping by {
                let kk = s0.edge_of(h);
                assert(s0@[h] == s0.joint_graph.edges@[kk].weight);
                Self::lemma_touch_iff(s0, b0, deleted_id, kk);
                assert(to_delete@.contains(s0.joint_graph.edges@[kk].weight.handle));
                let q = choose|q: int| 0 <= q < to_delete@.len() && to_delete@[q] == h;
                assert(s0@[to_delete@[q]] == s0@[h]);
                assert(!bodies_mid@[s0@[h].body1.0 as int].activation.sleeping);
                assert(bodies@[s0@[h].body1.0 as int].activation
                    == bodies_mid@[s0@[h].body1.0 as int].activation);
                assert(bodies@[s0@[h].body2.0 as int].activation
                    == bodies_mid@[s0@[h].body2.0 as int].activation);
            }
        }
    }


    /// Retrieves all the joints between two active bodies, grouped by
    /// island: bucket `i` of `out` receives the edge positions, in
    /// increasing order, of every qualifying joint of island `i`.  The
    /// first `num_islands` buckets are cleared and fully recomputed on
    /// every call (a point-in-time view, not an incrementally maintained
    /// one); buckets beyond them are left alone.
    pub fn select_active_interactions(
        &self,
        islands: &IslandManager,
        bodies: &BodySet,
        out: &mut Vec<Vec<JointIndex>>,
    )
        requires
            self.wf(),
            self.joints_cover(*bodies),
            old(out)@.len() >= islands.islands,
            forall|b: int|
                0 <= b < bodies@.len() && (#[trigger] bodies@[b]).body_type.spec_is_dynamic()
                    ==> bodies@[b].ids.active_island_id < islands.islands,
        ensures
            final(out)@.len() == old(out)@.len(),
            forall|i: int|
                islands.islands <= i < old(out)@.len() ==> #[trigger] final(out)@[i] == old(
                    out,
                )@[i],
            forall|isl: int|
                0 <= isl < islands.islands ==> (#[trigger] final(out)@[isl])@ == selected_upto(
                    *self,
                    *bodies,
                    isl,
                    self.num_joints() as int,
                ),
    {
        let n_islands = islands.num_islands();
        let mut i: usize = 0;
        while i < n_islands
            invariant
                n_islands <= out@.len(),
                out@.len() == old(out)@.len(),
                0 <= i <= n_islands,
                forall|p: int| i <= p < out@.len() ==> #[trigger] out@[p] == old(out)@[p],
                forall|p: int| 0 <= p < i ==> (#[trigger] out@[p])@.len() == 0,
            decreases n_islands - i,
        {
            let bucket = &mut out[i];
            bucket.clear();
            i += 1;
        }
        proof {
            assert forall|isl: int| 0 <= isl < n_islands implies (#[trigger] out@[isl])@
                == selected_upto(*self, *bodies, isl, 0) by {
                assert(selected_upto(*self, *bodies, isl, 0) == Seq::<JointIndex>::empty());
                assert(out@[isl]@ =~= Seq::<JointIndex>::empty());
            }
        }
        let mut k: usize = 0;
        while k < self.joint_graph.edges.len()
            invariant
                self.wf(),
                self.joints_cover(*bodies),
                n_islands == islands.islands,
                n_islands <= out@.len(),
                out@.len() == old(out)@.len(),
                forall|b: int|
                    0 <= b < bodies@.len() && (#[trigger] bodies@[b]).body_type.spec_is_dynamic()
                        ==> bodies@[b].ids.active_island_id < n_islands,
                forall|p: int| n_islands <= p < out@.len() ==> #[trigger] out@[p] == old(out)@[p],
                0 <= k <= self.num_joints(),
                forall|isl: int|
                    0 <= isl < n_islands ==> (#[trigger] out@[isl])@ == selected_upto(
                        *self,
                        *bodies,
                        isl,
                        k as int,
                    ),
            decreases self.num_joints() - k,
        {
            let e = &self.joint_graph.edges[k];
            let joint = e.weight;
            let ghost out_pre = *out;
            let c1 = bodies.components(joint.body1);
            let c2 = bodies.components(joint.body2);
            let dyn1 = c1.body_type.is_dynamic();
            let dyn2 = c2.body_type.is_dynamic();
            if (dyn1 || dyn2) && (!dyn1 || !c1.activation.sleeping) && (!dyn2
                || !c2.activation.sleeping) {
                let island_index = if !dyn1 {
                    c2.ids.active_island_id
                } else {
                    c1.ids.active_island_id
                };
                proof {
                    assert(joint_is_active(joint, *bodies));
                    assert(joint_island(joint, *bodies) == island_index);
                    assert(island_index < n_islands);
                }
                let bucket = &mut out[island_index];
                bucket.push(k);
                proof {
                    assert forall|isl: int| 0 <= isl < n_islands implies (#[trigger] out@[isl])@
                        == selected_upto(*self, *bodies, isl, k as int + 1) by {
                        if isl == island_index {
                            assert(out@[isl]@ == out_pre@[isl]@.push(k as JointIndex));
                        } else {
                            assert(out@[isl]@ == out_pre@[isl]@);
                        }
                    }
                }
            } else {
                proof {
                    assert(!joint_is_active(joint, *bodies));
                    assert forall|isl: int| 0 <= isl < n_islands implies (#[trigger] out@[isl])@
                        == selected_upto(*self, *bodies, isl, k as int + 1) by {
                    }
                }
            }
            k += 1;
        }
    }

    /// For a consistent set, an edge is incident to the node at
    /// `deleted_id` exactly when its joint names that node's body: the
    /// body's cached index pins its node down.
    proof fn lemma_touch_iff(s: JointSet, bodies: BodySet, deleted_id: u32, kk: int)
        requires
            s.wf(),
            s.bodies_wf(bodies),
            deleted_id < s.joint_graph.nodes@.len(),
            0 <= kk < s.joint_graph.edges@.len(),
        ensures
            s.joint_graph.edge_touches(kk, deleted_id) <==> joint_touches(
                s.joint_graph.edges@[kk].weight,
                s.joint_graph.nodes@[deleted_id as int],
            ),
    {
        let e = s.joint_graph.edges@[kk];
        let b_del = s.joint_graph.nodes@[deleted_id as int];
        assert(s.joint_graph.nodes@[e.node1 as int] == e.weight.body1);
        assert(s.joint_graph.nodes@[e.node2 as int] == e.weight.body2);
        if e.weight.body1 == b_del {
            assert(bodies@[b_del.0 as int].ids.joint_graph_index == deleted_id);
            assert(bodies@[e.weight.body1.0 as int].ids.joint_graph_index == e.node1);
            assert(e.node1 == deleted_id);
        }
        if e.weight.body2 == b_del {
            assert(bodies@[b_del.0 as int].ids.joint_graph_index == deleted_id);
            assert(bodies@[e.weight.body2.0 as int].ids.joint_graph_index == e.node2);
            assert(e.node2 == deleted_id);
        }
    }
}

} // verus!
