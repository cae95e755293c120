//! The guarantees of the joint set, stated once as proof functions.
//!
//! Each mutating operation of [`JointSet`] ensures `wf` and describes its
//! effect on the view, so the facts below hold of every reachable state
//! and every call sequence.

use crate::body::BodySet;
use crate::graph::Edge;
use crate::joint_set::invalid_joint_handle;
use crate::joint_set::Joint;
use crate::joint_set::JointHandle;
use crate::joint_set::JointSet;
use vstd::prelude::*;

verus! {

/// Handle uniqueness at any instant: distinct joints of a consistent set
/// never share a handle.  (That a *removed* handle never resolves again
/// is the fresh-handle clause of `insert` together with the absence
/// clause of `remove`.)
pub proof fn lemma_distinct_edges_distinct_handles(s: JointSet, k1: int, k2: int)
    requires
        s.wf(),
        0 <= k1 < s.num_joints(),
        0 <= k2 < s.num_joints(),
        k1 != k2,
    ensures
        s.joint_graph.edges@[k1].weight.handle != s.joint_graph.edges@[k2].weight.handle,
{
    assert(s.edge_of(s.joint_graph.edges@[k1].weight.handle) == k1);
    assert(s.edge_of(s.joint_graph.edges@[k2].weight.handle) == k2);
}

/// Freeing an arena slot advances its generation, so the freed handle
/// never equals the handle a later reuse of the same slot returns.
pub proof fn lemma_generation_advances(g: u32)
    ensures
        crate::arena::next_generation(g) != g,
{
}

/// Bidirectional consistency: every live handle resolves to an edge
/// recording exactly that handle, and every edge's recorded handle
/// resolves back to exactly that edge position.
pub proof fn lemma_bidirectional_consistency(s: JointSet)
    requires
        s.wf(),
    ensures
        forall|h: JointHandle|
            #[trigger] s@.contains_key(h) ==> 0 <= s.edge_of(h) < s.num_joints()
                && s.joint_graph.edges@[s.edge_of(h)].weight.handle == h,
        forall|k: int|
            0 <= k < s.num_joints() ==> s@.contains_key(
                #[trigger] s.joint_graph.edges@[k].weight.handle,
            ) && s.edge_of(s.joint_graph.edges@[k].weight.handle) == k,
{
    assert forall|h: JointHandle| #[trigger] s@.contains_key(h) implies 0 <= s.edge_of(h)
        < s.num_joints() && s.joint_graph.edges@[s.edge_of(h)].weight.handle == h by {
        assert(s.live(h));
    }
    assert forall|k: int| 0 <= k < s.num_joints() implies s@.contains_key(
        #[trigger] s.joint_graph.edges@[k].weight.handle,
    ) && s.edge_of(s.joint_graph.edges@[k].weight.handle) == k by {
        assert(s.live(s.joint_graph.edges@[k].weight.handle));
    }
}

/// Relocation repair: removing one joint leaves every other live joint
/// retrievable under its original handle, with its value unchanged,
/// whatever compaction the removal caused.
pub proof fn lemma_removal_preserves_others(
    pre: JointSet,
    post: JointSet,
    removed: JointHandle,
    other: JointHandle,
)
    requires
        post@ == pre@.remove(removed),
        other != removed,
        pre@.contains_key(other),
    ensures
        post@.contains_key(other),
        post@[other] == pre@[other],
{
}

/// Idempotent absence: once a handle has been removed it is absent, so a
/// second removal (or any later lookup) of the same handle finds nothing.
pub proof fn lemma_removed_handle_absent(pre: JointSet, post: JointSet, removed: JointHandle)
    requires
        post@ == pre@.remove(removed),
    ensures
        !post@.contains_key(removed),
{
}

/// The invalid sentinel handle is live in no well-formed set.
pub proof fn lemma_invalid_handle_absent(s: JointSet)
    requires
        s.wf(),
    ensures
        !s@.contains_key(invalid_joint_handle()),
{
    assert(!s.live(invalid_joint_handle()));
}

/// Updating a joint in place (through `get_mut` or the raw edge array)
/// keeps the set consistent and changes the view at exactly that handle,
/// provided the joint's identity fields were kept.
pub proof fn lemma_weight_update_preserves_wf(pre: JointSet, post: JointSet, h: JointHandle, j: Joint)
    requires
        pre.wf(),
        pre@.contains_key(h),
        j.handle == h,
        j.body1 == pre@[h].body1,
        j.body2 == pre@[h].body2,
        post.joint_ids == pre.joint_ids,
        post.joint_graph.nodes == pre.joint_graph.nodes,
        post.joint_graph.edges@ == pre.joint_graph.edges@.update(
            pre.edge_of(h),
            Edge { weight: j, ..pre.joint_graph.edges@[pre.edge_of(h)] },
        ),
    ensures
        post.wf(),
        post@ == pre@.insert(h, j),
{
    assert(pre.live(h));
    let kh = pre.edge_of(h);
    assert forall|h2: JointHandle| #[trigger] post.live(h2) implies 0 <= post.edge_of(h2)
        < post.joint_graph.edges@.len() && post.joint_graph.edges@[post.edge_of(
        h2,
    )].weight.handle == h2 by {
        assert(pre.live(h2));
        if pre.edge_of(h2) == kh {
            assert(h2 == h);
        }
    }
    assert forall|k: int| 0 <= k < post.joint_graph.edges@.len() implies {
        let e = #[trigger] post.joint_graph.edges@[k];
        &&& post.live(e.weight.handle)
        &&& post.edge_of(e.weight.handle) == k
        &&& post.joint_graph.nodes@[e.node1 as int] == e.weight.body1
        &&& post.joint_graph.nodes@[e.node2 as int] == e.weight.body2
    } by {
        if k == kh {
            assert(post.joint_graph.edges@[k].weight == j);
            assert(pre.live(h) && pre.edge_of(h) == k);
        } else {
            assert(post.joint_graph.edges@[k] == pre.joint_graph.edges@[k]);
            assert(pre.live(pre.joint_graph.edges@[k].weight.handle));
        }
    }
    assert(post@ =~= pre@.insert(h, j));
}

/// A set with no nodes is consistent with any body storage whose bodies
/// all still cache the sentinel.
pub proof fn lemma_fresh_set_bodies_wf(s: JointSet, bodies: BodySet)
    requires
        s.joint_graph.nodes@.len() == 0,
        forall|b: int|
            0 <= b < bodies@.len() ==> (#[trigger] bodies@[b]).ids.joint_graph_index
                == crate::INVALID_U32,
    ensures
        s.bodies_wf(bodies),
{
}

/// Whenever set and storage are consistent, both endpoints of every joint
/// are stored bodies.
pub proof fn lemma_cover_from_wf(s: JointSet, bodies: BodySet)
    requires
        s.wf(),
        s.bodies_wf(bodies),
    ensures
        s.joints_cover(bodies),
{
    assert forall|k: int| 0 <= k < s.joint_graph.edges@.len() implies {
        let e = #[trigger] s.joint_graph.edges@[k];
        e.weight.body1.0 < bodies@.len() && e.weight.body2.0 < bodies@.len()
    } by {
        let e = s.joint_graph.edges@[k];
        assert(s.joint_graph.nodes@[e.node1 as int] == e.weight.body1);
        assert(s.joint_graph.nodes@[e.node2 as int] == e.weight.body2);
    }
}

} // verus!
