//! Topology of pairwise constraints ("joints") between rigid bodies.
//!
//! Joints live in a compacting interaction graph whose nodes are bodies
//! and whose edges are joints.  Stable external identities come from a
//! generational slot arena that maps each [`JointHandle`] to the joint's
//! current position in the edge array; every compaction repairs that
//! mapping, and the body-side cached node position, within the same call,
//! so handles stay valid while internal positions move.  The guarantees
//! are stated on each operation and, where they span several operations,
//! in [`laws`].

pub mod arena;
pub mod body;
pub mod graph;
pub mod joint_set;
pub mod laws;

pub use arena::Arena;
pub use arena::ArenaIndex;
pub use body::BodyComponents;
pub use body::BodySet;
pub use body::IslandManager;
pub use body::RigidBodyActivation;
pub use body::RigidBodyHandle;
pub use body::RigidBodyIds;
pub use body::RigidBodyType;
pub use graph::Edge;
pub use graph::InteractionGraph;
pub use joint_set::Joint;
pub use joint_set::JointHandle;
pub use joint_set::JointIndex;
pub use joint_set::JointParams;
pub use joint_set::JointSet;

use vstd::prelude::*;

verus! {

/// Sentinel for an index that refers to nothing: used by the
/// always-invalid joint handle and by the "this body has no graph node
/// yet" cached graph index.
pub const INVALID_U32: u32 = 0xffff_ffff;

} // verus!
