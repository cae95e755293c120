//! The slice of body state this core consumes and keeps synchronized.
//!
//! Body storage and island classification are collaborators of the joint
//! set, not part of it: the joint set only reads a body's type, sleep flag
//! and island id, and writes back the body's cached graph-node position
//! whenever the graph compacts.  [`BodySet`] and [`IslandManager`] carry
//! exactly that narrow interface; everything else about a body (position,
//! velocity, forces) lives with the collaborator and never enters here.

use vstd::prelude::*;

verus! {

/// Identity of a body inside the body storage.
#[derive(Copy, Clone, Debug, Hash, PartialEq, Eq, Structural)]
pub struct RigidBodyHandle(pub u32);

/// The dynamics regime of a body.  Only dynamic bodies are solved; static
/// and kinematic bodies act as anchors.
#[derive(Copy, Clone, Debug, PartialEq, Eq, Structural)]
pub enum RigidBodyType {
    /// Fully simulated: affected by forces and impulses.
    Dynamic,
    /// Never moves.
    Static,
    /// Driven by user-set positions.
    KinematicPositionBased,
    /// Driven by user-set velocities.
    KinematicVelocityBased,
}

impl RigidBodyType {
    /// Is the body fully simulated?
    pub open spec fn spec_is_dynamic(self) -> bool {
        self is Dynamic
    }

    /// Is the body fully simulated?
    pub fn is_dynamic(&self) -> (r: bool)
        ensures
            r == self.spec_is_dynamic(),
    {
        match self {
            RigidBodyType::Dynamic => true,
            _ => false,
        }
    }
}

/// Activation state: whether the body currently sleeps.  The thresholds
/// that decide when to fall asleep belong to the classification policy,
/// not to this core.
#[derive(Copy, Clone, Debug, PartialEq, Eq, Structural)]
pub struct RigidBodyActivation {
    /// `true` while the body is asleep and excluded from solving.
    pub sleeping: bool,
}

/// The cross-reference fields a body carries for this core.
#[derive(Copy, Clone, Debug, PartialEq, Eq, Structural)]
pub struct RigidBodyIds {
    /// Island the body currently belongs to, as reported by the island
    /// manager.
    pub active_island_id: usize,
    /// Cached position of the body's node in the joint graph, or the
    /// sentinel while the body has no joint.
    pub joint_graph_index: u32,
}

/// The components of one body that this core reads or writes.
#[derive(Copy, Clone, Debug, PartialEq, Eq, Structural)]
pub struct BodyComponents {
    /// Dynamics regime.
    pub body_type: RigidBodyType,
    /// Sleep state.
    pub activation: RigidBodyActivation,
    /// Cross-reference fields.
    pub ids: RigidBodyIds,
}

/// Body storage, reduced to the narrow read/write capability this core
/// consumes: bodies indexed by handle, with a writable cached graph index
/// and sleep flag.
#[derive(Clone, Debug)]
pub struct BodySet {
    /// The bodies, indexed by the handle's position.
    pub bodies: Vec<BodyComponents>,
}

impl View for BodySet {
    type V = Seq<BodyComponents>;

    /// The storage viewed as the sequence of its bodies.
    open spec fn view(&self) -> Seq<BodyComponents> {
        self.bodies@
    }
}

impl BodySet {
    /// A handle names a body of this storage.
    pub open spec fn spec_contains(self, h: RigidBodyHandle) -> bool {
        h.0 < self@.len()
    }

    /// Creates an empty storage.
    pub fn new() -> (r: BodySet)
        ensures
            r@.len() == 0,
    {
        BodySet { bodies: Vec::new() }
    }

    /// Number of bodies.
    pub fn len(&self) -> (r: usize)
        ensures
            r == self@.len(),
    {
        self.bodies.len()
    }

    /// Adds a body with no graph presence yet: its cached graph index is
    /// the sentinel until its first joint.
    pub fn push_body(
        &mut self,
        body_type: RigidBodyType,
        sleeping: bool,
        active_island_id: usize,
    ) -> (r: RigidBodyHandle)
        requires
            old(self)@.len() < 0xffff_ffff,
        ensures
            r.0 == old(self)@.len(),
            final(self)@ == old(self)@.push(
                BodyComponents {
                    body_type,
                    activation: RigidBodyActivation { sleeping },
                    ids: RigidBodyIds { active_island_id, joint_graph_index: crate::INVALID_U32 },
                },
            ),
    {
        let r = RigidBodyHandle(self.bodies.len() as u32);
        self.bodies.push(
            BodyComponents {
                body_type,
                activation: RigidBodyActivation { sleeping },
                ids: RigidBodyIds { active_island_id, joint_graph_index: crate::INVALID_U32 },
            },
        );
        r
    }

    /// Reads every component of a body at once.
    pub fn components(&self, h: RigidBodyHandle) -> (r: BodyComponents)
        requires
            self.spec_contains(h),
        ensures
            r == self@[h.0 as int],
    {
        self.bodies[h.0 as usize]
    }

    /// Reads a body's cached graph-node position.
    pub fn joint_graph_index(&self, h: RigidBodyHandle) -> (r: u32)
        requires
            self.spec_contains(h),
        ensures
            r == self@[h.0 as int].ids.joint_graph_index,
    {
        self.bodies[h.0 as usize].ids.joint_graph_index
    }

    /// Writes a body's cached graph-node position; the write is visible to
    /// every subsequent read.
    pub fn set_joint_graph_index(&mut self, h: RigidBodyHandle, index: u32)
        requires
            old(self).spec_contains(h),
        ensures
            final(self)@ == old(self)@.update(
                h.0 as int,
                BodyComponents {
                    ids: RigidBodyIds {
                        joint_graph_index: index,
                        ..old(self)@[h.0 as int].ids
                    },
                    ..old(self)@[h.0 as int]
                },
            ),
    {
        let b = &mut self.bodies[h.0 as usize];
        b.ids.joint_graph_index = index;
    }

    /// Clears a body's sleep flag.
    pub fn clear_sleeping(&mut self, h: RigidBodyHandle)
        requires
            old(self).spec_contains(h),
        ensures
            final(self)@ == old(self)@.update(
                h.0 as int,
                BodyComponents {
                    activation: RigidBodyActivation { sleeping: false },
                    ..old(self)@[h.0 as int]
                },
            ),
    {
        let b = &mut self.bodies[h.0 as usize];
        b.activation.sleeping = false;
    }

    /// Sets a body's sleep flag, as the sleep classification policy would.
    pub fn set_sleeping(&mut self, h: RigidBodyHandle, sleeping: bool)
        requires
            old(self).spec_contains(h),
        ensures
            final(self)@ == old(self)@.update(
                h.0 as int,
                BodyComponents {
                    activation: RigidBodyActivation { sleeping },
                    ..old(self)@[h.0 as int]
                },
            ),
    {
        let b = &mut self.bodies[h.0 as usize];
        b.activation.sleeping = sleeping;
    }
}

/// The island manager as this core sees it: it answers how many islands
/// exist and wakes a body on request.  Discovering islands and deciding
/// who sleeps is the collaborator's policy, none of it happens here.
#[derive(Clone, Debug)]
pub struct IslandManager {
    /// Number of islands the last classification produced.
    pub islands: usize,
}

impl IslandManager {
    /// Creates a manager reporting the given island count.
    pub fn new(num_islands: usize) -> (r: IslandManager)
        ensures
            r.islands == num_islands,
    {
        IslandManager { islands: num_islands }
    }

    /// Number of islands.
    pub fn num_islands(&self) -> (r: usize)
        ensures
            r == self.islands,
    {
        self.islands
    }

    /// Marks a body active so it is no longer excluded from solving.
    /// Propagation to the rest of the body's island is the classification
    /// policy's business; this core only guarantees the named body wakes.
    pub fn wake_up(&mut self, bodies: &mut BodySet, h: RigidBodyHandle, _strong: bool)
        requires
            old(bodies).spec_contains(h),
        ensures
            *final(self) == *old(self),
            final(bodies)@ == old(bodies)@.update(
                h.0 as int,
                BodyComponents {
                    activation: RigidBodyActivation { sleeping: false },
                    ..old(bodies)@[h.0 as int]
                },
            ),
    {
        bodies.clear_sleeping(h);
    }
}

} // verus!
