//! Poses, goal points, and the latest-pose cache.

use vstd::prelude::*;
use crate::COORD_LIMIT_MICRO;
use crate::angle::{yaw_from_quat_z, yaw_spec};

verus! {

/// A planar pose: position in micro-units and the z-component of the
/// orientation quaternion in micro-units (the only component a planar,
/// yaw-only rotation needs).
#[derive(Clone, Copy, Debug, PartialEq, Eq, Structural)]
pub struct Pose {
    pub x: i64,
    pub y: i64,
    pub qz: i64,
}

impl Pose {
    /// The position lies within the coordinate range the library accepts.
    /// The orientation component is unconstrained: a degenerate value is
    /// accepted as-is and clamped only when the yaw is extracted.
    pub open spec fn wf(self) -> bool {
        &&& -COORD_LIMIT_MICRO <= self.x <= COORD_LIMIT_MICRO
        &&& -COORD_LIMIT_MICRO <= self.y <= COORD_LIMIT_MICRO
    }

    /// The planar angle this pose's orientation encodes, in micro-radians.
    pub open spec fn yaw(self) -> int {
        yaw_spec(self.qz as int)
    }
}

/// The destination point of one navigation episode, in micro-units.
/// Immutable for the whole episode.
#[derive(Clone, Copy, Debug, PartialEq, Eq, Structural)]
pub struct GoalPoint {
    pub x: i64,
    pub y: i64,
}

impl GoalPoint {
    /// The goal lies within the coordinate range the library accepts.
    pub open spec fn wf(self) -> bool {
        &&& -COORD_LIMIT_MICRO <= self.x <= COORD_LIMIT_MICRO
        &&& -COORD_LIMIT_MICRO <= self.y <= COORD_LIMIT_MICRO
    }
}

/// A single-slot cache of the most recently received pose. Every update
/// overwrites the whole value: last write wins, no validation, no merging.
/// An embedding program that shares the tracker between a feed thread and
/// the control loop guards it with a lock of its own.
pub struct PoseTracker {
    latest: Option<Pose>,
}

impl View for PoseTracker {
    type V = Option<Pose>;

    closed spec fn view(&self) -> Option<Pose> {
        self.latest
    }
}

impl PoseTracker {
    /// An empty tracker: no pose has arrived yet.
    pub fn new() -> (t: PoseTracker)
        ensures
            t@ is None,
    {
        PoseTracker { latest: None }
    }

    /// Record a new pose, unconditionally replacing the previous value.
    pub fn update(&mut self, p: Pose)
        ensures
            final(self)@ == Some(p),
    {
        self.latest = Some(p);
    }

    /// The current pose, or `None` if no update has ever occurred.
    pub fn read(&self) -> (r: Option<Pose>)
        ensures
            r == self@,
    {
        self.latest
    }

    /// The planar angle of the current pose, or `None` if no pose yet.
    pub fn angle(&self) -> (r: Option<i64>)
        ensures
            match self@ {
                None => r is None,
                Some(p) => r matches Some(a) && a == p.yaw(),
            },
    {
        match self.latest {
            None => None,
            Some(p) => Some(yaw_from_quat_z(p.qz)),
        }
    }
}

} // verus!
