//! Identities and leaf data of the road network: intersections, lanes and
//! their kinds. Everything cross-references by identity through the owning
//! tables, never by direct reference.

use vstd::prelude::*;
use crate::geometry::Vec2;

verus! {

/// Identity of a road in the road table.
#[derive(Debug, PartialEq, Eq, Copy, Clone, Structural)]
pub struct RoadID(pub u64);

/// Identity of a lane in the lane table.
#[derive(Debug, PartialEq, Eq, Copy, Clone, Structural)]
pub struct LaneID(pub u64);

/// Identity of an intersection in the intersection table.
#[derive(Debug, PartialEq, Eq, Copy, Clone, Structural)]
pub struct IntersectionID(pub u64);

/// An intersection: identity and position. Roads reference it by identity
/// only.
#[derive(Debug, PartialEq, Eq, Copy, Clone, Structural)]
pub struct Intersection {
    pub id: IntersectionID,
    pub pos: Vec2,
}

/// What a lane carries; its width is derived from this.
#[derive(Debug, PartialEq, Eq, Copy, Clone, Structural)]
pub enum LaneKind {
    Driving,
    Walking,
    Parking,
    Rail,
}

impl LaneKind {
    /// The width of a lane of this kind, in geometry units.
    pub open spec fn spec_width(self) -> u64 {
        match self {
            LaneKind::Driving => 8,
            LaneKind::Walking => 4,
            LaneKind::Parking => 4,
            LaneKind::Rail => 10,
        }
    }

    pub fn width(self) -> (r: u64)
        ensures
            r == self.spec_width(),
    {
        match self {
            LaneKind::Driving => 8,
            LaneKind::Walking => 4,
            LaneKind::Parking => 4,
            LaneKind::Rail => 10,
        }
    }
}

/// Which way a lane runs along its road: forward is src to dst.
#[derive(Debug, PartialEq, Eq, Copy, Clone, Structural)]
pub enum LaneDirection {
    Forward,
    Backward,
}

/// The control state at the end of a lane.
#[derive(Debug, PartialEq, Eq, Copy, Clone, Structural)]
pub enum TrafficControl {
    Always,
    StopSign,
}

/// How many lanes of each kind exist in each direction of a road.
#[derive(Debug, PartialEq, Eq)]
pub struct LanePattern {
    pub lanes_forward: Vec<LaneKind>,
    pub lanes_backward: Vec<LaneKind>,
}

/// A lane, owned exclusively by its road and indexed through the lane
/// table.
#[derive(Debug, PartialEq, Eq, Clone)]
pub struct Lane {
    pub id: LaneID,

    /// The intersection the lane leaves, in its own direction of travel.
    pub src: IntersectionID,

    /// The intersection the lane arrives at.
    pub dst: IntersectionID,

    /// Scaled tangent at the `src` end.
    pub src_dir: Vec2,

    /// Scaled tangent at the `dst` end.
    pub dst_dir: Vec2,

    pub kind: LaneKind,

    /// The generated centerline, re-derived by geometry regeneration.
    pub points: Vec<Vec2>,

    pub width: u64,

    /// Length of the owning road when the lane was last generated.
    pub inter_length: u64,

    pub control: TrafficControl,
}

/// A parking spot attached to a lane at a distance along it.
#[derive(Debug, PartialEq, Eq, Copy, Clone, Structural)]
pub struct ParkingSpot {
    pub parent: LaneID,
    pub dist_along: u64,
}

} // verus!
