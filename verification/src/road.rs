//! Roads: an ordered polyline between two intersections, per-endpoint
//! interface pull-backs, and the per-direction lanes generated from them.

use vstd::prelude::*;
use crate::geometry::{PolyLine, Spline, Vec2, spec_offset_point, spec_scaled_dir, DIR_SCALE};
use crate::lanes::{
    Intersection, IntersectionID, Lane, LaneDirection, LaneID, LaneKind, LanePattern, ParkingSpot,
    RoadID, TrafficControl,
};
use crate::tables::{Intersections, Lanes, Roads};

verus! {

/// A road between two intersections. Its cached `length` and `width` are
/// kept in sync with the polyline and the lanes by geometry regeneration.
#[derive(Debug, PartialEq, Eq)]
pub struct Road {
    pub id: RoadID,
    pub src: IntersectionID,
    pub dst: IntersectionID,

    /// The ordered polyline the road follows.
    pub major_interpolation_points: PolyLine,

    /// Cached length of the polyline, regenerated with the geometry.
    pub length: u64,

    /// Cached sum of the widths of all lanes, regenerated with the
    /// geometry.
    pub width: u64,

    /// How far usable lane geometry is pulled back from the raw `src`
    /// point.
    pub src_interface: u64,

    /// How far usable lane geometry is pulled back from the raw `dst`
    /// point.
    pub dst_interface: u64,

    /// Lanes running src to dst, outermost first.
    pub lanes_forward: Vec<LaneID>,

    /// Lanes running dst to src, innermost first.
    pub lanes_backward: Vec<LaneID>,

    pub parking_spots: Vec<ParkingSpot>,

    pub lane_pattern: LanePattern,
}

impl Road {
    /// The endpoint `id` is one of the road's two intersections. Asking
    /// anything of an unconnected intersection is a programming error, so
    /// every endpoint query requires this.
    pub open spec fn connects(self, id: IntersectionID) -> bool {
        id == self.src || id == self.dst
    }

    /// The requested pull-back at `id`, before clamping.
    pub open spec fn spec_raw_interface(self, id: IntersectionID) -> int {
        if id == self.src {
            self.src_interface as int
        } else {
            self.dst_interface as int
        }
    }

    /// The requested pull-back at the endpoint opposite `id`.
    pub open spec fn spec_other_interface(self, id: IntersectionID) -> int {
        if id == self.src {
            self.dst_interface as int
        } else {
            self.src_interface as int
        }
    }

    /// The effective pull-back at `id`: clamped so that the two endpoints'
    /// interfaces never together exceed `length - 1`. If both requests
    /// exceed half the usable length each gets exactly half; if only this
    /// one does, it gets what the other leaves free; otherwise the raw
    /// request stands.
    pub open spec fn spec_interface_from(self, id: IntersectionID) -> int {
        let my = self.spec_raw_interface(id);
        let other = self.spec_other_interface(id);
        let l = self.length - 1;
        let half = l / 2;
        if my + other > l {
            if my > half && other > half {
                half
            } else if my > half {
                l - other
            } else {
                my
            }
        } else {
            my
        }
    }

    pub fn interface_from(&self, id: IntersectionID) -> (r: u64)
        requires
            self.connects(id),
            self.length >= 1,
        ensures
            r == self.spec_interface_from(id),
    {
        let my: u64 = if id == self.src {
            self.src_interface
        } else {
            self.dst_interface
        };
        let other: u64 = if id == self.src {
            self.dst_interface
        } else {
            self.src_interface
        };
        let l: u64 = self.length - 1;
        let half: u64 = l / 2;
        if (my as u128) + (other as u128) > l as u128 {
            if my > half && other > half {
                half
            } else if my > half {
                l - other
            } else {
                my
            }
        } else {
            my
        }
    }

    /// Sets the requested pull-back at endpoint `id`.
    pub fn set_interface(&mut self, id: IntersectionID, v: u64)
        requires
            old(self).connects(id),
        ensures
            id == old(self).src ==> *final(self) == (Road { src_interface: v, ..*old(self) }),
            id != old(self).src ==> *final(self) == (Road { dst_interface: v, ..*old(self) }),
    {
        if id == self.src {
            self.src_interface = v;
        } else {
            self.dst_interface = v;
        }
    }

    /// Raises the requested pull-back at endpoint `id` to at least `v`.
    pub fn max_interface(&mut self, id: IntersectionID, v: u64)
        requires
            old(self).connects(id),
        ensures
            id == old(self).src ==> *final(self) == (Road {
                src_interface: if old(self).src_interface >= v {
                    old(self).src_interface
                } else {
                    v
                },
                ..*old(self)
            }),
            id != old(self).src ==> *final(self) == (Road {
                dst_interface: if old(self).dst_interface >= v {
                    old(self).dst_interface
                } else {
                    v
                },
                ..*old(self)
            }),
    {
        if id == self.src {
            if self.src_interface < v {
                self.src_interface = v;
            }
        } else {
            if self.dst_interface < v {
                self.dst_interface = v;
            }
        }
    }

    /// The scaled direction the road leaves endpoint `id` with.
    pub open spec fn spec_orientation_from(self, id: IntersectionID) -> Vec2 {
        let pts = self.major_interpolation_points.points@;
        if id == self.src {
            spec_scaled_dir(pts[0], pts[1])->Some_0
        } else {
            let d = spec_scaled_dir(pts[pts.len() - 2], pts[pts.len() - 1])->Some_0;
            Vec2 { x: (-d.x) as i64, y: (-d.y) as i64 }
        }
    }

    /// The first and last polyline segments have a direction.
    pub open spec fn has_dirs(self) -> bool {
        let pts = self.major_interpolation_points.points@;
        &&& spec_scaled_dir(pts[0], pts[1]) is Some
        &&& spec_scaled_dir(pts[pts.len() - 2], pts[pts.len() - 1]) is Some
    }

    pub fn orientation_from(&self, id: IntersectionID) -> (r: Vec2)
        requires
            self.connects(id),
            self.major_interpolation_points.wf(),
            self.has_dirs(),
        ensures
            r == self.spec_orientation_from(id),
            -DIR_SCALE <= r.x <= DIR_SCALE,
            -DIR_SCALE <= r.y <= DIR_SCALE,
    {
        proof {
            let pts = self.major_interpolation_points.points@;
            crate::geometry::lemma_scaled_dir_bounds(pts[0], pts[1]);
            crate::geometry::lemma_scaled_dir_bounds(pts[pts.len() - 2], pts[pts.len() - 1]);
        }
        if id == self.src {
            match self.major_interpolation_points.first_dir() {
                Option::Some(d) => d,
                Option::None => unreached(),
            }
        } else {
            match self.major_interpolation_points.last_dir() {
                Option::Some(d) => crate::geometry::neg_dir(d),
                Option::None => unreached(),
            }
        }
    }

    pub fn is_one_way(&self) -> (r: bool)
        ensures
            r == (self.lanes_forward@.len() == 0 || self.lanes_backward@.len() == 0),
    {
        self.lanes_forward.len() == 0 || self.lanes_backward.len() == 0
    }

    pub fn n_lanes(&self) -> (r: usize)
        requires
            self.lanes_forward@.len() + self.lanes_backward@.len() <= usize::MAX,
        ensures
            r == self.lanes_forward@.len() + self.lanes_backward@.len(),
    {
        self.lanes_backward.len() + self.lanes_forward.len()
    }

    /// The order lanes sit across the road, from one side to the other:
    /// forward lanes reversed, then backward lanes.
    pub open spec fn spec_lanes_order(self) -> Seq<LaneID> {
        self.lanes_forward@.reverse() + self.lanes_backward@
    }

    /// All lanes of the road, in the order they sit across it.
    pub fn lanes_iter(&self) -> (r: Vec<LaneID>)
        ensures
            r@ == self.spec_lanes_order(),
    {
        let mut out: Vec<LaneID> = Vec::new();
        let nf: usize = self.lanes_forward.len();
        let mut i: usize = 0;
        while i < nf
            invariant
                i <= nf,
                nf == self.lanes_forward@.len(),
                out@ =~= self.lanes_forward@.subrange(nf - i, nf as int).reverse(),
            decreases nf - i,
        {
            out.push(self.lanes_forward[nf - 1 - i]);
            proof {
                assert(out@ =~= self.lanes_forward@.subrange(nf - i - 1, nf as int).reverse());
            }
            i = i + 1;
        }
        proof {
            assert(self.lanes_forward@.subrange(0, nf as int) =~= self.lanes_forward@);
        }
        let nb: usize = self.lanes_backward.len();
        let mut j: usize = 0;
        while j < nb
            invariant
                j <= nb,
                nb == self.lanes_backward@.len(),
                out@ =~= self.lanes_forward@.reverse() + self.lanes_backward@.subrange(0, j as int),
            decreases nb - j,
        {
            out.push(self.lanes_backward[j]);
            proof {
                assert(out@ =~= self.lanes_forward@.reverse() + self.lanes_backward@.subrange(
                    0,
                    j + 1,
                ));
            }
            j = j + 1;
        }
        proof {
            assert(self.lanes_backward@.subrange(0, nb as int) =~= self.lanes_backward@);
        }
        out
    }

    /// The lanes arriving at endpoint `id`.
    pub fn incoming_lanes_to(&self, id: IntersectionID) -> (r: &Vec<LaneID>)
        requires
            self.connects(id),
        ensures
            id == self.src ==> r@ == self.lanes_backward@,
            id != self.src ==> r@ == self.lanes_forward@,
    {
        if id == self.src {
            &self.lanes_backward
        } else {
            &self.lanes_forward
        }
    }

    /// The lanes leaving endpoint `id`.
    pub fn outgoing_lanes_from(&self, id: IntersectionID) -> (r: &Vec<LaneID>)
        requires
            self.connects(id),
        ensures
            id == self.src ==> r@ == self.lanes_forward@,
            id != self.src ==> r@ == self.lanes_backward@,
    {
        if id == self.src {
            &self.lanes_forward
        } else {
            &self.lanes_backward
        }
    }

    pub fn interpolation_points(&self) -> (r: &PolyLine)
        ensures
            *r == self.major_interpolation_points,
    {
        &self.major_interpolation_points
    }

    pub fn interpolation_points_owned(self) -> (r: PolyLine)
        ensures
            r == self.major_interpolation_points,
    {
        self.major_interpolation_points
    }

    pub fn src_point(&self) -> (r: Vec2)
        requires
            self.major_interpolation_points.points@.len() >= 1,
        ensures
            r == self.major_interpolation_points.points@[0],
    {
        self.major_interpolation_points.first()
    }

    pub fn dst_point(&self) -> (r: Vec2)
        requires
            self.major_interpolation_points.points@.len() >= 1,
        ensures
            r == self.major_interpolation_points.points@[self.major_interpolation_points.points@.len()
                - 1],
    {
        self.major_interpolation_points.last()
    }

    /// The endpoint opposite `my_end`.
    pub fn other_end(&self, my_end: IntersectionID) -> (r: IntersectionID)
        requires
            self.connects(my_end),
        ensures
            my_end == self.src ==> r == self.dst,
            my_end != self.src ==> r == self.src,
    {
        if self.src == my_end {
            self.dst
        } else {
            self.src
        }
    }
}

/// Copies a vector of plain values element by element.
pub fn copy_vec<T: Copy>(v: &Vec<T>) -> (r: Vec<T>)
    ensures
        r@ == v@,
{
    let mut out: Vec<T> = Vec::new();
    let n: usize = v.len();
    let mut i: usize = 0;
    while i < n
        invariant
            i <= n,
            n == v@.len(),
            out@ =~= v@.subrange(0, i as int),
        decreases n - i,
    {
        out.push(v[i]);
        proof {
            assert(out@ =~= v@.subrange(0, i + 1));
        }
        i = i + 1;
    }
    proof {
        assert(v@.subrange(0, n as int) =~= v@);
    }
    out
}

impl Clone for PolyLine {
    fn clone(&self) -> (res: PolyLine)
        ensures
            res.points@ == self.points@,
    {
        PolyLine { points: copy_vec(&self.points) }
    }
}

impl Clone for LanePattern {
    fn clone(&self) -> (res: LanePattern)
        ensures
            res.lanes_forward@ == self.lanes_forward@,
            res.lanes_backward@ == self.lanes_backward@,
    {
        LanePattern {
            lanes_forward: copy_vec(&self.lanes_forward),
            lanes_backward: copy_vec(&self.lanes_backward),
        }
    }
}

/// The two roads hold the same data: equal plain fields and, field by
/// field, equal contents of the vectors.
pub open spec fn same_road(a: Road, b: Road) -> bool {
    &&& a.id == b.id
    &&& a.src == b.src
    &&& a.dst == b.dst
    &&& a.major_interpolation_points.points@ == b.major_interpolation_points.points@
    &&& a.length == b.length
    &&& a.width == b.width
    &&& a.src_interface == b.src_interface
    &&& a.dst_interface == b.dst_interface
    &&& a.lanes_forward@ == b.lanes_forward@
    &&& a.lanes_backward@ == b.lanes_backward@
    &&& a.parking_spots@ == b.parking_spots@
    &&& a.lane_pattern.lanes_forward@ == b.lane_pattern.lanes_forward@
    &&& a.lane_pattern.lanes_backward@ == b.lane_pattern.lanes_backward@
}

impl Clone for Road {
    fn clone(&self) -> (res: Road)
        ensures
            same_road(res, *self),
    {
        Road {
            id: self.id,
            src: self.src,
            dst: self.dst,
            major_interpolation_points: self.major_interpolation_points.clone(),
            length: self.length,
            width: self.width,
            src_interface: self.src_interface,
            dst_interface: self.dst_interface,
            lanes_forward: copy_vec(&self.lanes_forward),
            lanes_backward: copy_vec(&self.lanes_backward),
            parking_spots: copy_vec(&self.parking_spots),
            lane_pattern: self.lane_pattern.clone(),
        }
    }
}

impl Road {
    /// The lane `add_lane` creates for direction `direction`: endpoints and
    /// tangents follow the direction of travel; the centerline is empty
    /// until geometry regeneration fills it.
    pub open spec fn is_new_lane(
        self,
        l: Lane,
        lane_type: LaneKind,
        direction: LaneDirection,
        id: LaneID,
    ) -> bool {
        let fwd = self.spec_orientation_from(self.src);
        let back = self.spec_orientation_from(self.dst);
        &&& l.id == id
        &&& l.src == if direction == LaneDirection::Forward {
            self.src
        } else {
            self.dst
        }
        &&& l.dst == if direction == LaneDirection::Forward {
            self.dst
        } else {
            self.src
        }
        &&& l.src_dir == if direction == LaneDirection::Forward {
            fwd
        } else {
            back
        }
        &&& l.dst_dir == if direction == LaneDirection::Forward {
            back
        } else {
            fwd
        }
        &&& l.kind == lane_type
        &&& l.points@.len() == 0
        &&& l.width == lane_type.spec_width()
        &&& l.inter_length == self.length
        &&& l.control == TrafficControl::Always
    }

    /// Creates one lane of the given kind and direction, stores it in the
    /// lane table and records it on the road.
    pub fn add_lane(&mut self, store: &mut Lanes, lane_type: LaneKind, direction: LaneDirection)
        -> (id: LaneID)
        requires
            old(self).major_interpolation_points.wf(),
            old(self).has_dirs(),
            old(self).src != old(self).dst,
            old(store)@.dom().finite(),
            old(store)@.len() < 0xfffffffe,
        ensures
            !old(store)@.dom().contains(id.0),
            final(store)@.dom() == old(store)@.dom().insert(id.0),
            final(store)@.dom().finite(),
            forall|k: u64| #[trigger]
                old(store)@.dom().contains(k) ==> final(store)@[k] == old(store)@[k],
            old(self).is_new_lane(final(store)@[id.0], lane_type, direction, id),
            direction == LaneDirection::Forward ==> final(self).lanes_forward@ == old(
                self,
            ).lanes_forward@.push(id) && final(self).lanes_backward == old(self).lanes_backward,
            direction == LaneDirection::Backward ==> final(self).lanes_backward@ == old(
                self,
            ).lanes_backward@.push(id) && final(self).lanes_forward == old(self).lanes_forward,
            final(self).id == old(self).id,
            final(self).src == old(self).src,
            final(self).dst == old(self).dst,
            final(self).major_interpolation_points == old(self).major_interpolation_points,
            final(self).length == old(self).length,
            final(self).width == old(self).width,
            final(self).src_interface == old(self).src_interface,
            final(self).dst_interface == old(self).dst_interface,
            final(self).parking_spots == old(self).parking_spots,
            final(self).lane_pattern == old(self).lane_pattern,
    {
        let src_dir: Vec2 = self.orientation_from(self.src);
        let dst_dir: Vec2 = self.orientation_from(self.dst);

        let (lane_src, lane_dst, lane_src_dir, lane_dst_dir): (
            IntersectionID,
            IntersectionID,
            Vec2,
            Vec2,
        ) = match direction {
            LaneDirection::Forward => (self.src, self.dst, src_dir, dst_dir),
            LaneDirection::Backward => (self.dst, self.src, dst_dir, src_dir),
        };
        let lane = Lane {
            id: LaneID(0),
            src: lane_src,
            dst: lane_dst,
            src_dir: lane_src_dir,
            dst_dir: lane_dst_dir,
            kind: lane_type,
            points: Vec::new(),
            width: lane_type.width(),
            inter_length: self.length,
            control: TrafficControl::Always,
        };
        let k: u64 = store.insert(lane);
        let id = LaneID(k);
        let fixed = Lane {
            id,
            src: lane_src,
            dst: lane_dst,
            src_dir: lane_src_dir,
            dst_dir: lane_dst_dir,
            kind: lane_type,
            points: Vec::new(),
            width: lane_type.width(),
            inter_length: self.length,
            control: TrafficControl::Always,
        };
        store.set(k, fixed);
        match direction {
            LaneDirection::Forward => self.lanes_forward.push(id),
            LaneDirection::Backward => self.lanes_backward.push(id),
        }
        id
    }
}

/// The direction of the polyline at point `i`: the segment leaving it, or
/// the one arriving for the last point; zero for a degenerate segment.
pub open spec fn spec_dir_at(pts: Seq<Vec2>, i: int) -> Vec2 {
    let j = if i < pts.len() - 1 {
        i
    } else {
        i - 1
    };
    match spec_scaled_dir(pts[j], pts[j + 1]) {
        Option::Some(d) => d,
        Option::None => Vec2 { x: 0, y: 0 },
    }
}

/// Every polyline point moved `off` units along its left normal.
pub open spec fn spec_offset_points(pts: Seq<Vec2>, off: int) -> Seq<Vec2> {
    Seq::new(pts.len(), |i: int| spec_offset_point(pts[i], spec_dir_at(pts, i), off))
}

/// The centerline of a lane at lateral offset `off`: the offset polyline,
/// reversed for a backward lane so it runs in the direction of travel.
pub open spec fn spec_lane_points(pts: Seq<Vec2>, off: int, backward: bool) -> Seq<Vec2> {
    if backward {
        spec_offset_points(pts, off).reverse()
    } else {
        spec_offset_points(pts, off)
    }
}

/// Computes the centerline of one lane of the road polyline `pl`.
pub fn gen_lane_points(pl: &PolyLine, off: u64, backward: bool) -> (r: Vec<Vec2>)
    requires
        pl.wf(),
        off <= 0x10000,
    ensures
        r@ == spec_lane_points(pl.points@, off as int, backward),
{
    let n: usize = pl.n_points();
    let mut out: Vec<Vec2> = Vec::new();
    let mut i: usize = 0;
    while i < n
        invariant
            i <= n,
            n == pl.points@.len(),
            pl.wf(),
            off <= 0x10000,
            out@ =~= spec_offset_points(pl.points@, off as int).subrange(0, i as int),
        decreases n - i,
    {
        let j: usize = if i < n - 1 {
            i
        } else {
            i - 1
        };
        let d: Option<Vec2> = crate::geometry::scaled_dir(pl.get(j), pl.get(j + 1));
        let dir: Vec2 = match d {
            Option::Some(v) => {
                proof {
                    crate::geometry::lemma_scaled_dir_bounds(
                        pl.points@[j as int],
                        pl.points@[j + 1],
                    );
                }
                v
            },
            Option::None => Vec2 { x: 0, y: 0 },
        };
        out.push(crate::geometry::offset_point(pl.get(i), dir, off as i64));
        proof {
            assert(out@ =~= spec_offset_points(pl.points@, off as int).subrange(0, i + 1));
        }
        i = i + 1;
    }
    proof {
        assert(spec_offset_points(pl.points@, off as int).subrange(0, n as int)
            =~= spec_offset_points(pl.points@, off as int));
    }
    if backward {
        let mut rev: Vec<Vec2> = Vec::new();
        let mut k: usize = 0;
        while k < n
            invariant
                k <= n,
                n == out@.len(),
                rev@ =~= out@.reverse().subrange(0, k as int),
            decreases n - k,
        {
            rev.push(out[n - 1 - k]);
            proof {
                assert(rev@ =~= out@.reverse().subrange(0, k + 1));
            }
            k = k + 1;
        }
        proof {
            assert(out@.reverse().subrange(0, n as int) =~= out@.reverse());
        }
        rev
    } else {
        out
    }
}

/// The summed widths of the first `i` lanes of `order` in the table `t`.
pub open spec fn spec_width_prefix(order: Seq<LaneID>, t: Map<u64, Lane>, i: int) -> int
    decreases i,
{
    if i <= 0 {
        0
    } else {
        spec_width_prefix(order, t, i - 1) + t[order[i - 1].0].width
    }
}

/// `new_l` is `old_l` regenerated against the road polyline `pts`: same
/// identity and static data, centerline re-derived at lateral offset
/// `off`, and the cached road length refreshed.
pub open spec fn is_regen_lane(
    old_l: Lane,
    new_l: Lane,
    pts: Seq<Vec2>,
    off: int,
    road_src: IntersectionID,
    new_len: u64,
) -> bool {
    &&& new_l.id == old_l.id
    &&& new_l.src == old_l.src
    &&& new_l.dst == old_l.dst
    &&& new_l.src_dir == old_l.src_dir
    &&& new_l.dst_dir == old_l.dst_dir
    &&& new_l.kind == old_l.kind
    &&& new_l.points@ == spec_lane_points(pts, off, old_l.src != road_src)
    &&& new_l.width == old_l.width
    &&& new_l.inter_length == new_len
    &&& new_l.control == old_l.control
}

impl Road {
    /// The road polyline with its endpoints snapped to the current
    /// positions of the two intersections.
    pub open spec fn spec_snapped(self, it: Map<u64, Intersection>) -> Seq<Vec2> {
        self.major_interpolation_points.points@.update(0, it[self.src.0].pos).update(
            self.major_interpolation_points.points@.len() - 1,
            it[self.dst.0].pos,
        )
    }

    /// Everything gen_pos needs of the tables: endpoints present and in
    /// bounds, every listed lane present, listed once, of bounded width
    /// and count.
    pub open spec fn regen_pre(self, it: Map<u64, Intersection>, lt: Map<u64, Lane>) -> bool {
        let order = self.spec_lanes_order();
        &&& it.dom().contains(self.src.0)
        &&& it.dom().contains(self.dst.0)
        &&& it[self.src.0].pos.in_bounds()
        &&& it[self.dst.0].pos.in_bounds()
        &&& order.len() <= 0x1000
        &&& forall|i: int| 0 <= i < order.len() ==> lt.dom().contains(#[trigger] order[i].0)
        &&& forall|i: int| 0 <= i < order.len() ==> #[trigger] lt[order[i].0].width <= 16
        &&& forall|i: int, j: int| 0 <= i < j < order.len() ==> order[i] != order[j]
    }

    /// Recomputes endpoint positions, total length, total width, and every
    /// lane's centerline with its lateral offset accumulated from one side
    /// of the road outward.
    pub fn gen_pos(&mut self, intersections: &Intersections, lanes: &mut Lanes)
        requires
            old(self).major_interpolation_points.wf(),
            old(self).regen_pre(intersections@, old(lanes)@),
        ensures
            final(self).major_interpolation_points.points@ == old(self).spec_snapped(
                intersections@,
            ),
            final(self).major_interpolation_points.wf(),
            final(self).length == crate::geometry::spec_length_prefix(
                old(self).spec_snapped(intersections@),
                old(self).spec_snapped(intersections@).len() as int,
            ),
            final(self).width == spec_width_prefix(
                old(self).spec_lanes_order(),
                old(lanes)@,
                old(self).spec_lanes_order().len() as int,
            ),
            final(self).id == old(self).id,
            final(self).src == old(self).src,
            final(self).dst == old(self).dst,
            final(self).src_interface == old(self).src_interface,
            final(self).dst_interface == old(self).dst_interface,
            final(self).lanes_forward == old(self).lanes_forward,
            final(self).lanes_backward == old(self).lanes_backward,
            final(self).parking_spots == old(self).parking_spots,
            final(self).lane_pattern == old(self).lane_pattern,
            final(lanes)@.dom() == old(lanes)@.dom(),
            forall|k: u64|
                old(lanes)@.dom().contains(k) && !old(self).spec_lanes_order().contains(LaneID(k))
                    ==> final(lanes)@[k] == old(lanes)@[k],
            forall|i: int|
                0 <= i < old(self).spec_lanes_order().len() ==> is_regen_lane(
                    old(lanes)@[#[trigger] old(self).spec_lanes_order()[i].0],
                    final(lanes)@[old(self).spec_lanes_order()[i].0],
                    old(self).spec_snapped(intersections@),
                    spec_width_prefix(old(self).spec_lanes_order(), old(lanes)@, i) + old(
                        lanes,
                    )@[old(self).spec_lanes_order()[i].0].width / 2,
                    old(self).src,
                    final(self).length,
                ),
    {
        let ghost order_g = old(self).spec_lanes_order();
        let ghost old_table = lanes@;
        let src_pos: Vec2 = intersections.get(self.src.0).pos;
        let dst_pos: Vec2 = intersections.get(self.dst.0).pos;
        self.major_interpolation_points.set_first(src_pos);
        self.major_interpolation_points.set_last(dst_pos);
        proof {
            assert(self.major_interpolation_points.points@ =~= old(self).spec_snapped(
                intersections@,
            ));
            assert forall|i: int|
                0 <= i < self.major_interpolation_points.points@.len() implies #[trigger] self
                .major_interpolation_points.points@[i].in_bounds() by {
                assert(old(self).major_interpolation_points.points@[i].in_bounds());
            }
        }
        self.length = self.major_interpolation_points.length();

        let order: Vec<LaneID> = self.lanes_iter();
        let n: usize = order.len();

        let mut total: u64 = 0;
        let mut i: usize = 0;
        while i < n
            invariant
                i <= n,
                n == order_g.len(),
                order@ == order_g,
                lanes@ == old_table,
                old(self).regen_pre(intersections@, old_table),
                order_g == old(self).spec_lanes_order(),
                total == spec_width_prefix(order_g, old_table, i as int),
                total <= 16 * i,
            decreases n - i,
        {
            total = total + lanes.get(order[i].0).width;
            i = i + 1;
        }
        self.width = total;

        let ghost snapped = self.major_interpolation_points.points@;
        let ghost new_len = self.length;
        let mut dist_from_bottom: u64 = 0;
        let mut j: usize = 0;
        while j < n
            invariant
                j <= n,
                n == order_g.len(),
                order@ == order_g,
                old(self).regen_pre(intersections@, old_table),
                order_g == old(self).spec_lanes_order(),
                self.major_interpolation_points.points@ == snapped,
                self.major_interpolation_points.wf(),
                self.length == new_len,
                self.src == old(self).src,
                dist_from_bottom == spec_width_prefix(order_g, old_table, j as int),
                dist_from_bottom <= 16 * j,
                lanes@.dom() == old_table.dom(),
                forall|k: u64|
                    old_table.dom().contains(k) && !order_g.contains(LaneID(k))
                        ==> lanes@[k] == old_table[k],
                forall|m: int|
                    j <= m < n ==> lanes@[#[trigger] order_g[m].0] == old_table[order_g[m].0],
                forall|m: int|
                    0 <= m < j ==> is_regen_lane(
                        old_table[#[trigger] order_g[m].0],
                        lanes@[order_g[m].0],
                        snapped,
                        spec_width_prefix(order_g, old_table, m) + old_table[order_g[m].0].width
                            / 2,
                        old(self).src,
                        new_len,
                    ),
            decreases n - j,
        {
            let id: u64 = order[j].0;
            let w: u64 = lanes.get(id).width;
            let off: u64 = dist_from_bottom + w / 2;
            let backward: bool = lanes.get(id).src != self.src;
            let new_points: Vec<Vec2> = gen_lane_points(
                &self.major_interpolation_points,
                off,
                backward,
            );
            let (l_id, l_src, l_dst, l_src_dir, l_dst_dir, l_kind, l_control): (
                LaneID,
                IntersectionID,
                IntersectionID,
                Vec2,
                Vec2,
                LaneKind,
                TrafficControl,
            ) = {
                let ol: &Lane = lanes.get(id);
                (ol.id, ol.src, ol.dst, ol.src_dir, ol.dst_dir, ol.kind, ol.control)
            };
            let new_lane = Lane {
                id: l_id,
                src: l_src,
                dst: l_dst,
                src_dir: l_src_dir,
                dst_dir: l_dst_dir,
                kind: l_kind,
                points: new_points,
                width: w,
                inter_length: self.length,
                control: l_control,
            };
            lanes.set(id, new_lane);
            proof {
                assert(lanes@.dom() =~= old_table.dom());
            }
            dist_from_bottom = dist_from_bottom + w;
            j = j + 1;
        }
    }
}

/// The polyline can carry a road: well formed, with real first and last
/// segments.
pub open spec fn buildable_polyline(pl: PolyLine) -> bool {
    &&& pl.wf()
    &&& spec_scaled_dir(pl.points@[0], pl.points@[1]) is Some
    &&& spec_scaled_dir(pl.points@[pl.points@.len() - 2], pl.points@[pl.points@.len() - 1]) is Some
}

/// What `make` leaves in the road table under the new identity: a road
/// whose lanes follow the pattern in order and direction, whose cached
/// length and width match the snapped polyline and the lanes, and whose
/// lane centerlines are generated at accumulated lateral offsets.
pub open spec fn is_built_road(
    r: Road,
    lt: Map<u64, Lane>,
    rid: RoadID,
    src: IntersectionID,
    dst: IntersectionID,
    pattern: LanePattern,
    it: Map<u64, Intersection>,
) -> bool {
    let pts = r.major_interpolation_points.points@;
    let order = r.spec_lanes_order();
    &&& r.id == rid
    &&& r.src == src
    &&& r.dst == dst
    &&& r.src_interface == 9
    &&& r.dst_interface == 9
    &&& r.lane_pattern.lanes_forward@ == pattern.lanes_forward@
    &&& r.lane_pattern.lanes_backward@ == pattern.lanes_backward@
    &&& r.parking_spots@.len() == 0
    &&& r.lanes_forward@.len() == pattern.lanes_forward@.len()
    &&& r.lanes_backward@.len() == pattern.lanes_backward@.len()
    &&& pts.len() >= 2
    &&& pts[0] == it[src.0].pos
    &&& pts[pts.len() - 1] == it[dst.0].pos
    &&& r.length == crate::geometry::spec_length_prefix(pts, pts.len() as int)
    &&& r.width == spec_width_prefix(order, lt, order.len() as int)
    &&& forall|i: int, j: int| 0 <= i < j < order.len() ==> order[i] != order[j]
    &&& forall|i: int|
        0 <= i < r.lanes_forward@.len() ==> {
            let l = lt[(#[trigger] r.lanes_forward@[i]).0];
            &&& lt.dom().contains(r.lanes_forward@[i].0)
            &&& l.id == r.lanes_forward@[i]
            &&& l.kind == pattern.lanes_forward@[i]
            &&& l.width == pattern.lanes_forward@[i].spec_width()
            &&& l.src == src
            &&& l.dst == dst
        }
    &&& forall|i: int|
        0 <= i < r.lanes_backward@.len() ==> {
            let l = lt[(#[trigger] r.lanes_backward@[i]).0];
            &&& lt.dom().contains(r.lanes_backward@[i].0)
            &&& l.id == r.lanes_backward@[i]
            &&& l.kind == pattern.lanes_backward@[i]
            &&& l.width == pattern.lanes_backward@[i].spec_width()
            &&& l.src == dst
            &&& l.dst == src
        }
    &&& forall|i: int|
        0 <= i < order.len() ==> {
            let l = lt[(#[trigger] order[i]).0];
            &&& l.points@ == spec_lane_points(
                pts,
                spec_width_prefix(order, lt, i) + l.width / 2,
                l.src != src,
            )
            &&& l.inter_length == r.length
            &&& l.control == TrafficControl::Always
        }
}

impl Road {
    /// Builds the road and its associated lanes: creates each requested
    /// lane in order, then computes the geometry. A pattern with no lanes
    /// at all is allowed and yields a walkable-only road skeleton.
    #[verifier::rlimit(100)]
    pub fn make(
        src: IntersectionID,
        dst: IntersectionID,
        interpolation_points: PolyLine,
        lane_pattern: LanePattern,
        intersections: &Intersections,
        lanes: &mut Lanes,
        store: &mut Roads,
    ) -> (rid: RoadID)
        requires
            buildable_polyline(interpolation_points),
            src != dst,
            intersections@.dom().contains(src.0),
            intersections@.dom().contains(dst.0),
            intersections@[src.0].pos.in_bounds(),
            intersections@[dst.0].pos.in_bounds(),
            lane_pattern.lanes_forward@.len() + lane_pattern.lanes_backward@.len() <= 0x1000,
            old(lanes)@.dom().finite(),
            old(lanes)@.len() + 0x1000 < 0xfffffffe,
            old(store)@.dom().finite(),
            old(store)@.len() < 0xfffffffe,
        ensures
            !old(store)@.dom().contains(rid.0),
            final(store)@.dom() == old(store)@.dom().insert(rid.0),
            final(store)@.dom().finite(),
            forall|k: u64| #[trigger]
                old(store)@.dom().contains(k) ==> final(store)@[k] == old(store)@[k],
            is_built_road(
                final(store)@[rid.0],
                final(lanes)@,
                rid,
                src,
                dst,
                lane_pattern,
                intersections@,
            ),
            final(lanes)@.dom().finite(),
            forall|k: u64| #[trigger]
                old(lanes)@.dom().contains(k) ==> final(lanes)@.dom().contains(k)
                    && final(lanes)@[k] == old(lanes)@[k],
            forall|i: int|
                0 <= i < final(store)@[rid.0].spec_lanes_order().len() ==> !old(lanes)@.dom().contains(
                    (#[trigger] final(store)@[rid.0].spec_lanes_order()[i]).0,
                ) && final(lanes)@.dom().contains(final(store)@[rid.0].spec_lanes_order()[i].0),
            forall|k: u64| #[trigger]
                final(lanes)@.dom().contains(k) ==> old(lanes)@.dom().contains(k)
                    || final(store)@[rid.0].spec_lanes_order().contains(LaneID(k)),
    {
        let ghost pat_fwd = lane_pattern.lanes_forward@;
        let ghost pat_bwd = lane_pattern.lanes_backward@;
        let ghost table0 = lanes@;
        let mut road = Road {
            id: RoadID(0),
            src,
            dst,
            src_interface: 9,
            dst_interface: 9,
            major_interpolation_points: interpolation_points,
            width: 1,
            length: 1,
            lanes_forward: Vec::new(),
            lanes_backward: Vec::new(),
            lane_pattern,
            parking_spots: Vec::new(),
        };

        let nf: usize = road.lane_pattern.lanes_forward.len();
        let mut i: usize = 0;
        while i < nf
            invariant
                i <= nf,
                nf == pat_fwd.len(),
                pat_fwd.len() + pat_bwd.len() <= 0x1000,
                road.src == src && road.dst == dst && src != dst,
                road.major_interpolation_points.wf(),
                road.has_dirs(),
                road.lane_pattern.lanes_forward@ == pat_fwd,
                road.lane_pattern.lanes_backward@ == pat_bwd,
                road.src_interface == 9 && road.dst_interface == 9,
                road.parking_spots@.len() == 0,
                road.lanes_backward@.len() == 0,
                road.lanes_forward@.len() == i,
                lanes@.dom().finite(),
                lanes@.len() == table0.len() + i,
                table0.dom().finite(),
                table0.len() + 0x1000 < 0xfffffffe,
                forall|m: int|
                    0 <= m < i ==> {
                        let l = lanes@[(#[trigger] road.lanes_forward@[m]).0];
                        &&& !table0.dom().contains(road.lanes_forward@[m].0)
                        &&& lanes@.dom().contains(road.lanes_forward@[m].0)
                        &&& l.id == road.lanes_forward@[m]
                        &&& l.kind == pat_fwd[m]
                        &&& l.width == pat_fwd[m].spec_width()
                        &&& l.src == src
                        &&& l.dst == dst
                        &&& l.points@.len() == 0
                        &&& l.control == TrafficControl::Always
                    },
                forall|m1: int, m2: int|
                    0 <= m1 < m2 < i ==> road.lanes_forward@[m1] != road.lanes_forward@[m2],
                forall|k: u64| #[trigger]
                    table0.dom().contains(k) ==> lanes@.dom().contains(k) && lanes@[k]
                        == table0[k],
                forall|k: u64| #[trigger]
                    lanes@.dom().contains(k) ==> table0.dom().contains(k)
                        || road.lanes_forward@.contains(LaneID(k)),
            decreases nf - i,
        {
            let kind: LaneKind = road.lane_pattern.lanes_forward[i];
            let ghost prev_fwd = road.lanes_forward@;
            let ghost prev_table = lanes@;
            let lid: LaneID = road.add_lane(lanes, kind, LaneDirection::Forward);
            proof {
                assert forall|k: u64| #[trigger] lanes@.dom().contains(k) implies table0.dom().contains(
                    k,
                ) || road.lanes_forward@.contains(LaneID(k)) by {
                    if !table0.dom().contains(k) {
                        if k == lid.0 {
                            assert(road.lanes_forward@[prev_fwd.len() as int] == LaneID(k));
                        } else {
                            assert(prev_table.dom().contains(k));
                            assert(prev_fwd.contains(LaneID(k)));
                            let m = choose|m: int|
                                0 <= m < prev_fwd.len() && prev_fwd[m] == LaneID(k);
                            assert(road.lanes_forward@[m] == LaneID(k));
                        }
                    }
                }
            }
            i = i + 1;
        }

        let nb: usize = road.lane_pattern.lanes_backward.len();
        let mut j: usize = 0;
        while j < nb
            invariant
                j <= nb,
                nb == pat_bwd.len(),
                nf == pat_fwd.len(),
                pat_fwd.len() + pat_bwd.len() <= 0x1000,
                road.src == src && road.dst == dst && src != dst,
                road.major_interpolation_points.wf(),
                road.has_dirs(),
                road.lane_pattern.lanes_forward@ == pat_fwd,
                road.lane_pattern.lanes_backward@ == pat_bwd,
                road.src_interface == 9 && road.dst_interface == 9,
                road.parking_spots@.len() == 0,
                road.lanes_forward@.len() == nf,
                road.lanes_backward@.len() == j,
                lanes@.dom().finite(),
                lanes@.len() == table0.len() + nf + j,
                table0.dom().finite(),
                table0.len() + 0x1000 < 0xfffffffe,
                forall|m: int|
                    0 <= m < nf ==> {
                        let l = lanes@[(#[trigger] road.lanes_forward@[m]).0];
                        &&& !table0.dom().contains(road.lanes_forward@[m].0)
                        &&& lanes@.dom().contains(road.lanes_forward@[m].0)
                        &&& l.id == road.lanes_forward@[m]
                        &&& l.kind == pat_fwd[m]
                        &&& l.width == pat_fwd[m].spec_width()
                        &&& l.src == src
                        &&& l.dst == dst
                        &&& l.points@.len() == 0
                        &&& l.control == TrafficControl::Always
                    },
                forall|m: int|
                    0 <= m < j ==> {
                        let l = lanes@[(#[trigger] road.lanes_backward@[m]).0];
                        &&& !table0.dom().contains(road.lanes_backward@[m].0)
                        &&& lanes@.dom().contains(road.lanes_backward@[m].0)
                        &&& l.id == road.lanes_backward@[m]
                        &&& l.kind == pat_bwd[m]
                        &&& l.width == pat_bwd[m].spec_width()
                        &&& l.src == dst
                        &&& l.dst == src
                        &&& l.points@.len() == 0
                        &&& l.control == TrafficControl::Always
                    },
                forall|m1: int, m2: int|
                    0 <= m1 < m2 < nf ==> road.lanes_forward@[m1] != road.lanes_forward@[m2],
                forall|m1: int, m2: int|
                    0 <= m1 < m2 < j ==> road.lanes_backward@[m1] != road.lanes_backward@[m2],
                forall|m1: int, m2: int|
                    0 <= m1 < nf && 0 <= m2 < j ==> road.lanes_forward@[m1]
                        != road.lanes_backward@[m2],
                forall|k: u64| #[trigger]
                    table0.dom().contains(k) ==> lanes@.dom().contains(k) && lanes@[k]
                        == table0[k],
                forall|k: u64| #[trigger]
                    lanes@.dom().contains(k) ==> table0.dom().contains(k)
                        || road.lanes_forward@.contains(LaneID(k))
                        || road.lanes_backward@.contains(LaneID(k)),
            decreases nb - j,
        {
            let kind: LaneKind = road.lane_pattern.lanes_backward[j];
            let ghost prev_bwd = road.lanes_backward@;
            let ghost prev_table = lanes@;
            let lid: LaneID = road.add_lane(lanes, kind, LaneDirection::Backward);
            proof {
                assert forall|k: u64| #[trigger] lanes@.dom().contains(k) implies table0.dom().contains(
                    k,
                ) || road.lanes_forward@.contains(LaneID(k)) || road.lanes_backward@.contains(
                    LaneID(k),
                ) by {
                    if !table0.dom().contains(k) && !road.lanes_forward@.contains(LaneID(k)) {
                        if k == lid.0 {
                            assert(road.lanes_backward@[prev_bwd.len() as int] == LaneID(k));
                        } else {
                            assert(prev_table.dom().contains(k));
                            assert(prev_bwd.contains(LaneID(k)));
                            let m = choose|m: int|
                                0 <= m < prev_bwd.len() && prev_bwd[m] == LaneID(k);
                            assert(road.lanes_backward@[m] == LaneID(k));
                        }
                    }
                }
            }
            j = j + 1;
        }

        let ghost pre_gen = lanes@;
        let ghost order = road.spec_lanes_order();
        proof {
            assert forall|m: int| 0 <= m < order.len() implies pre_gen.dom().contains(
                (#[trigger] order[m]).0,
            ) && pre_gen[order[m].0].width <= 16 by {
                if m < nf {
                    assert(order[m] == road.lanes_forward@[nf - 1 - m]);
                } else {
                    assert(order[m] == road.lanes_backward@[m - nf]);
                }
            }
            assert forall|m1: int, m2: int| 0 <= m1 < m2 < order.len() implies order[m1]
                != order[m2] by {
                if m1 < nf {
                    assert(order[m1] == road.lanes_forward@[nf - 1 - m1]);
                } else {
                    assert(order[m1] == road.lanes_backward@[m1 - nf]);
                }
                if m2 < nf {
                    assert(order[m2] == road.lanes_forward@[nf - 1 - m2]);
                } else {
                    assert(order[m2] == road.lanes_backward@[m2 - nf]);
                }
            }
            assert(road.regen_pre(intersections@, lanes@));
        }
        road.gen_pos(intersections, lanes);

        proof {
            lemma_width_prefix_same(order, pre_gen, lanes@, order.len() as int);
            assert forall|m: int| 0 <= m <= order.len() implies spec_width_prefix(
                order,
                lanes@,
                m,
            ) == spec_width_prefix(order, pre_gen, m) by {
                lemma_width_prefix_same(order, pre_gen, lanes@, m);
            }
        }

        let rid_u: u64 = store.insert(Road {
            id: RoadID(0),
            src,
            dst,
            src_interface: 9,
            dst_interface: 9,
            major_interpolation_points: PolyLine { points: Vec::new() },
            width: 1,
            length: 1,
            lanes_forward: Vec::new(),
            lanes_backward: Vec::new(),
            lane_pattern: LanePattern { lanes_forward: Vec::new(), lanes_backward: Vec::new() },
            parking_spots: Vec::new(),
        });
        let rid = RoadID(rid_u);
        let fixed = Road { id: rid, ..road };
        store.set(rid_u, fixed);
        proof {
            assert(store@.dom() =~= old(store)@.dom().insert(rid_u));
            let r = store@[rid_u];
            let pts = r.major_interpolation_points.points@;
            let ord = r.spec_lanes_order();
            assert(ord == order);
            assert(pts.len() >= 2 && pts[0] == intersections@[src.0].pos && pts[pts.len() - 1]
                == intersections@[dst.0].pos);
            assert forall|m: int| 0 <= m < r.lanes_forward@.len() implies {
                let l = lanes@[(#[trigger] r.lanes_forward@[m]).0];
                &&& lanes@.dom().contains(r.lanes_forward@[m].0)
                &&& l.id == r.lanes_forward@[m]
                &&& l.kind == pat_fwd[m]
                &&& l.width == pat_fwd[m].spec_width()
                &&& l.src == src
                &&& l.dst == dst
            } by {
                let p = nf - 1 - m;
                assert(order[p] == r.lanes_forward@[m]);
                assert(is_regen_lane(
                    pre_gen[order[p].0],
                    lanes@[order[p].0],
                    pts,
                    spec_width_prefix(order, pre_gen, p) + pre_gen[order[p].0].width / 2,
                    src,
                    r.length,
                ));
            }
            assert forall|m: int| 0 <= m < r.lanes_backward@.len() implies {
                let l = lanes@[(#[trigger] r.lanes_backward@[m]).0];
                &&& lanes@.dom().contains(r.lanes_backward@[m].0)
                &&& l.id == r.lanes_backward@[m]
                &&& l.kind == pat_bwd[m]
                &&& l.width == pat_bwd[m].spec_width()
                &&& l.src == dst
                &&& l.dst == src
            } by {
                let p = nf + m;
                assert(order[p] == r.lanes_backward@[m]);
                assert(is_regen_lane(
                    pre_gen[order[p].0],
                    lanes@[order[p].0],
                    pts,
                    spec_width_prefix(order, pre_gen, p) + pre_gen[order[p].0].width / 2,
                    src,
                    r.length,
                ));
            }
            assert forall|m: int| 0 <= m < ord.len() implies {
                let l = lanes@[(#[trigger] ord[m]).0];
                &&& l.points@ == spec_lane_points(
                    pts,
                    spec_width_prefix(ord, lanes@, m) + l.width / 2,
                    l.src != src,
                )
                &&& l.inter_length == r.length
                &&& l.control == TrafficControl::Always
            } by {
                assert(is_regen_lane(
                    pre_gen[order[m].0],
                    lanes@[order[m].0],
                    pts,
                    spec_width_prefix(order, pre_gen, m) + pre_gen[order[m].0].width / 2,
                    src,
                    r.length,
                ));
                assert(spec_width_prefix(order, lanes@, m) == spec_width_prefix(
                    order,
                    pre_gen,
                    m,
                ));
            }
            assert(is_built_road(r, lanes@, rid, src, dst, lane_pattern, intersections@));
            assert forall|k: u64| #[trigger] lanes@.dom().contains(k) implies old(
                lanes,
            )@.dom().contains(k) || ord.contains(LaneID(k)) by {
                if !old(lanes)@.dom().contains(k) {
                    if road.lanes_forward@.contains(LaneID(k)) {
                        let m = choose|m: int|
                            0 <= m < road.lanes_forward@.len() && road.lanes_forward@[m] == LaneID(
                                k,
                            );
                        assert(ord[nf - 1 - m] == LaneID(k));
                    } else {
                        assert(road.lanes_backward@.contains(LaneID(k)));
                        let m = choose|m: int|
                            0 <= m < road.lanes_backward@.len() && road.lanes_backward@[m]
                                == LaneID(k);
                        assert(ord[nf + m] == LaneID(k));
                    }
                }
            }
        }
        rid
    }
}

/// The parking spots that survive pruning against the road `r`: the
/// owning lane still belongs to the road and the distance along it still
/// lies within the road's length.
pub open spec fn spec_pruned_spots(spots: Seq<ParkingSpot>, r: Road) -> Seq<ParkingSpot> {
    spots.filter(|s: ParkingSpot| r.spec_lanes_order().contains(s.parent) && s.dist_along <= r.length)
}

impl Road {
    /// Whether `id` is one of the road's lanes, in either direction.
    pub fn owns_lane(&self, id: LaneID) -> (r: bool)
        ensures
            r == self.spec_lanes_order().contains(id),
    {
        let nf: usize = self.lanes_forward.len();
        let mut i: usize = 0;
        while i < nf
            invariant
                i <= nf,
                nf == self.lanes_forward@.len(),
                forall|m: int| 0 <= m < i ==> self.lanes_forward@[m] != id,
            decreases nf - i,
        {
            if self.lanes_forward[i] == id {
                proof {
                    let ord = self.spec_lanes_order();
                    assert(self.lanes_forward@.reverse().len() == nf);
                    assert(ord[nf as int - 1 - i as int] == self.lanes_forward@.reverse()[nf as int
                        - 1 - i as int]);
                    assert(ord[nf as int - 1 - i as int] == id);
                }
                return true;
            }
            i = i + 1;
        }
        let nb: usize = self.lanes_backward.len();
        let mut j: usize = 0;
        while j < nb
            invariant
                j <= nb,
                nb == self.lanes_backward@.len(),
                nf == self.lanes_forward@.len(),
                forall|m: int| 0 <= m < j ==> self.lanes_backward@[m] != id,
            decreases nb - j,
        {
            if self.lanes_backward[j] == id {
                proof {
                    let ord = self.spec_lanes_order();
                    assert(self.lanes_forward@.reverse().len() == nf);
                    assert(ord[nf as int + j as int] == self.lanes_backward@[j as int]);
                }
                return true;
            }
            j = j + 1;
        }
        proof {
            if self.spec_lanes_order().contains(id) {
                let p = choose|p: int|
                    0 <= p < self.spec_lanes_order().len() && self.spec_lanes_order()[p] == id;
                if p < nf {
                    assert(self.lanes_forward@[nf - 1 - p] == id);
                } else {
                    assert(self.lanes_backward@[p - nf] == id);
                }
            }
        }
        false
    }

    /// Drops every parking spot whose owning lane left the road or whose
    /// distance along it no longer fits the road's length. Called after
    /// lane removal or a material length change.
    pub fn prune_parking_spots(&mut self)
        ensures
            final(self).parking_spots@ == spec_pruned_spots(old(self).parking_spots@, *old(self)),
            final(self).id == old(self).id,
            final(self).src == old(self).src,
            final(self).dst == old(self).dst,
            final(self).major_interpolation_points == old(self).major_interpolation_points,
            final(self).length == old(self).length,
            final(self).width == old(self).width,
            final(self).src_interface == old(self).src_interface,
            final(self).dst_interface == old(self).dst_interface,
            final(self).lanes_forward == old(self).lanes_forward,
            final(self).lanes_backward == old(self).lanes_backward,
            final(self).lane_pattern == old(self).lane_pattern,
    {
        let n: usize = self.parking_spots.len();
        let mut kept: Vec<ParkingSpot> = Vec::new();
        let mut i: usize = 0;
        while i < n
            invariant
                i <= n,
                n == self.parking_spots@.len(),
                *self == *old(self),
                kept@ =~= spec_pruned_spots(self.parking_spots@.subrange(0, i as int), *self),
            decreases n - i,
        {
            proof {
                reveal(Seq::filter);
                assert(self.parking_spots@.subrange(0, i + 1).drop_last()
                    =~= self.parking_spots@.subrange(0, i as int));
                assert(self.parking_spots@.subrange(0, i + 1).last()
                    == self.parking_spots@[i as int]);
            }
            let s: ParkingSpot = self.parking_spots[i];
            if self.owns_lane(s.parent) && s.dist_along <= self.length {
                kept.push(s);
            }
            i = i + 1;
        }
        proof {
            assert(self.parking_spots@.subrange(0, n as int) =~= self.parking_spots@);
        }
        self.parking_spots = kept;
    }
}

/// The fixed-point numerator approximating the inverse square root of
/// two, over the direction scale as denominator.
pub const SQRT_HALF_NUM: i64 = 181;

/// A point advanced `dist` units along the scaled direction `dir`.
pub open spec fn spec_advance_point(p: Vec2, dir: Vec2, dist: int) -> Vec2 {
    Vec2 {
        x: (p.x + crate::geometry::div_toward_zero(dir.x * dist, DIR_SCALE as int)) as i64,
        y: (p.y + crate::geometry::div_toward_zero(dir.y * dist, DIR_SCALE as int)) as i64,
    }
}

/// A vector scaled by the fixed-point inverse square root of two.
pub open spec fn spec_scale_sqrt_half(v: Vec2) -> Vec2 {
    Vec2 {
        x: crate::geometry::div_toward_zero(v.x * (SQRT_HALF_NUM as int), DIR_SCALE as int) as i64,
        y: crate::geometry::div_toward_zero(v.y * (SQRT_HALF_NUM as int), DIR_SCALE as int) as i64,
    }
}

/// The first lane in `ids` whose lane is a walking lane, if any.
pub open spec fn spec_first_walking(ids: Seq<LaneID>, t: Map<u64, Lane>) -> Option<LaneID>
    decreases ids.len(),
{
    if ids.len() == 0 {
        Option::None
    } else if t[ids[0].0].kind == LaneKind::Walking {
        Option::Some(ids[0])
    } else {
        spec_first_walking(ids.drop_first(), t)
    }
}

/// Finds the first walking lane among `ids`.
fn first_walking(ids: &Vec<LaneID>, lanes: &Lanes) -> (r: Option<LaneID>)
    requires
        forall|i: int| 0 <= i < ids@.len() ==> lanes@.dom().contains((#[trigger] ids@[i]).0),
    ensures
        r == spec_first_walking(ids@, lanes@),
{
    let n: usize = ids.len();
    proof {
        assert(ids@.skip(0) =~= ids@);
    }
    let mut i: usize = 0;
    while i < n
        invariant
            i <= n,
            n == ids@.len(),
            forall|m: int| 0 <= m < ids@.len() ==> lanes@.dom().contains((#[trigger] ids@[m]).0),
            spec_first_walking(ids@, lanes@) == spec_first_walking(
                ids@.skip(i as int),
                lanes@,
            ),
        decreases n - i,
    {
        let id: LaneID = ids[i];
        proof {
            assert(ids@.skip(i as int)[0] == ids@[i as int]);
        }
        if matches!(lanes.get(id.0).kind, LaneKind::Walking) {
            return Option::Some(id);
        }
        proof {
            assert(ids@.skip(i as int).drop_first() =~= ids@.skip(i + 1));
        }
        i = i + 1;
    }
    proof {
        assert(ids@.skip(n as int) =~= Seq::<LaneID>::empty());
    }
    Option::None
}

impl Road {
    /// What `interpolation_spline` produces: both road ends pulled back by
    /// their effective interfaces, with derivatives damped by the inverse
    /// square root of two.
    pub open spec fn spec_interpolation_spline(self) -> Spline {
        let pts = self.major_interpolation_points.points@;
        let from = spec_advance_point(
            pts[0],
            self.spec_orientation_from(self.src),
            self.spec_interface_from(self.src),
        );
        let to = spec_advance_point(
            pts[pts.len() - 1],
            self.spec_orientation_from(self.dst),
            self.spec_interface_from(self.dst),
        );
        Spline {
            from,
            to,
            from_derivative: spec_scale_sqrt_half(
                Vec2 { x: (pts[1].x - from.x) as i64, y: (pts[1].y - from.y) as i64 },
            ),
            to_derivative: spec_scale_sqrt_half(
                Vec2 {
                    x: (to.x - pts[pts.len() - 2].x) as i64,
                    y: (to.y - pts[pts.len() - 2].y) as i64,
                },
            ),
        }
    }

    /// The curve that feeds lane generation, laid out between the two
    /// pulled-back road ends.
    pub fn interpolation_spline(&self) -> (r: Spline)
        requires
            self.major_interpolation_points.wf(),
            self.has_dirs(),
            self.src != self.dst,
            1 <= self.length <= 0x4000000000000,
        ensures
            r == self.spec_interpolation_spline(),
    {
        let p0: Vec2 = self.major_interpolation_points.first();
        let pn: Vec2 = self.major_interpolation_points.last();
        let o_src: Vec2 = self.orientation_from(self.src);
        let o_dst: Vec2 = self.orientation_from(self.dst);
        let i_src: i64 = self.interface_from(self.src) as i64;
        let i_dst: i64 = self.interface_from(self.dst) as i64;
        proof {
            let pts = self.major_interpolation_points.points@;
            assert(pts[0].in_bounds());
            assert(pts[1].in_bounds());
            assert(pts[pts.len() - 2].in_bounds());
            assert(pts[pts.len() - 1].in_bounds());
            assert(0x4000000000000 * DIR_SCALE == 0x400000000000000) by (nonlinear_arith);
            vstd::arithmetic::div_mod::lemma_fundamental_div_mod(self.length - 1, 2);
            vstd::arithmetic::div_mod::lemma_mod_bound(self.length - 1, 2);
            vstd::arithmetic::div_mod::lemma_div_pos_is_pos(self.length - 1, 2);
            assert(0 <= self.spec_interface_from(self.src) <= self.length - 1);
            assert(0 <= self.spec_interface_from(self.dst) <= self.length - 1);
            assert(-0x4000000000000 * DIR_SCALE <= o_src.x * i_src <= 0x4000000000000 * DIR_SCALE)
                by (nonlinear_arith)
                requires -DIR_SCALE <= o_src.x <= DIR_SCALE && 0 <= i_src <= 0x4000000000000;
            assert(-0x4000000000000 * DIR_SCALE <= o_src.y * i_src <= 0x4000000000000 * DIR_SCALE)
                by (nonlinear_arith)
                requires -DIR_SCALE <= o_src.y <= DIR_SCALE && 0 <= i_src <= 0x4000000000000;
            assert(-0x4000000000000 * DIR_SCALE <= o_dst.x * i_dst <= 0x4000000000000 * DIR_SCALE)
                by (nonlinear_arith)
                requires -DIR_SCALE <= o_dst.x <= DIR_SCALE && 0 <= i_dst <= 0x4000000000000;
            assert(-0x4000000000000 * DIR_SCALE <= o_dst.y * i_dst <= 0x4000000000000 * DIR_SCALE)
                by (nonlinear_arith)
                requires -DIR_SCALE <= o_dst.y <= DIR_SCALE && 0 <= i_dst <= 0x4000000000000;
        }
        let from = Vec2 {
            x: p0.x + crate::geometry::div_tz(o_src.x * i_src, DIR_SCALE),
            y: p0.y + crate::geometry::div_tz(o_src.y * i_src, DIR_SCALE),
        };
        let to = Vec2 {
            x: pn.x + crate::geometry::div_tz(o_dst.x * i_dst, DIR_SCALE),
            y: pn.y + crate::geometry::div_tz(o_dst.y * i_dst, DIR_SCALE),
        };
        let p1: Vec2 = self.major_interpolation_points.get(1);
        let n: usize = self.major_interpolation_points.n_points();
        let pm: Vec2 = self.major_interpolation_points.get(n - 2);
        proof {
            assert(0x4000000000000 * DIR_SCALE == 0x400000000000000) by (nonlinear_arith);
            let lim: int = 0x4000000000000 * DIR_SCALE + 0x100000 + 0x100000;
            assert(lim * SQRT_HALF_NUM == 0x400000000000000 * 181 + 0x200000 * 181)
                by (nonlinear_arith)
                requires lim == 0x400000000000000 + 0x200000 && SQRT_HALF_NUM == 181;
            assert(-lim * SQRT_HALF_NUM <= (p1.x - from.x) * SQRT_HALF_NUM <= lim * SQRT_HALF_NUM)
                by (nonlinear_arith)
                requires -lim <= p1.x - from.x <= lim && SQRT_HALF_NUM > 0;
            assert(-lim * SQRT_HALF_NUM <= (p1.y - from.y) * SQRT_HALF_NUM <= lim * SQRT_HALF_NUM)
                by (nonlinear_arith)
                requires -lim <= p1.y - from.y <= lim && SQRT_HALF_NUM > 0;
            assert(-lim * SQRT_HALF_NUM <= (to.x - pm.x) * SQRT_HALF_NUM <= lim * SQRT_HALF_NUM)
                by (nonlinear_arith)
                requires -lim <= to.x - pm.x <= lim && SQRT_HALF_NUM > 0;
            assert(-lim * SQRT_HALF_NUM <= (to.y - pm.y) * SQRT_HALF_NUM <= lim * SQRT_HALF_NUM)
                by (nonlinear_arith)
                requires -lim <= to.y - pm.y <= lim && SQRT_HALF_NUM > 0;
        }
        Spline {
            from,
            to,
            from_derivative: Vec2 {
                x: crate::geometry::div_tz((p1.x - from.x) * SQRT_HALF_NUM, DIR_SCALE),
                y: crate::geometry::div_tz((p1.y - from.y) * SQRT_HALF_NUM, DIR_SCALE),
            },
            to_derivative: Vec2 {
                x: crate::geometry::div_tz((to.x - pm.x) * SQRT_HALF_NUM, DIR_SCALE),
                y: crate::geometry::div_tz((to.y - pm.y) * SQRT_HALF_NUM, DIR_SCALE),
            },
        }
    }

    /// The first walking lane arriving at and the first leaving the
    /// endpoint `from`, by identity.
    pub fn sidewalks(&self, from: IntersectionID, lanes: &Lanes) -> (r: (
        Option<LaneID>,
        Option<LaneID>,
    ))
        requires
            self.connects(from),
            forall|i: int|
                0 <= i < self.lanes_forward@.len() ==> lanes@.dom().contains(
                    (#[trigger] self.lanes_forward@[i]).0,
                ),
            forall|i: int|
                0 <= i < self.lanes_backward@.len() ==> lanes@.dom().contains(
                    (#[trigger] self.lanes_backward@[i]).0,
                ),
        ensures
            from == self.src ==> r.0 == spec_first_walking(self.lanes_backward@, lanes@) && r.1
                == spec_first_walking(self.lanes_forward@, lanes@),
            from != self.src ==> r.0 == spec_first_walking(self.lanes_forward@, lanes@) && r.1
                == spec_first_walking(self.lanes_backward@, lanes@),
    {
        (
            first_walking(self.incoming_lanes_to(from), lanes),
            first_walking(self.outgoing_lanes_from(from), lanes),
        )
    }
}

/// Two lane tables that agree on the widths of the listed lanes give the
/// same accumulated widths. Together with `gen_pos`'s contract this says
/// the regenerated road's cached `width` equals the sum of the widths of
/// all its lanes as they stand after regeneration.
pub proof fn lemma_width_prefix_same(
    order: Seq<LaneID>,
    t1: Map<u64, Lane>,
    t2: Map<u64, Lane>,
    i: int,
)
    requires
        0 <= i <= order.len(),
        forall|m: int|
            0 <= m < order.len() ==> t2[#[trigger] order[m].0].width == t1[order[m].0].width,
    ensures
        spec_width_prefix(order, t2, i) == spec_width_prefix(order, t1, i),
    decreases i,
{
    if i > 0 {
        lemma_width_prefix_same(order, t1, t2, i - 1);
    }
}

/// Clamping invariant: however the two pull-backs were requested, the
/// effective interfaces of the two endpoints together never exceed
/// `length - 1`.
pub proof fn lemma_interface_clamp(r: Road)
    requires
        r.length >= 1,
        r.src != r.dst,
    ensures
        r.spec_interface_from(r.src) + r.spec_interface_from(r.dst) <= r.length - 1,
{
    let l = r.length - 1;
    vstd::arithmetic::div_mod::lemma_fundamental_div_mod(l, 2);
    vstd::arithmetic::div_mod::lemma_mod_bound(l, 2);
    vstd::arithmetic::div_mod::lemma_div_pos_is_pos(l, 2);
}

} // verus!
