use simkernel::geometry::{isqrt, PolyLine, Vec2};
use simkernel::lanes::{Intersection, IntersectionID, LaneID, LaneKind, LanePattern, ParkingSpot};
use simkernel::road::Road;
use simkernel::tables::{Intersections, Lanes, Roads};

fn two_point_network() -> (Intersections, Lanes, Roads, IntersectionID, IntersectionID) {
    let mut inters = Intersections::new();
    let a = IntersectionID(inters.insert(Intersection {
        id: IntersectionID(0),
        pos: Vec2 { x: 0, y: 0 },
    }));
    let b = IntersectionID(inters.insert(Intersection {
        id: IntersectionID(0),
        pos: Vec2 { x: 100, y: 0 },
    }));
    (inters, Lanes::new(), Roads::new(), a, b)
}

fn build_walk_drive_road() -> (Intersections, Lanes, Roads, IntersectionID, IntersectionID, simkernel::lanes::RoadID) {
    let (inters, mut lanes, mut roads, a, b) = two_point_network();
    let points = PolyLine::new(vec![Vec2 { x: 0, y: 0 }, Vec2 { x: 100, y: 0 }]);
    let pattern = LanePattern {
        lanes_forward: vec![LaneKind::Walking],
        lanes_backward: vec![LaneKind::Driving],
    };
    let rid = Road::make(a, b, points, pattern, &inters, &mut lanes, &mut roads);
    (inters, lanes, roads, a, b, rid)
}

#[test]
fn isqrt_exact_values() {
    assert_eq!(isqrt(0), 0);
    assert_eq!(isqrt(1), 1);
    assert_eq!(isqrt(24), 4);
    assert_eq!(isqrt(25), 5);
    assert_eq!(isqrt(10_000), 100);
}

#[test]
fn vec_dist_is_euclidean() {
    let a = Vec2 { x: 0, y: 0 };
    let b = Vec2 { x: 3, y: 4 };
    assert_eq!(a.dist(&b), 5);
    assert_eq!(a.dist_sq(&b), 25);
}

#[test]
fn polyline_length_sums_segments() {
    let pl = PolyLine::new(vec![
        Vec2 { x: 0, y: 0 },
        Vec2 { x: 100, y: 0 },
        Vec2 { x: 100, y: 50 },
    ]);
    assert_eq!(pl.length(), 150);
    assert_eq!(pl.n_points(), 3);
    assert_eq!(pl.first(), Vec2 { x: 0, y: 0 });
    assert_eq!(pl.last(), Vec2 { x: 100, y: 50 });
}

#[test]
fn built_road_shape() {
    let (_inters, lanes, roads, a, b, rid) = build_walk_drive_road();
    let road = roads.get(rid.0);
    assert_eq!(road.id, rid);
    assert_eq!(road.src, a);
    assert_eq!(road.dst, b);
    assert_eq!(road.n_lanes(), 2);
    assert!(!road.is_one_way());
    assert_eq!(road.length, 100);
    // the cached width is the sum of the widths of all lanes
    assert_eq!(road.width, 4 + 8);
    assert_eq!(road.src_interface, 9);
    assert_eq!(road.dst_interface, 9);
    let walk = lanes.get(road.lanes_forward[0].0);
    assert_eq!(walk.kind, LaneKind::Walking);
    assert_eq!(walk.width, 4);
    assert_eq!(walk.src, a);
    assert_eq!(walk.dst, b);
    let drive = lanes.get(road.lanes_backward[0].0);
    assert_eq!(drive.kind, LaneKind::Driving);
    assert_eq!(drive.width, 8);
    assert_eq!(drive.src, b);
    assert_eq!(drive.dst, a);
}

#[test]
fn lane_points_monotonic_without_self_intersection() {
    let (_inters, lanes, roads, _a, _b, rid) = build_walk_drive_road();
    let road = roads.get(rid.0);
    // the forward walking lane runs src to dst: x strictly increases
    let walk = lanes.get(road.lanes_forward[0].0);
    assert_eq!(walk.points.len(), 2);
    for w in walk.points.windows(2) {
        assert!(w[0].x < w[1].x);
    }
    // the backward driving lane runs dst to src: x strictly decreases
    let drive = lanes.get(road.lanes_backward[0].0);
    assert_eq!(drive.points.len(), 2);
    for w in drive.points.windows(2) {
        assert!(w[0].x > w[1].x);
    }
    // lateral offsets accumulate from one side of the road outward
    assert_eq!(walk.points[0], Vec2 { x: 0, y: 2 });
    assert_eq!(walk.points[1], Vec2 { x: 100, y: 2 });
    assert_eq!(drive.points[0], Vec2 { x: 100, y: 8 });
    assert_eq!(drive.points[1], Vec2 { x: 0, y: 8 });
}

#[test]
fn lanes_iter_order_and_endpoint_queries() {
    let (_inters, _lanes, roads, a, b, rid) = build_walk_drive_road();
    let road = roads.get(rid.0);
    let order = road.lanes_iter();
    assert_eq!(order.len(), 2);
    assert_eq!(order[0], road.lanes_forward[0]);
    assert_eq!(order[1], road.lanes_backward[0]);
    assert_eq!(road.incoming_lanes_to(a)[0], road.lanes_backward[0]);
    assert_eq!(road.outgoing_lanes_from(a)[0], road.lanes_forward[0]);
    assert_eq!(road.incoming_lanes_to(b)[0], road.lanes_forward[0]);
    assert_eq!(road.outgoing_lanes_from(b)[0], road.lanes_backward[0]);
    assert_eq!(road.other_end(a), b);
    assert_eq!(road.other_end(b), a);
    assert_eq!(road.src_point(), Vec2 { x: 0, y: 0 });
    assert_eq!(road.dst_point(), Vec2 { x: 100, y: 0 });
}

#[test]
fn sidewalks_find_first_walking_lane() {
    let (_inters, lanes, roads, a, _b, rid) = build_walk_drive_road();
    let road = roads.get(rid.0);
    let (incoming, outgoing) = road.sidewalks(a, &lanes);
    assert_eq!(incoming, None);
    assert_eq!(outgoing, Some(road.lanes_forward[0]));
}

#[test]
fn interface_clamping() {
    let (_inters, _lanes, mut roads, a, b, rid) = build_walk_drive_road();
    let mut road = roads.get(rid.0).clone();
    // raw requests within the usable length stand as requested
    assert_eq!(road.interface_from(a), 9);
    assert_eq!(road.interface_from(b), 9);
    // both requests above half the usable length: each gets exactly half
    road.set_interface(a, 60);
    road.set_interface(b, 60);
    assert_eq!(road.interface_from(a), 49);
    assert_eq!(road.interface_from(b), 49);
    assert!(road.interface_from(a) + road.interface_from(b) <= road.length - 1);
    // only one above half: it gets what the other leaves free
    road.set_interface(b, 45);
    assert_eq!(road.interface_from(a), 54);
    assert_eq!(road.interface_from(b), 45);
    assert!(road.interface_from(a) + road.interface_from(b) <= road.length - 1);
    roads.set(rid.0, road);
}

#[test]
fn max_interface_only_raises() {
    let (_inters, _lanes, roads, a, _b, rid) = build_walk_drive_road();
    let mut road = roads.get(rid.0).clone();
    road.set_interface(a, 5);
    road.max_interface(a, 10);
    assert_eq!(road.src_interface, 10);
    road.max_interface(a, 3);
    assert_eq!(road.src_interface, 10);
}

#[test]
fn orientation_and_spline() {
    let (_inters, _lanes, roads, a, b, rid) = build_walk_drive_road();
    let road = roads.get(rid.0);
    assert_eq!(road.orientation_from(a), Vec2 { x: 256, y: 0 });
    assert_eq!(road.orientation_from(b), Vec2 { x: -256, y: 0 });
    let spline = road.interpolation_spline();
    assert_eq!(spline.from, Vec2 { x: 9, y: 0 });
    assert_eq!(spline.to, Vec2 { x: 91, y: 0 });
    assert_eq!(spline.from_derivative, Vec2 { x: 91 * 181 / 256, y: 0 });
    assert_eq!(spline.to_derivative, Vec2 { x: 91 * 181 / 256, y: 0 });
}

#[test]
fn regen_geometry_is_idempotent() {
    let (inters, mut lanes, roads, _a, _b, rid) = build_walk_drive_road();
    let mut again = roads.get(rid.0).clone();
    let walk_id = again.lanes_forward[0].0;
    let before_points = lanes.get(walk_id).points.clone();
    again.gen_pos(&inters, &mut lanes);
    assert_eq!(again.length, roads.get(rid.0).length);
    assert_eq!(again.width, roads.get(rid.0).width);
    assert_eq!(
        again.interpolation_points().points,
        roads.get(rid.0).interpolation_points().points
    );
    assert_eq!(lanes.get(walk_id).points, before_points);
}

#[test]
fn interpolation_points_accessors() {
    let (_inters, _lanes, roads, _a, _b, rid) = build_walk_drive_road();
    let road = roads.get(rid.0).clone();
    assert_eq!(road.interpolation_points().n_points(), 2);
    let pts = road.interpolation_points_owned();
    assert_eq!(pts.n_points(), 2);
}

#[test]
fn walk_only_pattern_is_one_way() {
    let (inters, mut lanes, mut roads, a, b) = two_point_network();
    let points = PolyLine::new(vec![Vec2 { x: 0, y: 0 }, Vec2 { x: 100, y: 0 }]);
    let pattern = LanePattern { lanes_forward: vec![LaneKind::Walking], lanes_backward: vec![] };
    let rid = Road::make(a, b, points, pattern, &inters, &mut lanes, &mut roads);
    let road = roads.get(rid.0);
    assert!(road.is_one_way());
    assert_eq!(road.n_lanes(), 1);
    assert_eq!(road.width, 4);
}

#[test]
fn parking_spots_pruned_when_invalid() {
    let (_inters, _lanes, roads, _a, _b, rid) = build_walk_drive_road();
    let mut road = roads.get(rid.0).clone();
    let walk = road.lanes_forward[0];
    road.parking_spots.push(ParkingSpot { parent: walk, dist_along: 50 });
    road.parking_spots.push(ParkingSpot { parent: walk, dist_along: 5000 });
    road.parking_spots.push(ParkingSpot { parent: LaneID(9999), dist_along: 10 });
    road.prune_parking_spots();
    assert_eq!(road.parking_spots.len(), 1);
    assert_eq!(road.parking_spots[0], ParkingSpot { parent: walk, dist_along: 50 });
}

#[test]
fn owns_lane_checks_both_directions() {
    let (_inters, _lanes, roads, _a, _b, rid) = build_walk_drive_road();
    let road = roads.get(rid.0);
    assert!(road.owns_lane(road.lanes_forward[0]));
    assert!(road.owns_lane(road.lanes_backward[0]));
    assert!(!road.owns_lane(LaneID(123456)));
}
