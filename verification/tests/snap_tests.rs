use placement_core::geometry::Vec2;
use placement_core::orientation::Dir;
use placement_core::snap::{resolve_snap, Edge, HALF_WIDTH, SNAP_GAP};

fn edge(ax: i64, ay: i64, bx: i64, by: i64) -> Edge {
    Edge { a: Vec2 { x: ax, y: ay }, b: Vec2 { x: bx, y: by } }
}

#[test]
fn snap_no_edges_reports_no_snap() {
    let edges: Vec<Edge> = Vec::new();
    assert!(resolve_snap(Vec2 { x: 0, y: 0 }, &edges).is_none());
}

#[test]
fn snap_far_point_reports_no_snap() {
    // The point sits 5 units from the only edge; the radius is 1 unit.
    let edges = vec![edge(0, 0, 10_000, 0)];
    assert!(resolve_snap(Vec2 { x: 5_000, y: 5_000 }, &edges).is_none());
}

#[test]
fn snap_just_beyond_radius_reports_no_snap() {
    let edges = vec![edge(0, 0, 10_000, 0)];
    assert!(resolve_snap(Vec2 { x: 5_000, y: 1_001 }, &edges).is_none());
}

#[test]
fn snap_on_radius_boundary_snaps() {
    let edges = vec![edge(0, 0, 10_000, 0)];
    assert!(resolve_snap(Vec2 { x: 5_000, y: 1_000 }, &edges).is_some());
}

#[test]
fn snap_horizontal_edge_exact_offset() {
    // A wall along the first axis; the point hovers 0.8 units above it.
    let edges = vec![edge(0, 0, 10_000, 0)];
    let (pos, dir) = resolve_snap(Vec2 { x: 5_000, y: 800 }, &edges).unwrap();
    // The snapped position sits exactly half-width plus gap off the wall,
    // on the point's side, at the projected foot.
    assert_eq!(pos, Vec2 { x: 5_000, y: HALF_WIDTH + SNAP_GAP });
    assert_eq!(dir, Dir { x: 10_000, y: 0 });
}

#[test]
fn snap_other_side_flips_sign() {
    let edges = vec![edge(0, 0, 10_000, 0)];
    let (pos, dir) = resolve_snap(Vec2 { x: 5_000, y: -800 }, &edges).unwrap();
    assert_eq!(pos, Vec2 { x: 5_000, y: -(HALF_WIDTH + SNAP_GAP) });
    assert_eq!(dir, Dir { x: -10_000, y: 0 });
}

#[test]
fn snap_vertical_edge_exact_offset() {
    let edges = vec![edge(2_000, 0, 2_000, 10_000)];
    let (pos, dir) = resolve_snap(Vec2 { x: 2_300, y: 4_000 }, &edges).unwrap();
    assert_eq!(pos, Vec2 { x: 2_000 + HALF_WIDTH + SNAP_GAP, y: 4_000 });
    assert_eq!(dir, Dir { x: 0, y: -10_000 });
}

#[test]
fn snap_clamps_to_segment_end() {
    // The point hangs past the segment's end: the foot clamps to the end.
    let edges = vec![edge(0, 0, 10_000, 0)];
    let (pos, _) = resolve_snap(Vec2 { x: 10_500, y: 600 }, &edges).unwrap();
    assert_eq!(pos, Vec2 { x: 10_000, y: HALF_WIDTH + SNAP_GAP });
}

#[test]
fn snap_diagonal_edge_three_four_five() {
    // An edge of exactly representable length (3-4-5 triangle): the
    // perpendicular push is exact even though the edge is diagonal.
    let edges = vec![edge(0, 0, 3_000, 4_000)];
    let (pos, dir) = resolve_snap(Vec2 { x: 2_000, y: 2_000 }, &edges).unwrap();
    // Foot of the perpendicular: 0.56 of the way along the edge.
    // Offset: 155 * (4000, -3000)/5000 * sign(-1) = (124, -93).
    assert_eq!(pos, Vec2 { x: 1_680 + 124, y: 2_240 - 93 });
    assert_eq!(dir, Dir { x: -3_000, y: -4_000 });
    // The snapped point lies exactly 155 counts from the wall line:
    // |cross(d, pos - a)| == 155 * |d|.
    let cross = 3_000i64 * pos.y - 4_000i64 * pos.x;
    assert_eq!(cross.abs(), 155 * 5_000);
}

#[test]
fn snap_picks_first_edge_within_radius() {
    let edges = vec![edge(0, 0, 10_000, 0), edge(0, 500, 10_000, 500)];
    let (pos, _) = resolve_snap(Vec2 { x: 5_000, y: 400 }, &edges).unwrap();
    // Both edges are within the radius; the first one wins.
    assert_eq!(pos.y, HALF_WIDTH + SNAP_GAP);
}

#[test]
fn snap_skips_far_edge_for_near_one() {
    let edges = vec![edge(0, 50_000, 10_000, 50_000), edge(0, 0, 10_000, 0)];
    let (pos, _) = resolve_snap(Vec2 { x: 5_000, y: 400 }, &edges).unwrap();
    assert_eq!(pos, Vec2 { x: 5_000, y: HALF_WIDTH + SNAP_GAP });
}
