use jelly2d::resolve::resolve_collision;
use jelly2d::shape::Shape;
use jelly2d::{calculate_new_velocities, MassPoint, Vec2, SCALE};

fn v(x: i64, y: i64) -> Vec2 {
    Vec2 { x, y }
}

fn moving(x: i64, y: i64, vx: i64, vy: i64, mass: i64) -> MassPoint {
    MassPoint {
        position: v(x, y),
        velocity: v(vx, vy),
        mass,
        ..MassPoint::default()
    }
}

fn frozen(x: i64, y: i64) -> MassPoint {
    MassPoint {
        position: v(x, y),
        movable: false,
        ..MassPoint::default()
    }
}

#[test]
fn elastic_exchange_between_equal_masses_swaps_velocities() {
    let p = moving(0, 0, 0, -2_000_000, SCALE);
    let (new_point, new_line) = calculate_new_velocities(&p, v(0, 0), SCALE);
    assert_eq!(new_point, v(0, 0));
    assert_eq!(new_line, v(0, -2_000_000));
}

#[test]
fn immovable_edge_snaps_point_to_contact() {
    // equal masses: the deflected velocity is the edge's (zero), so the
    // point ends the step exactly at the contact point
    let mut points = vec![
        frozen(0, 0),
        frozen(2_000_000, 0),
        moving(1_000_000, -100_000, 0, -300_000, SCALE),
    ];
    resolve_collision((0, 1), v(1_000_000, 0), 2, &mut points, SCALE);
    assert_eq!(points[2].position, v(1_000_000, 0));
    assert_eq!(points[2].velocity, v(0, 0));
    assert_eq!(points[0], frozen(0, 0));
    assert_eq!(points[1], frozen(2_000_000, 0));
}

#[test]
fn immovable_edge_deflects_heavier_point() {
    // point of mass 3 against an effective edge mass 1: it keeps a third
    // of its speed and leaves the edge by one sub-step
    let mut points = vec![
        frozen(0, 0),
        frozen(2_000_000, 0),
        moving(1_000_000, -100_000, 0, -300_000, 3 * SCALE),
    ];
    resolve_collision((0, 1), v(1_000_000, 0), 2, &mut points, SCALE);
    assert_eq!(points[2].velocity, v(0, -150_000));
    assert_eq!(points[2].position, v(1_000_000, -150_000));
}

#[test]
fn all_immovable_is_a_no_op() {
    let mut points = vec![frozen(0, 0), frozen(2_000_000, 0), frozen(1_000_000, -5)];
    let before = points.clone();
    resolve_collision((0, 1), v(1_000_000, 0), 2, &mut points, SCALE);
    assert_eq!(points, before);
}

#[test]
fn movable_edge_splits_the_correction() {
    // point mass 1 at (2,-1) moving down at 2; edge from (0,0) to (4,0),
    // both endpoints movable, mass 1, at rest; contact at (2,0); dt 0.5 s
    let mut points = vec![
        moving(0, 0, 0, 0, SCALE),
        moving(4_000_000, 0, 0, 0, SCALE),
        moving(2_000_000, -1_000_000, 0, -2_000_000, SCALE),
    ];
    resolve_collision((0, 1), v(2_000_000, 0), 2, &mut points, 500_000);
    // the point rises to the meeting point and stops dead
    assert_eq!(points[2].position, v(2_000_000, -500_000));
    assert_eq!(points[2].velocity, v(0, 0));
    // both endpoints take the whole momentum, the nearer one more position
    assert_eq!(points[0].position, v(0, -1_875_000));
    assert_eq!(points[1].position, v(4_000_000, -1_125_000));
    assert_eq!(points[0].velocity, v(0, -2_000_000));
    assert_eq!(points[1].velocity, v(0, -2_000_000));
}

#[test]
fn vertex_inside_other_shape_is_resolved_by_the_pass() {
    // a probe triangle with one vertex just under the top side of an
    // immovable box: one pass pushes that vertex back to the surface
    let mut points = vec![
        frozen(-2_000_000, 0),
        frozen(2_000_000, 0),
        frozen(2_000_000, -2_000_000),
        frozen(-2_000_000, -2_000_000),
        moving(0, -100_000, 0, 0, SCALE),
        moving(0, 1_000_000, 0, 0, SCALE),
        moving(1_000_000, 1_000_000, 0, 0, SCALE),
    ];
    let shapes = vec![
        Shape::new(vec![4, 5, 6], vec![]).unwrap(),
        Shape::new(vec![0, 1, 2, 3], vec![]).unwrap(),
    ];
    let skipped = Shape::resolve_collisions(&shapes, &mut points, 16_667);
    assert_eq!(skipped, 0);
    assert_eq!(points[4].position, v(0, 0));
    assert_eq!(points[4].velocity, v(0, 0));
    // the box itself never moves
    assert_eq!(points[0], frozen(-2_000_000, 0));
    assert_eq!(points[2], frozen(2_000_000, -2_000_000));
}

#[test]
fn invalid_contact_is_skipped_and_reported() {
    // same scene, but the box's masses are invalid (zero): the contact is
    // found and must be refused whole, leaving every point untouched
    let mut points = vec![
        frozen(-2_000_000, 0),
        frozen(2_000_000, 0),
        frozen(2_000_000, -2_000_000),
        frozen(-2_000_000, -2_000_000),
        moving(0, -100_000, 0, 0, SCALE),
        moving(0, 1_000_000, 0, 0, SCALE),
        moving(1_000_000, 1_000_000, 0, 0, SCALE),
    ];
    for i in 0..4 {
        points[i].mass = 0;
    }
    let before = points.clone();
    let shapes = vec![
        Shape::new(vec![4, 5, 6], vec![]).unwrap(),
        Shape::new(vec![0, 1, 2, 3], vec![]).unwrap(),
    ];
    let skipped = Shape::resolve_collisions(&shapes, &mut points, 16_667);
    assert_eq!(skipped, 1);
    assert_eq!(points, before);
}

#[test]
fn separated_shapes_are_left_alone() {
    let mut points = vec![
        frozen(-2_000_000, 0),
        frozen(2_000_000, 0),
        frozen(2_000_000, -2_000_000),
        frozen(-2_000_000, -2_000_000),
        moving(10_000_000, 10_000_000, 0, 0, SCALE),
        moving(11_000_000, 10_000_000, 0, 0, SCALE),
        moving(10_000_000, 11_000_000, 0, 0, SCALE),
    ];
    let before = points.clone();
    let shapes = vec![
        Shape::new(vec![4, 5, 6], vec![]).unwrap(),
        Shape::new(vec![0, 1, 2, 3], vec![]).unwrap(),
    ];
    let skipped = Shape::resolve_collisions(&shapes, &mut points, 16_667);
    assert_eq!(skipped, 0);
    assert_eq!(points, before);
}
