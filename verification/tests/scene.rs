use jelly2d::shape::Shape;
use jelly2d::{match_shapes, MassPoint, ShapeMatcher, Spring, Vec2, SCALE};

fn v(x: i64, y: i64) -> Vec2 {
    Vec2 { x, y }
}

const UNIT: i64 = SCALE;

fn square_point(x: i64, y: i64) -> MassPoint {
    MassPoint {
        position: v(x, y),
        ..MassPoint::default()
    }
}

fn floor_point(x: i64, y: i64) -> MassPoint {
    MassPoint {
        position: v(x, y),
        movable: false,
        ..MassPoint::default()
    }
}

/// A square soft body of 4 unit-mass points and 6 springs (4 sides, 2
/// diagonals) dropped under constant gravity onto an immovable floor. It
/// must come to rest on the floor's top edge instead of bouncing forever
/// or sinking through.
#[test]
fn dropped_square_comes_to_rest_on_the_floor() {
    let size = 200 * UNIT;
    let (ox, oy) = (-200 * UNIT, 100 * UNIT);
    let mut points = vec![
        square_point(ox, oy),
        square_point(ox + size, oy),
        square_point(ox + size, oy - size),
        square_point(ox, oy - size),
        floor_point(-300 * UNIT, -200 * UNIT),
        floor_point(300 * UNIT, -200 * UNIT),
        floor_point(300 * UNIT, -300 * UNIT),
        floor_point(-300 * UNIT, -300 * UNIT),
    ];
    let stiffness = 10 * SCALE;
    let damping = 700_000; // 0.7
    let diagonal = 282_842_712; // size * sqrt(2), in millionths
    let springs = vec![
        Spring::new(0, 1, stiffness, size, damping).unwrap(),
        Spring::new(2, 1, stiffness, size, damping).unwrap(),
        Spring::new(2, 3, stiffness, size, damping).unwrap(),
        Spring::new(3, 0, stiffness, size, damping).unwrap(),
        Spring::new(0, 2, stiffness, diagonal, damping).unwrap(),
        Spring::new(1, 3, stiffness, diagonal, damping).unwrap(),
    ];
    let shapes = vec![
        Shape::new(vec![0, 1, 2, 3], vec![0, 1, 2, 3, 4, 5]).unwrap(),
        Shape::new(vec![4, 5, 6, 7], vec![]).unwrap(),
    ];
    let dt = 16_667; // roughly one sixtieth of a second
    let gravity_force = 100 * SCALE; // weight of a unit mass under g = 100
    for _ in 0..1800 {
        for p in points.iter_mut() {
            if p.movable {
                p.force.y -= gravity_force;
            }
        }
        Spring::update_springs(&springs, &mut points);
        MassPoint::update_mass_points(&mut points, dt);
        Shape::resolve_collisions(&shapes, &mut points, dt);
        jelly2d::dampen_velocities(&mut points, dt);
    }
    for p in &points[..4] {
        // at rest: vertical speed under one unit per second
        assert!(
            p.velocity.y.abs() <= UNIT,
            "vertical velocity too large: {}",
            p.velocity.y
        );
        // and nothing has sunk below the floor's top edge by over a unit
        assert!(
            p.position.y >= -200 * UNIT - UNIT,
            "sunk below the floor: {}",
            p.position.y
        );
    }
    // the floor itself has not moved at all
    assert_eq!(points[4].position, v(-300 * UNIT, -200 * UNIT));
    assert_eq!(points[5].position, v(300 * UNIT, -200 * UNIT));
}

#[test]
fn matcher_reports_centroids() {
    let points = vec![
        square_point(0, 0),
        square_point(1_000_000, 0),
        square_point(1_000_000, 1_000_000),
        square_point(0, 1_000_000),
    ];
    let shapes = vec![Shape::new(vec![0, 1, 2, 3], vec![]).unwrap()];
    let matchers = vec![ShapeMatcher {
        original_shape: vec![v(0, 0), v(1_000_000, 0), v(1_000_000, 1_000_000), v(0, 1_000_000)],
        spring_stiffness: SCALE,
        spring_damping_factor: 0,
    }];
    let r = match_shapes(&shapes, &matchers, &points);
    assert_eq!(r, vec![Some(v(500_000, 500_000))]);
}

#[test]
fn matcher_reports_arity_mismatch() {
    let points = vec![
        square_point(0, 0),
        square_point(1_000_000, 0),
        square_point(0, 1_000_000),
    ];
    let shapes = vec![Shape::new(vec![0, 1, 2], vec![]).unwrap()];
    let matchers = vec![ShapeMatcher {
        original_shape: vec![v(0, 0), v(1_000_000, 0)],
        spring_stiffness: SCALE,
        spring_damping_factor: 0,
    }];
    let r = match_shapes(&shapes, &matchers, &points);
    assert_eq!(r, vec![None]);
}

#[test]
fn matcher_reports_stale_references() {
    let points = vec![square_point(0, 0)];
    let shapes = vec![Shape::new(vec![0, 5, 6], vec![]).unwrap()];
    let matchers = vec![ShapeMatcher {
        original_shape: vec![v(0, 0), v(1, 1), v(2, 2)],
        spring_stiffness: SCALE,
        spring_damping_factor: 0,
    }];
    let r = match_shapes(&shapes, &matchers, &points);
    assert_eq!(r, vec![None]);
}

#[test]
fn matcher_pairs_by_index() {
    let points = vec![
        square_point(0, 0),
        square_point(2_000_000, 0),
        square_point(2_000_000, 2_000_000),
    ];
    let shapes = vec![
        Shape::new(vec![0, 1, 2], vec![]).unwrap(),
        Shape::new(vec![0, 1, 2], vec![]).unwrap(),
    ];
    // only one matcher: the second shape has no partner and no report
    let matchers = vec![ShapeMatcher {
        original_shape: vec![v(0, 0), v(1, 0), v(0, 1)],
        spring_stiffness: SCALE,
        spring_damping_factor: 0,
    }];
    let r = match_shapes(&shapes, &matchers, &points);
    assert_eq!(r.len(), 1);
    assert_eq!(r[0], Some(v(1_333_333, 666_666)));
}
