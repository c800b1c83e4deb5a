use jelly2d::{MassPoint, SimError, Spring, Vec2, SCALE};

fn v(x: i64, y: i64) -> Vec2 {
    Vec2 { x, y }
}

fn point_at(x: i64, y: i64, vx: i64, vy: i64) -> MassPoint {
    MassPoint {
        position: v(x, y),
        velocity: v(vx, vy),
        ..MassPoint::default()
    }
}

#[test]
fn undamped_forces_are_exact_opposites() {
    // stiffness 3, rest 1, distance 2: force 3 * (2 - 1) = 3 along +x.
    let a = point_at(0, 0, 0, 0);
    let b = point_at(2_000_000, 0, 0, 0);
    let (fa, fb) = Spring::get_force(&a, &b, 3_000_000, 0, 1_000_000);
    assert_eq!(fa, v(3_000_000, 0));
    assert_eq!(fb, v(-3_000_000, 0));
}

#[test]
fn damped_forces_are_exact_opposites() {
    // Closing velocity reduces the pull through the damping term, and the
    // two contributions still cancel exactly.
    let a = point_at(0, 0, 0, 0);
    let b = point_at(2_000_000, 0, -500_000, 0);
    let (fa, fb) = Spring::get_force(&a, &b, 3_000_000, 700_000, 1_000_000);
    assert_eq!(fa, v(2_650_000, 0));
    assert_eq!(fb, v(-2_650_000, 0));
    assert_eq!(fb.x, -fa.x);
    assert_eq!(fb.y, -fa.y);
}

#[test]
fn coincident_endpoints_yield_no_force() {
    let a = point_at(5, 5, 0, 0);
    let b = point_at(5, 5, 0, 0);
    let (fa, fb) = Spring::get_force(&a, &b, 3_000_000, 700_000, 1_000_000);
    assert_eq!(fa, v(0, 0));
    assert_eq!(fb, v(0, 0));
}

#[test]
fn update_springs_accumulates_into_both_endpoints() {
    let mut points = vec![point_at(0, 0, 0, 0), point_at(2_000_000, 0, 0, 0)];
    let springs = vec![Spring::new(0, 1, 3_000_000, 1_000_000, 0).unwrap()];
    let skipped = Spring::update_springs(&springs, &mut points);
    assert_eq!(skipped, 0);
    assert_eq!(points[0].force, v(3_000_000, 0));
    assert_eq!(points[1].force, v(-3_000_000, 0));
    // positions and velocities are untouched by the spring stage
    assert_eq!(points[0].position, v(0, 0));
    assert_eq!(points[1].velocity, v(0, 0));
}

#[test]
fn springs_on_one_point_add_up() {
    let mut points = vec![
        point_at(0, 0, 0, 0),
        point_at(2_000_000, 0, 0, 0),
        point_at(-2_000_000, 0, 0, 0),
    ];
    let springs = vec![
        Spring::new(0, 1, 3_000_000, 1_000_000, 0).unwrap(),
        Spring::new(0, 2, 3_000_000, 1_000_000, 0).unwrap(),
    ];
    Spring::update_springs(&springs, &mut points);
    // equal pulls left and right cancel on the shared endpoint
    assert_eq!(points[0].force, v(0, 0));
    assert_eq!(points[1].force, v(-3_000_000, 0));
    assert_eq!(points[2].force, v(3_000_000, 0));
}

#[test]
fn immovable_endpoint_takes_no_force() {
    let mut points = vec![
        MassPoint {
            movable: false,
            ..point_at(0, 0, 0, 0)
        },
        point_at(2_000_000, 0, 0, 0),
    ];
    let springs = vec![Spring::new(0, 1, 3_000_000, 1_000_000, 0).unwrap()];
    Spring::update_springs(&springs, &mut points);
    assert_eq!(points[0].force, v(0, 0));
    assert_eq!(points[1].force, v(-3_000_000, 0));
}

#[test]
fn stale_and_colliding_references_are_skipped_and_reported() {
    let mut points = vec![point_at(0, 0, 0, 0), point_at(2_000_000, 0, 0, 0)];
    let before = points.clone();
    let springs = vec![
        Spring {
            mp_a: 0,
            mp_b: 7,
            stiffness: 3_000_000,
            rest_length: 1_000_000,
            damping_factor: 0,
        },
        Spring {
            mp_a: 1,
            mp_b: 1,
            stiffness: 3_000_000,
            rest_length: 1_000_000,
            damping_factor: 0,
        },
    ];
    let skipped = Spring::update_springs(&springs, &mut points);
    assert_eq!(skipped, 2);
    assert_eq!(points, before);
}

#[test]
fn new_rejects_bad_springs() {
    assert_eq!(Spring::new(3, 3, SCALE, SCALE, 0), Err(SimError::StaleReference));
    assert_eq!(
        Spring::new(0, 1, -1, SCALE, 0),
        Err(SimError::InvalidConfiguration)
    );
    assert_eq!(
        Spring::new(0, 1, SCALE, -2, 0),
        Err(SimError::InvalidConfiguration)
    );
    assert_eq!(
        Spring::new(0, 1, SCALE, SCALE, -3),
        Err(SimError::InvalidConfiguration)
    );
    let s = Spring::new(0, 1, SCALE, SCALE, 0).unwrap();
    assert_eq!(s.mp_a, 0);
    assert_eq!(s.mp_b, 1);
}
