use jelly2d::{MassPoint, SimError, Vec2, SCALE};

fn v(x: i64, y: i64) -> Vec2 {
    Vec2 { x, y }
}

#[test]
fn zero_force_moves_by_velocity_times_dt() {
    // One second of drift: position advances by exactly velocity * dt.
    let mut points = vec![MassPoint {
        position: v(1_000_000, 2_000_000),
        velocity: v(500_000, -250_000),
        mass: SCALE,
        force: v(0, 0),
        movable: true,
    }];
    MassPoint::update_mass_points(&mut points, SCALE);
    assert_eq!(points[0].position, v(1_500_000, 1_750_000));
    assert_eq!(points[0].velocity, v(500_000, -250_000));
    assert_eq!(points[0].force, v(0, 0));
}

#[test]
fn constant_force_gains_velocity_linearly() {
    // force 1, mass 1, dt 1s: velocity grows by exactly 1 unit/s per step.
    let mut p = MassPoint {
        position: v(0, 0),
        velocity: v(0, 0),
        mass: SCALE,
        force: v(0, 0),
        movable: true,
    };
    for k in 1..=5i64 {
        p.force = v(1_000_000, 0);
        p.update_mass_point(SCALE);
        assert_eq!(p.velocity.x, k * 1_000_000);
        assert_eq!(p.velocity.y, 0);
        assert_eq!(p.force, v(0, 0));
    }
}

#[test]
fn integrator_consumes_accumulator_once() {
    // velocity += force/mass*dt; position += velocity*dt; force = 0.
    let mut points = vec![MassPoint {
        position: v(10_000_000, 0),
        velocity: v(0, 0),
        mass: 2_000_000,
        force: v(4_000_000, -2_000_000),
        movable: true,
    }];
    // dt = 0.5 s: dv = f*dt/m = (1.0, -0.5); position += v' * dt.
    MassPoint::update_mass_points(&mut points, 500_000);
    assert_eq!(points[0].velocity, v(1_000_000, -500_000));
    assert_eq!(points[0].position, v(10_500_000, -250_000));
    assert_eq!(points[0].force, v(0, 0));
}

#[test]
fn immovable_point_is_bit_identical_after_integration() {
    let frozen = MassPoint {
        position: v(123, 456),
        velocity: v(-7, 8),
        mass: SCALE,
        force: v(999_999, -999_999),
        movable: false,
    };
    let mut points = vec![frozen, MassPoint::default()];
    for _ in 0..100 {
        points[0].force = v(5_000_000, 5_000_000);
        MassPoint::update_mass_points(&mut points, 16_667);
    }
    assert_eq!(points[0].position, v(123, 456));
    assert_eq!(points[0].velocity, v(-7, 8));
}

#[test]
fn invalid_mass_behaves_as_immovable() {
    // A zero mass never divides: the point is left untouched.
    let mut points = vec![MassPoint {
        position: v(1, 2),
        velocity: v(3, 4),
        mass: 0,
        force: v(1_000_000, 0),
        movable: true,
    }];
    MassPoint::update_mass_points(&mut points, SCALE);
    assert_eq!(points[0].position, v(1, 2));
    assert_eq!(points[0].velocity, v(3, 4));
}

#[test]
fn overflowing_update_is_skipped_whole() {
    // force * dt / mass would leave i64: the point keeps its old record.
    let mut points = vec![MassPoint {
        position: v(0, 0),
        velocity: v(100, 0),
        mass: 1,
        force: v(i64::MAX, 0),
        movable: true,
    }];
    MassPoint::update_mass_points(&mut points, SCALE);
    assert_eq!(points[0].position, v(0, 0));
    assert_eq!(points[0].velocity, v(100, 0));
    assert_eq!(points[0].force, v(i64::MAX, 0));
}

#[test]
fn new_rejects_nonpositive_mass() {
    assert_eq!(
        MassPoint::new(v(0, 0), v(0, 0), 0, true),
        Err(SimError::InvalidConfiguration)
    );
    assert_eq!(
        MassPoint::new(v(0, 0), v(0, 0), -5, false),
        Err(SimError::InvalidConfiguration)
    );
    let p = MassPoint::new(v(1, 2), v(3, 4), SCALE, true).unwrap();
    assert_eq!(p.position, v(1, 2));
    assert_eq!(p.force, v(0, 0));
}

#[test]
fn default_is_movable_unit_mass_at_rest() {
    let p = MassPoint::default();
    assert_eq!(p.position, v(0, 0));
    assert_eq!(p.velocity, v(0, 0));
    assert_eq!(p.mass, SCALE);
    assert!(p.movable);
}

#[test]
fn gravity_lowers_movable_points_only() {
    let mut points = vec![
        MassPoint {
            position: v(0, 50_000_000),
            ..MassPoint::default()
        },
        MassPoint {
            position: v(0, 50_000_000),
            movable: false,
            ..MassPoint::default()
        },
    ];
    // gravity 100 units/s^2 applied to position, dt = 16667 us.
    jelly2d::apply_gravity(&mut points, 100_000_000, 16_667);
    assert_eq!(points[0].position, v(0, 50_000_000 - 1_666_700));
    assert_eq!(points[1].position, v(0, 50_000_000));
}

#[test]
fn dampening_scales_every_velocity() {
    let mut points = vec![MassPoint {
        velocity: v(1_000_000, -333_333),
        ..MassPoint::default()
    }];
    jelly2d::dampen_velocities(&mut points, 16_667);
    assert_eq!(points[0].velocity, v(991_667, -330_555));
}
