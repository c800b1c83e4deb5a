use jelly2d::shape::Shape;
use jelly2d::vec2::dist;
use jelly2d::{find_nearest_point_on_line, MassPoint, SimError, Vec2};

fn v(x: i64, y: i64) -> Vec2 {
    Vec2 { x, y }
}

fn fixed(x: i64, y: i64) -> MassPoint {
    MassPoint {
        position: v(x, y),
        movable: false,
        ..MassPoint::default()
    }
}

/// A unit square, corners (0,0), (1,0), (1,1), (0,1).
fn unit_square() -> (Vec<MassPoint>, Shape) {
    let points = vec![
        fixed(0, 0),
        fixed(1_000_000, 0),
        fixed(1_000_000, 1_000_000),
        fixed(0, 1_000_000),
    ];
    let shape = Shape::new(vec![0, 1, 2, 3], vec![]).unwrap();
    (points, shape)
}

#[test]
fn projection_clamps_to_far_endpoint() {
    let r = find_nearest_point_on_line(v(5_000_000, 5_000_000), &v(0, 0), &v(1_000_000, 0));
    assert_eq!(r, v(1_000_000, 0));
}

#[test]
fn projection_clamps_to_near_endpoint() {
    let r = find_nearest_point_on_line(v(-5_000_000, 0), &v(0, 0), &v(1_000_000, 0));
    assert_eq!(r, v(0, 0));
}

#[test]
fn projection_hits_the_interior() {
    let r = find_nearest_point_on_line(
        v(300_000, 700_000),
        &v(0, 0),
        &v(1_000_000, 0),
    );
    assert_eq!(r, v(300_000, 0));
}

#[test]
fn projection_of_collapsed_segment_is_origin() {
    let r = find_nearest_point_on_line(v(9, 9), &v(4, 4), &v(4, 4));
    assert_eq!(r, v(4, 4));
}

#[test]
fn point_inside_unit_square_is_detected() {
    let (points, square) = unit_square();
    let probe = MassPoint {
        position: v(500_000, 500_000),
        ..MassPoint::default()
    };
    let hit = Shape::point_to_polygon_collision_detection(&probe, &square, &points);
    // all four sides are equally near; the first (bottom) side wins
    let ((a, b), closest) = hit.expect("the center must test inside");
    assert_eq!((a, b), (0, 1));
    assert_eq!(closest, v(500_000, 0));
}

#[test]
fn point_outside_unit_square_is_not_detected() {
    let (points, square) = unit_square();
    let probe = MassPoint {
        position: v(2_000_000, 2_000_000),
        ..MassPoint::default()
    };
    let hit = Shape::point_to_polygon_collision_detection(&probe, &square, &points);
    assert!(hit.is_none());
}

#[test]
fn point_on_edge_does_not_panic() {
    let (points, square) = unit_square();
    for probe_pos in [v(500_000, 0), v(0, 0), v(1_000_000, 500_000)] {
        let probe = MassPoint {
            position: probe_pos,
            ..MassPoint::default()
        };
        // either verdict is fine; the call must merely return cleanly
        let _ = Shape::point_to_polygon_collision_detection(&probe, &square, &points);
    }
}

#[test]
fn nearest_side_is_chosen() {
    let (points, square) = unit_square();
    // close to the top side: the chosen side must be (2, 3)
    let probe = MassPoint {
        position: v(500_000, 900_000),
        ..MassPoint::default()
    };
    let ((a, b), closest) =
        Shape::point_to_polygon_collision_detection(&probe, &square, &points).unwrap();
    assert_eq!((a, b), (2, 3));
    assert_eq!(closest, v(500_000, 1_000_000));
}

#[test]
fn distance_is_euclidean() {
    assert_eq!(dist(&v(0, 0), &v(3_000_000, 4_000_000)), 5_000_000);
    assert_eq!(dist(&v(1, 1), &v(1, 1)), 0);
}

#[test]
fn bounding_box_spans_all_vertices() {
    let points = vec![
        fixed(-5, 10),
        fixed(20, -30),
        fixed(7, 7),
    ];
    let shape = Shape::new(vec![0, 1, 2], vec![]).unwrap();
    assert_eq!(shape.get_bounding_box(&points), (-5, 20, -30, 10));
}

#[test]
fn shape_new_rejects_thin_polygons() {
    assert!(matches!(
        Shape::new(vec![0, 1], vec![]),
        Err(SimError::ShapeArity)
    ));
    assert!(Shape::new(vec![0, 1, 2], vec![]).is_ok());
}
