//! Polygonal soft bodies, their bounding boxes, and the detection of
//! vertices that have sunk into another body's polygon.

use vstd::prelude::*;

use crate::error::SimError;
use crate::geom::{
    best_edge, edge_crosses, find_nearest_point_on_line, inside_polygon, lemma_parity_has_edge,
    next_idx, parity,
};
use crate::num::mul_wide;
use crate::point::MassPoint;
use crate::vec2::{check_vec_in_range, dist_sq_wide, vec_in_range, Vec2};

verus! {

/// One soft body: an ordered, closed loop of point-mass references whose
/// consecutive pairs (wrapping around) are the polygon's sides, plus the
/// springs that give the body structural rigidity. Order matters; the
/// references need not be unique across shapes.
#[derive(Clone, Debug)]
pub struct Shape {
    /// Arena indices of the boundary vertices, in polygon order.
    pub points: Vec<usize>,
    /// Arena indices of the springs stiffening this body.
    pub springs: Vec<usize>,
}

/// Every vertex reference of the list resolves into the arena.
pub open spec fn refs_ok(ps: Seq<MassPoint>, pts: Seq<usize>) -> bool {
    forall|i: int| 0 <= i < pts.len() ==> (#[trigger] pts[i]) < ps.len()
}

/// The referenced vertices all sit in the range the geometry accepts.
pub open spec fn poly_in_range(ps: Seq<MassPoint>, pts: Seq<usize>) -> bool {
    forall|i: int|
        0 <= i < pts.len() ==> vec_in_range(ps[(#[trigger] pts[i]) as int].position)
}

/// A polygon the detector will look at: at least three resolvable
/// vertices, all in range.
pub open spec fn shape_ok(ps: Seq<MassPoint>, pts: Seq<usize>) -> bool {
    &&& 3 <= pts.len()
    &&& refs_ok(ps, pts)
    &&& poly_in_range(ps, pts)
}

/// The vertex positions a reference list currently points at.
pub open spec fn poly_positions(ps: Seq<MassPoint>, pts: Seq<usize>) -> Seq<Vec2> {
    pts.map_values(|idx: usize| ps[idx as int].position)
}

/// What detection reports for a point against a polygon: nothing when the
/// point's rightward ray crosses the boundary an even number of times
/// (the point is outside); otherwise the crossed side whose nearest point
/// lies closest to the point, with that nearest point.
pub open spec fn detect_spec(ppos: Vec2, poly: Seq<Vec2>) -> Option<(int, Vec2)> {
    if inside_polygon(ppos, poly) {
        best_edge(ppos, poly, poly.len() as int)
    } else {
        None
    }
}

/// Runtime test for [`shape_ok`].
pub fn check_shape_ok(points: &Vec<MassPoint>, pts: &Vec<usize>) -> (r: bool)
    ensures
        r == shape_ok(points@, pts@),
{
    if pts.len() < 3 {
        return false;
    }
    let n = pts.len();
    for i in 0..n
        invariant
            n == pts@.len(),
            forall|j: int| 0 <= j < i ==> (#[trigger] pts@[j]) < points@.len(),
            forall|j: int|
                0 <= j < i ==> vec_in_range(points@[(#[trigger] pts@[j]) as int].position),
    {
        let idx = pts[i];
        if idx >= points.len() {
            return false;
        }
        if !check_vec_in_range(&points[idx].position) {
            return false;
        }
    }
    true
}

impl Shape {
    /// A validated shape: a boundary of fewer than three vertices is
    /// refused at construction.
    pub fn new(points: Vec<usize>, springs: Vec<usize>) -> (r: Result<Shape, SimError>)
        ensures
            points@.len() >= 3 ==> (r matches Ok(s) && s.points@ == points@ && s.springs@
                == springs@),
            points@.len() < 3 ==> r == Err::<Shape, SimError>(SimError::ShapeArity),
    {
        if points.len() < 3 {
            Err(SimError::ShapeArity)
        } else {
            Ok(Shape { points, springs })
        }
    }

    /// The axis-aligned bounding box of this shape's vertices, as
    /// `(min_x, max_x, min_y, max_y)`; all zeros for an empty vertex list.
    pub fn get_bounding_box(&self, points: &Vec<MassPoint>) -> (r: (i64, i64, i64, i64))
        requires
            refs_ok(points@, self.points@),
        ensures
            self.points@.len() == 0 ==> r == (0i64, 0i64, 0i64, 0i64),
            self.points@.len() > 0 ==> {
                let poly = poly_positions(points@, self.points@);
                &&& forall|i: int|
                    0 <= i < poly.len() ==> r.0 <= (#[trigger] poly[i]).x <= r.1 && r.2
                        <= poly[i].y <= r.3
                &&& exists|i: int| 0 <= i < poly.len() && (#[trigger] poly[i]).x == r.0
                &&& exists|i: int| 0 <= i < poly.len() && (#[trigger] poly[i]).x == r.1
                &&& exists|i: int| 0 <= i < poly.len() && (#[trigger] poly[i]).y == r.2
                &&& exists|i: int| 0 <= i < poly.len() && (#[trigger] poly[i]).y == r.3
            },
    {
        let n = self.points.len();
        if n == 0 {
            return (0, 0, 0, 0);
        }
        let first = points[self.points[0]].position;
        let mut min_x = first.x;
        let mut max_x = first.x;
        let mut min_y = first.y;
        let mut max_y = first.y;
        let ghost poly = poly_positions(points@, self.points@);
        proof {
            assert(poly[0] == first);
        }
        for i in 1..n
            invariant
                n == self.points@.len(),
                refs_ok(points@, self.points@),
                poly == poly_positions(points@, self.points@),
                forall|j: int|
                    0 <= j < i ==> min_x <= (#[trigger] poly[j]).x <= max_x && min_y <= poly[j].y
                        <= max_y,
                exists|j: int| 0 <= j < i && (#[trigger] poly[j]).x == min_x,
                exists|j: int| 0 <= j < i && (#[trigger] poly[j]).x == max_x,
                exists|j: int| 0 <= j < i && (#[trigger] poly[j]).y == min_y,
                exists|j: int| 0 <= j < i && (#[trigger] poly[j]).y == max_y,
        {
            let p = points[self.points[i]].position;
            proof {
                assert(poly[i as int] == p);
            }
            if p.x < min_x {
                min_x = p.x;
            }
            if p.x > max_x {
                max_x = p.x;
            }
            if p.y < min_y {
                min_y = p.y;
            }
            if p.y > max_y {
                max_y = p.y;
            }
        }
        (min_x, max_x, min_y, max_y)
    }

    /// The even-odd ray test of `point` against `shape`'s polygon: `None`
    /// when the point is outside; otherwise the two arena references of
    /// the chosen side — the side of the polygon nearest to the point —
    /// together with the nearest point of that side.
    pub fn point_to_polygon_collision_detection(
        point: &MassPoint,
        shape: &Shape,
        points: &Vec<MassPoint>,
    ) -> (r: Option<((usize, usize), Vec2)>)
        requires
            shape_ok(points@, shape.points@),
            vec_in_range(point.position),
        ensures
            ({
                let poly = poly_positions(points@, shape.points@);
                &&& (r is Some <==> inside_polygon(point.position, poly))
                &&& match detect_spec(point.position, poly) {
                    None => r is None,
                    Some((i, q)) => r == Some(
                        ((shape.points@[i], shape.points@[next_idx(i, poly.len() as int)]), q),
                    ),
                }
            }),
    {
        let ppos = point.position;
        let n = shape.points.len();
        let ghost poly = poly_positions(points@, shape.points@);
        proof {
            assert(poly.len() == n);
        }
        let mut inside = false;
        let mut best: Option<(usize, Vec2)> = None;
        for cur in 0..n
            invariant
                n == shape.points@.len(),
                shape_ok(points@, shape.points@),
                vec_in_range(ppos),
                poly == poly_positions(points@, shape.points@),
                poly.len() == n,
                inside == parity(ppos, poly, cur as int),
                match best_edge(ppos, poly, cur as int) {
                    None => best is None,
                    Some((i, q)) => best == Some((i as usize, q)) && 0 <= i < cur && vec_in_range(
                        q,
                    ),
                },
        {
            let next = if cur + 1 == n {
                0
            } else {
                cur + 1
            };
            let c = points[shape.points[cur]].position;
            let nx = points[shape.points[next]].position;
            proof {
                assert(poly[cur as int] == c);
                assert(poly[next as int] == nx);
                assert(next as int == next_idx(cur as int, poly.len() as int));
            }
            let crosses = if (c.y > ppos.y) != (nx.y > ppos.y) {
                let lhs = mul_wide(ppos.x - c.x, nx.y - c.y);
                let rhs = mul_wide(nx.x - c.x, ppos.y - c.y);
                if nx.y > c.y {
                    lhs < rhs
                } else {
                    lhs > rhs
                }
            } else {
                false
            };
            proof {
                assert(crosses == edge_crosses(ppos, poly[cur as int], poly[next as int]));
            }
            if crosses {
                inside = !inside;
            }
            let proj = find_nearest_point_on_line(ppos, &c, &nx);
            let dsq = dist_sq_wide(&ppos, &proj);
            best = match best {
                None => Some((cur, proj)),
                Some((bi, bq)) => {
                    let bdsq = dist_sq_wide(&ppos, &bq);
                    if dsq < bdsq {
                        Some((cur, proj))
                    } else {
                        Some((bi, bq))
                    }
                },
            };
        }
        if inside {
            match best {
                Some((bi, bq)) => {
                    let bnext = if bi + 1 == shape.points.len() {
                        0
                    } else {
                        bi + 1
                    };
                    Some(((shape.points[bi], shape.points[bnext]), bq))
                },
                None => {
                    proof {
                        lemma_parity_has_edge(ppos, poly, n as int);
                    }
                    vstd::pervasive::unreached()
                },
            }
        } else {
            None
        }
    }
}

} // verus!
