//! Shape matching: pairing each soft body with the reference outline it
//! was built from, and the centroid of its current vertices.

use vstd::prelude::*;

use crate::num::{div_t, lemma_tdiv_bounds, tdiv};
use crate::point::MassPoint;
use crate::shape::{refs_ok, Shape};
use crate::vec2::Vec2;

verus! {

/// The reference outline a soft body should be pulled back toward, with
/// the spring parameters to use for the pull.
#[derive(Clone, Debug)]
pub struct ShapeMatcher {
    /// The outline's vertices, in the same order as the shape's.
    pub original_shape: Vec<Vec2>,
    pub spring_stiffness: i64,
    pub spring_damping_factor: i64,
}

/// The x coordinates of the first `k` referenced vertices, summed.
pub open spec fn sum_x(ps: Seq<MassPoint>, pts: Seq<usize>, k: int) -> int
    decreases k,
{
    if k <= 0 {
        0
    } else {
        sum_x(ps, pts, k - 1) + ps[pts[k - 1] as int].position.x
    }
}

/// The y coordinates of the first `k` referenced vertices, summed.
pub open spec fn sum_y(ps: Seq<MassPoint>, pts: Seq<usize>, k: int) -> int
    decreases k,
{
    if k <= 0 {
        0
    } else {
        sum_y(ps, pts, k - 1) + ps[pts[k - 1] as int].position.y
    }
}

/// What matching reports for one shape and its matcher: nothing when the
/// two outlines disagree in arity, the shape is empty, or a reference is
/// stale; otherwise the centroid of the shape's current vertices.
pub open spec fn match_one_spec(ps: Seq<MassPoint>, s: Shape, m: ShapeMatcher) -> Option<Vec2> {
    let pts = s.points@;
    if pts.len() != m.original_shape@.len() || pts.len() == 0 || !refs_ok(ps, pts) {
        None
    } else {
        Some(
            Vec2 {
                x: tdiv(sum_x(ps, pts, pts.len() as int), pts.len() as int) as i64,
                y: tdiv(sum_y(ps, pts, pts.len() as int), pts.len() as int) as i64,
            },
        )
    }
}

/// The centroid of the vertices a reference list points at.
fn centroid(points: &Vec<MassPoint>, pts: &Vec<usize>) -> (r: Vec2)
    requires
        refs_ok(points@, pts@),
        pts@.len() > 0,
    ensures
        r.x as int == tdiv(sum_x(points@, pts@, pts@.len() as int), pts@.len() as int),
        r.y as int == tdiv(sum_y(points@, pts@, pts@.len() as int), pts@.len() as int),
{
    let n = pts.len();
    let mut sx: i128 = 0;
    let mut sy: i128 = 0;
    for i in 0..n
        invariant
            n == pts@.len(),
            refs_ok(points@, pts@),
            sx as int == sum_x(points@, pts@, i as int),
            sy as int == sum_y(points@, pts@, i as int),
            i64::MIN as int * i <= sx as int <= i64::MAX as int * i,
            i64::MIN as int * i <= sy as int <= i64::MAX as int * i,
    {
        let p = points[pts[i]].position;
        sx = sx + p.x as i128;
        sy = sy + p.y as i128;
    }
    proof {
        lemma_tdiv_bounds(sx as int, n as int, i64::MIN as int, i64::MAX as int);
        lemma_tdiv_bounds(sy as int, n as int, i64::MIN as int, i64::MAX as int);
    }
    let cx = div_t(sx, n as i128);
    let cy = div_t(sy, n as i128);
    Vec2 { x: cx as i64, y: cy as i64 }
}

/// Pairs each shape with the matcher of the same index and reports, for
/// every pair, the centroid of the shape's current vertices — or `None`,
/// reporting a shape whose arity disagrees with its outline's, an empty
/// shape, or a stale reference.
pub fn match_shapes(
    shapes: &Vec<Shape>,
    matchers: &Vec<ShapeMatcher>,
    points: &Vec<MassPoint>,
) -> (r: Vec<Option<Vec2>>)
    ensures
        r@.len() == if shapes@.len() <= matchers@.len() {
            shapes@.len()
        } else {
            matchers@.len()
        },
        forall|i: int|
            0 <= i < r@.len() ==> r@[i] == match_one_spec(points@, shapes@[i], matchers@[i]),
{
    let n = if shapes.len() <= matchers.len() {
        shapes.len()
    } else {
        matchers.len()
    };
    let mut r: Vec<Option<Vec2>> = Vec::new();
    for i in 0..n
        invariant
            n == if shapes@.len() <= matchers@.len() {
                shapes@.len()
            } else {
                matchers@.len()
            },
            n <= shapes@.len() && n <= matchers@.len(),
            r@.len() == i,
            forall|j: int|
                0 <= j < i ==> r@[j] == match_one_spec(points@, shapes@[j], matchers@[j]),
    {
        let s = &shapes[i];
        let m = &matchers[i];
        if s.points.len() != m.original_shape.len() || s.points.len() == 0 {
            r.push(None);
        } else {
            let mut ok = true;
            let len = s.points.len();
            for j in 0..len
                invariant
                    len == s.points@.len(),
                    ok == (forall|t: int| 0 <= t < j ==> (#[trigger] s.points@[t]) < points@.len()),
            {
                if s.points[j] >= points.len() {
                    ok = false;
                }
            }
            if !ok {
                r.push(None);
            } else {
                let c = centroid(points, &s.points);
                r.push(Some(c));
            }
        }
    }
    r
}

} // verus!
