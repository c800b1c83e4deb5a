//! 2D vectors of fixed-point scalars, and their Euclidean geometry.

use vstd::prelude::*;

use crate::num::{
    is_sqrt_floor, isqrt, lemma_mul_bounds, lemma_sqrt_floor_unique, sqrt_floor, MAX_COORD,
};

verus! {

/// A 2D vector; each component counts millionths of a unit.
#[derive(Clone, Copy, Debug, PartialEq, Eq, Structural)]
pub struct Vec2 {
    pub x: i64,
    pub y: i64,
}

/// A scalar the geometric stages accept: at most a thousand units either way.
pub open spec fn scalar_in_range(x: int) -> bool {
    -MAX_COORD <= x <= MAX_COORD
}

/// A vector both of whose components are in the accepted range.
pub open spec fn vec_in_range(v: Vec2) -> bool {
    scalar_in_range(v.x as int) && scalar_in_range(v.y as int)
}

/// Runtime test for [`vec_in_range`].
pub fn check_vec_in_range(v: &Vec2) -> (r: bool)
    ensures
        r == vec_in_range(*v),
{
    -MAX_COORD <= v.x && v.x <= MAX_COORD && -MAX_COORD <= v.y && v.y <= MAX_COORD
}

/// The squared Euclidean distance between two points.
pub open spec fn dist_sq(a: Vec2, b: Vec2) -> int {
    (b.x - a.x) * (b.x - a.x) + (b.y - a.y) * (b.y - a.y)
}

/// The Euclidean distance, rounded down to whole raw steps.
pub open spec fn dist_spec(a: Vec2, b: Vec2) -> int {
    sqrt_floor(dist_sq(a, b))
}

/// The squared distance on a wide intermediate.
pub fn dist_sq_wide(a: &Vec2, b: &Vec2) -> (r: i128)
    requires
        vec_in_range(*a),
        vec_in_range(*b),
    ensures
        r as int == dist_sq(*a, *b),
        0 <= r <= 8_000_000_000_000_000_000,
{
    let dx = b.x as i128 - a.x as i128;
    let dy = b.y as i128 - a.y as i128;
    proof {
        lemma_mul_bounds(dx as int, dx as int, 2 * MAX_COORD as int, 2 * MAX_COORD as int);
        lemma_mul_bounds(dy as int, dy as int, 2 * MAX_COORD as int, 2 * MAX_COORD as int);
        assert(dx as int * dx as int >= 0) by (nonlinear_arith);
        assert(dy as int * dy as int >= 0) by (nonlinear_arith);
    }
    dx * dx + dy * dy
}

/// The distance between two in-range points: it is always below three
/// thousand units.
pub fn dist(a: &Vec2, b: &Vec2) -> (r: i64)
    requires
        vec_in_range(*a),
        vec_in_range(*b),
    ensures
        r as int == dist_spec(*a, *b),
        0 <= r < 3_000_000_000,
{
    let sq = dist_sq_wide(a, b);
    let root = isqrt(sq as u128);
    proof {
        lemma_sqrt_floor_unique(sq as int, root as int);
        assert((root as int) < 3000000000) by (nonlinear_arith)
            requires
                is_sqrt_floor(sq as int, root as int),
                sq as int <= 8000000000000000000int,
        ;
    }
    root as i64
}

/// Neither component of the separation exceeds the distance itself.
pub proof fn lemma_component_le_dist(a: Vec2, b: Vec2)
    ensures
        dist_spec(a, b) >= 0,
        -dist_spec(a, b) <= b.x - a.x <= dist_spec(a, b),
        -dist_spec(a, b) <= b.y - a.y <= dist_spec(a, b),
{
    let dx = b.x - a.x;
    let dy = b.y - a.y;
    assert(dx * dx + dy * dy >= dx * dx >= 0 && dx * dx + dy * dy >= dy * dy) by (nonlinear_arith);
    crate::num::lemma_sqrt_floor_is_floor(dist_sq(a, b));
    let r = sqrt_floor(dist_sq(a, b));
    assert(-r <= dx <= r && -r <= dy <= r) by (nonlinear_arith)
        requires
            is_sqrt_floor(dx * dx + dy * dy, r),
    ;
}

} // verus!
