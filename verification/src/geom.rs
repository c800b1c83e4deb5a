//! Segment projection and the even-odd point-in-polygon test.

use vstd::prelude::*;

use crate::num::{div_t, lemma_mul_bounds, lemma_tdiv_bounds, tdiv, MAX_COORD};
use crate::vec2::{dist_sq, vec_in_range, Vec2};

verus! {

pub open spec fn clamp_spec(x: int, lo: int, hi: int) -> int {
    if x < lo {
        lo
    } else if x > hi {
        hi
    } else {
        x
    }
}

/// The point of the closed segment from `o` to `e` nearest to `p`.
///
/// The scalar projection of `p - o` onto the heading `e - o` is clamped to
/// the segment before it is applied, so the result never leaves the
/// segment. Working with the squared length `l2` folds the two divisions
/// of the classical form (normalize, then scale back) into one exact one.
pub open spec fn project_spec(p: Vec2, o: Vec2, e: Vec2) -> Vec2 {
    let hx = e.x - o.x;
    let hy = e.y - o.y;
    let l2 = hx * hx + hy * hy;
    if l2 == 0 {
        o
    } else {
        let d = (p.x - o.x) * hx + (p.y - o.y) * hy;
        let dc = clamp_spec(d, 0, l2);
        Vec2 { x: (o.x + tdiv(hx * dc, l2)) as i64, y: (o.y + tdiv(hy * dc, l2)) as i64 }
    }
}

/// Nearest point on the closed segment from `origin` to `end`; a
/// zero-length segment yields `origin`. The result's coordinates lie
/// between the endpoints'.
pub fn find_nearest_point_on_line(point: Vec2, origin: &Vec2, end: &Vec2) -> (r: Vec2)
    requires
        vec_in_range(point),
        vec_in_range(*origin),
        vec_in_range(*end),
    ensures
        r == project_spec(point, *origin, *end),
        origin.x <= r.x <= end.x || end.x <= r.x <= origin.x,
        origin.y <= r.y <= end.y || end.y <= r.y <= origin.y,
        vec_in_range(r),
{
    let hx = end.x as i128 - origin.x as i128;
    let hy = end.y as i128 - origin.y as i128;
    proof {
        lemma_mul_bounds(hx as int, hx as int, 2 * MAX_COORD as int, 2 * MAX_COORD as int);
        lemma_mul_bounds(hy as int, hy as int, 2 * MAX_COORD as int, 2 * MAX_COORD as int);
        assert(hx as int * hx as int >= 0) by (nonlinear_arith);
        assert(hy as int * hy as int >= 0) by (nonlinear_arith);
    }
    let l2 = hx * hx + hy * hy;
    if l2 == 0 {
        proof {
            assert(hx == 0 && hy == 0) by (nonlinear_arith)
                requires
                    hx as int * hx as int + hy as int * hy as int == 0,
            ;
        }
        return *origin;
    }
    let dx = point.x as i128 - origin.x as i128;
    let dy = point.y as i128 - origin.y as i128;
    proof {
        lemma_mul_bounds(dx as int, hx as int, 2 * MAX_COORD as int, 2 * MAX_COORD as int);
        lemma_mul_bounds(dy as int, hy as int, 2 * MAX_COORD as int, 2 * MAX_COORD as int);
    }
    let d = dx * hx + dy * hy;
    let dc = if d < 0 {
        0
    } else if d > l2 {
        l2
    } else {
        d
    };
    proof {
        lemma_mul_bounds(hx as int, dc as int, 2 * MAX_COORD as int, l2 as int);
        lemma_mul_bounds(hy as int, dc as int, 2 * MAX_COORD as int, l2 as int);
        if hx >= 0 {
            assert(0 <= (hx as int) * (dc as int) <= (hx as int) * (l2 as int)) by (nonlinear_arith)
                requires
                    0 <= hx as int,
                    0 <= (dc as int) <= (l2 as int),
            ;
            lemma_tdiv_bounds(hx as int * dc as int, l2 as int, 0, hx as int);
        } else {
            assert((hx as int) * (l2 as int) <= (hx as int) * (dc as int) <= 0) by (nonlinear_arith)
                requires
                    (hx as int) < 0,
                    0 <= (dc as int) <= (l2 as int),
            ;
            lemma_tdiv_bounds(hx as int * dc as int, l2 as int, hx as int, 0);
        }
        if hy >= 0 {
            assert(0 <= (hy as int) * (dc as int) <= (hy as int) * (l2 as int)) by (nonlinear_arith)
                requires
                    0 <= hy as int,
                    0 <= (dc as int) <= (l2 as int),
            ;
            lemma_tdiv_bounds(hy as int * dc as int, l2 as int, 0, hy as int);
        } else {
            assert((hy as int) * (l2 as int) <= (hy as int) * (dc as int) <= 0) by (nonlinear_arith)
                requires
                    (hy as int) < 0,
                    0 <= (dc as int) <= (l2 as int),
            ;
            lemma_tdiv_bounds(hy as int * dc as int, l2 as int, hy as int, 0);
        }
    }
    let tx = div_t(hx * dc, l2);
    let ty = div_t(hy * dc, l2);
    Vec2 { x: origin.x + tx as i64, y: origin.y + ty as i64 }
}

/// The wrapping successor of a vertex index in a polygon of `len` vertices.
pub open spec fn next_idx(i: int, len: int) -> int {
    if i + 1 == len {
        0
    } else {
        i + 1
    }
}

/// Whether the horizontal ray running right from `p` crosses the open side
/// from `c` to `n`: the standard even-odd edge test, with the
/// x-intersection comparison cross-multiplied so no division (and no
/// division guard) is needed. The first conjunct already rejects every
/// horizontal side.
pub open spec fn edge_crosses(p: Vec2, c: Vec2, n: Vec2) -> bool {
    ((c.y > p.y) != (n.y > p.y)) && if n.y > c.y {
        (p.x - c.x) * (n.y - c.y) < (n.x - c.x) * (p.y - c.y)
    } else {
        (p.x - c.x) * (n.y - c.y) > (n.x - c.x) * (p.y - c.y)
    }
}

/// Even-odd parity of the crossings of `p`'s rightward ray with the first
/// `k` sides of the polygon: `true` after an odd number of crossings.
pub open spec fn parity(p: Vec2, poly: Seq<Vec2>, k: int) -> bool
    decreases k,
{
    if k <= 0 {
        false
    } else {
        parity(p, poly, k - 1) != edge_crosses(
            p,
            poly[k - 1],
            poly[next_idx(k - 1, poly.len() as int)],
        )
    }
}

/// `p` lies inside the polygon when its ray crosses the boundary an odd
/// number of times.
pub open spec fn inside_polygon(p: Vec2, poly: Seq<Vec2>) -> bool {
    parity(p, poly, poly.len() as int)
}

/// Among the first `k` sides, the first one whose nearest point to `p`
/// has minimal squared distance, with that nearest point. Every side is a
/// candidate — the parity of the ray crossings alone decides whether the
/// point is inside at all — so a point just under one side is pushed back
/// through that side, never through a farther one. Comparing squared
/// distances picks the same side as comparing the distances themselves,
/// exactly.
pub open spec fn best_edge(p: Vec2, poly: Seq<Vec2>, k: int) -> Option<(int, Vec2)>
    decreases k,
{
    if k <= 0 {
        None
    } else {
        let prev = best_edge(p, poly, k - 1);
        let i = k - 1;
        let c = poly[i];
        let n = poly[next_idx(i, poly.len() as int)];
        let proj = project_spec(p, c, n);
        match prev {
            None => Some((i, proj)),
            Some((j, q)) => if dist_sq(p, proj) < dist_sq(p, q) {
                Some((i, proj))
            } else {
                prev
            },
        }
    }
}

/// A polygon with at least one side always yields a best side.
pub proof fn lemma_parity_has_edge(p: Vec2, poly: Seq<Vec2>, k: int)
    requires
        k >= 1,
    ensures
        best_edge(p, poly, k) is Some,
    decreases k,
{
    if k > 1 {
        lemma_parity_has_edge(p, poly, k - 1);
    }
}

/// What the best side means: its recorded point is the nearest point of
/// that side, and no side of the polygon comes nearer.
pub proof fn lemma_best_edge_minimal(p: Vec2, poly: Seq<Vec2>, k: int)
    ensures
        match best_edge(p, poly, k) {
            None => k <= 0,
            Some((i, q)) => {
                &&& 0 <= i < k
                &&& q == project_spec(p, poly[i], poly[next_idx(i, poly.len() as int)])
                &&& forall|j: int|
                    0 <= j < k ==> dist_sq(p, q) <= dist_sq(
                        p,
                        project_spec(p, poly[j], poly[next_idx(j, poly.len() as int)]),
                    )
            },
        },
    decreases k,
{
    if k > 0 {
        lemma_best_edge_minimal(p, poly, k - 1);
    }
}

} // verus!
