//! Penetration resolution: position correction and the per-axis elastic
//! velocity exchange between a penetrating vertex and the edge it crossed.

use vstd::prelude::*;

use crate::num::{div_t, lemma_mul_bounds, lemma_tdiv_bounds, mul_wide, tdiv, MAX_COORD, SCALE};
use crate::geom::next_idx;
use crate::point::MassPoint;
use crate::shape::{check_shape_ok, detect_spec, poly_positions, shape_ok, Shape};
use crate::vec2::{check_vec_in_range, dist, dist_spec, scalar_in_range, vec_in_range, Vec2};

verus! {

/// The new velocity of the point after a 1D elastic collision with a body
/// of mass `am` moving at `av`: `(pv*(pm - am) + 2*am*av) / (pm + am)`.
pub open spec fn elastic_point_velocity(pm: int, pv: int, am: int, av: int) -> int {
    tdiv(pv * (pm - am) + 2 * am * av, pm + am)
}

/// The new velocity of the edge, treated as one rigid body, after the same
/// exchange: `(av*(am - pm) + 2*pm*pv) / (pm + am)`.
pub open spec fn elastic_line_velocity(pm: int, pv: int, am: int, av: int) -> int {
    tdiv(av * (am - pm) + 2 * pm * pv, pm + am)
}

/// One axis of the exchange, on machine integers.
fn elastic_axis(pm: i64, pv: i64, am: i64, av: i64) -> (r: (i64, i64))
    requires
        1 <= pm <= MAX_COORD,
        1 <= am <= MAX_COORD,
        scalar_in_range(pv as int),
        scalar_in_range(av as int),
    ensures
        r.0 as int == elastic_point_velocity(pm as int, pv as int, am as int, av as int),
        r.1 as int == elastic_line_velocity(pm as int, pv as int, am as int, av as int),
        -3 * MAX_COORD <= r.0 <= 3 * MAX_COORD,
        -3 * MAX_COORD <= r.1 <= 3 * MAX_COORD,
{
    let m = pm + am;
    proof {
        assert((pv as int) * (pm as int - am as int) + 2 * (am as int) * (av as int) >= -3
            * MAX_COORD * (pm as int + am as int) && (pv as int) * (pm as int - am as int) + 2 * (
        am as int) * (av as int) <= 3 * MAX_COORD * (pm as int + am as int)) by (nonlinear_arith)
            requires
                1 <= pm as int <= MAX_COORD as int,
                1 <= am as int <= MAX_COORD as int,
                -(MAX_COORD as int) <= pv as int <= MAX_COORD as int,
                -(MAX_COORD as int) <= av as int <= MAX_COORD as int,
                MAX_COORD == 1_000_000_000i64,
        ;
        assert((av as int) * (am as int - pm as int) + 2 * (pm as int) * (pv as int) >= -3
            * MAX_COORD * (pm as int + am as int) && (av as int) * (am as int - pm as int) + 2 * (
        pm as int) * (pv as int) <= 3 * MAX_COORD * (pm as int + am as int)) by (nonlinear_arith)
            requires
                1 <= pm as int <= MAX_COORD as int,
                1 <= am as int <= MAX_COORD as int,
                -(MAX_COORD as int) <= pv as int <= MAX_COORD as int,
                -(MAX_COORD as int) <= av as int <= MAX_COORD as int,
                MAX_COORD == 1_000_000_000i64,
        ;
        lemma_tdiv_bounds(
            (pv as int) * (pm as int - am as int) + 2 * (am as int) * (av as int),
            m as int,
            -3 * MAX_COORD as int,
            3 * MAX_COORD as int,
        );
        lemma_tdiv_bounds(
            (av as int) * (am as int - pm as int) + 2 * (pm as int) * (pv as int),
            m as int,
            -3 * MAX_COORD as int,
            3 * MAX_COORD as int,
        );
    }
    let w1 = mul_wide(pv, pm - am);
    let w2 = mul_wide(am, av);
    let w3 = mul_wide(av, am - pm);
    let w4 = mul_wide(pm, pv);
    proof {
        lemma_mul_bounds(pv as int, pm as int - am as int, MAX_COORD as int, MAX_COORD as int);
        lemma_mul_bounds(am as int, av as int, MAX_COORD as int, MAX_COORD as int);
        lemma_mul_bounds(av as int, am as int - pm as int, MAX_COORD as int, MAX_COORD as int);
        lemma_mul_bounds(pm as int, pv as int, MAX_COORD as int, MAX_COORD as int);
        assert(2 * (am as int * av as int) == 2 * am as int * av as int) by (nonlinear_arith);
        assert(2 * (pm as int * pv as int) == 2 * pm as int * pv as int) by (nonlinear_arith);
    }
    let num_p = w1 + 2 * w2;
    let num_l = w3 + 2 * w4;
    let rp = div_t(num_p, m as i128);
    let rl = div_t(num_l, m as i128);
    (rp as i64, rl as i64)
}

/// The per-axis elastic exchange between a point and an edge taken as one
/// effective body of mass `average_line_mass` moving at
/// `average_line_velocity`. Returns the point's new velocity, then the
/// edge's; both endpoints of the edge receive the same one, so a collision
/// never spins the edge.
pub fn calculate_new_velocities(
    point: &MassPoint,
    average_line_velocity: Vec2,
    average_line_mass: i64,
) -> (r: (Vec2, Vec2))
    requires
        1 <= point.mass <= MAX_COORD,
        1 <= average_line_mass <= MAX_COORD,
        vec_in_range(point.velocity),
        vec_in_range(average_line_velocity),
    ensures
        r.0.x as int == elastic_point_velocity(
            point.mass as int,
            point.velocity.x as int,
            average_line_mass as int,
            average_line_velocity.x as int,
        ),
        r.0.y as int == elastic_point_velocity(
            point.mass as int,
            point.velocity.y as int,
            average_line_mass as int,
            average_line_velocity.y as int,
        ),
        r.1.x as int == elastic_line_velocity(
            point.mass as int,
            point.velocity.x as int,
            average_line_mass as int,
            average_line_velocity.x as int,
        ),
        r.1.y as int == elastic_line_velocity(
            point.mass as int,
            point.velocity.y as int,
            average_line_mass as int,
            average_line_velocity.y as int,
        ),
        -3 * MAX_COORD <= r.0.x <= 3 * MAX_COORD && -3 * MAX_COORD <= r.0.y <= 3 * MAX_COORD,
        -3 * MAX_COORD <= r.1.x <= 3 * MAX_COORD && -3 * MAX_COORD <= r.1.y <= 3 * MAX_COORD,
{
    let (px, lx) = elastic_axis(
        point.mass,
        point.velocity.x,
        average_line_mass,
        average_line_velocity.x,
    );
    let (py, ly) = elastic_axis(
        point.mass,
        point.velocity.y,
        average_line_mass,
        average_line_velocity.y,
    );
    (Vec2 { x: px, y: py }, Vec2 { x: lx, y: ly })
}

/// Everything one resolution demands of its inputs: three distinct,
/// resolvable references (the arithmetic needs three independent views, so
/// a collision among them must fail fast, not corrupt the arena), valid
/// masses, and all positions, velocities and the contact point in range.
/// The collision pass checks this at run time and reports a contact that
/// fails it instead of applying it.
pub open spec fn resolve_pre(
    ps: Seq<MassPoint>,
    ia: int,
    ib: int,
    ip: int,
    closest: Vec2,
) -> bool {
    &&& 0 <= ia < ps.len()
    &&& 0 <= ib < ps.len()
    &&& 0 <= ip < ps.len()
    &&& ia != ib && ia != ip && ib != ip
    &&& 1 <= ps[ia].mass <= MAX_COORD
    &&& 1 <= ps[ib].mass <= MAX_COORD
    &&& 1 <= ps[ip].mass <= MAX_COORD
    &&& vec_in_range(ps[ia].position) && vec_in_range(ps[ia].velocity)
    &&& vec_in_range(ps[ib].position) && vec_in_range(ps[ib].velocity)
    &&& vec_in_range(ps[ip].position) && vec_in_range(ps[ip].velocity)
    &&& vec_in_range(closest)
}

/// What resolving one contact makes of edge endpoint `a`, edge endpoint
/// `b` and penetrating point `p`, with `closest` the nearest point of the
/// edge.
///
/// If all three are immovable nothing changes. Against a fully immovable
/// edge, the point snaps to `closest`, takes the deflected velocity of the
/// per-axis elastic exchange, and advances one explicit sub-step so it
/// leaves the edge on the same frame. Otherwise the position correction is
/// split between point and edge in proportion to their masses (the meeting
/// point divides the gap by `average edge mass / (average edge mass +
/// point mass)`), the edge's own share is split between its endpoints by
/// the averaged mass and slant multipliers — the slant compares how far
/// along the edge the contact sits, and falls back to the midpoint for a
/// collapsed edge — and every movable participant takes its elastic
/// velocity and advances by it for one sub-step. Nothing is ever written
/// to an immovable participant.
pub open spec fn resolve_spec(a: MassPoint, b: MassPoint, p: MassPoint, closest: Vec2, dt: i64) -> (
    MassPoint,
    MassPoint,
    MassPoint,
) {
    if !a.movable && !b.movable && !p.movable {
        (a, b, p)
    } else {
        let am = tdiv(a.mass + b.mass, 2);
        let avx = tdiv(a.velocity.x + b.velocity.x, 2);
        let avy = tdiv(a.velocity.y + b.velocity.y, 2);
        let nvpx = elastic_point_velocity(p.mass as int, p.velocity.x as int, am, avx);
        let nvpy = elastic_point_velocity(p.mass as int, p.velocity.y as int, am, avy);
        if !a.movable && !b.movable {
            let np = MassPoint {
                position: Vec2 {
                    x: (closest.x + tdiv(nvpx * dt, SCALE as int)) as i64,
                    y: (closest.y + tdiv(nvpy * dt, SCALE as int)) as i64,
                },
                velocity: Vec2 { x: nvpx as i64, y: nvpy as i64 },
                ..p
            };
            (a, b, np)
        } else {
            let lmm = if p.movable {
                tdiv(am * SCALE, am + p.mass)
            } else {
                SCALE as int
            };
            let t = SCALE - lmm;
            let meetx = p.position.x + tdiv((closest.x - p.position.x) * t, SCALE as int);
            let meety = p.position.y + tdiv((closest.y - p.position.y) * t, SCALE as int);
            let mass_mul = SCALE + am;
            let d_ab = dist_spec(a.position, b.position);
            let ratio = if d_ab == 0 {
                tdiv(SCALE as int, 2)
            } else {
                tdiv(dist_spec(a.position, closest) * SCALE, d_ab)
            };
            let slant_mul = SCALE + ratio;
            let amul = tdiv(mass_mul + slant_mul, 2);
            let lcx = meetx - closest.x;
            let lcy = meety - closest.y;
            let nvlx = elastic_line_velocity(p.mass as int, p.velocity.x as int, am, avx);
            let nvly = elastic_line_velocity(p.mass as int, p.velocity.y as int, am, avy);
            let na = if a.movable {
                MassPoint {
                    position: Vec2 {
                        x: (a.position.x + tdiv(lcx * amul, SCALE as int) + tdiv(
                            nvlx * dt,
                            SCALE as int,
                        )) as i64,
                        y: (a.position.y + tdiv(lcy * amul, SCALE as int) + tdiv(
                            nvly * dt,
                            SCALE as int,
                        )) as i64,
                    },
                    velocity: Vec2 { x: nvlx as i64, y: nvly as i64 },
                    ..a
                }
            } else {
                a
            };
            let nb = if b.movable {
                MassPoint {
                    position: Vec2 {
                        x: (b.position.x + tdiv(lcx * (2 * SCALE - amul), SCALE as int) + tdiv(
                            nvlx * dt,
                            SCALE as int,
                        )) as i64,
                        y: (b.position.y + tdiv(lcy * (2 * SCALE - amul), SCALE as int) + tdiv(
                            nvly * dt,
                            SCALE as int,
                        )) as i64,
                    },
                    velocity: Vec2 { x: nvlx as i64, y: nvly as i64 },
                    ..b
                }
            } else {
                b
            };
            let np = if p.movable {
                MassPoint {
                    position: Vec2 {
                        x: (meetx + tdiv(nvpx * dt, SCALE as int)) as i64,
                        y: (meety + tdiv(nvpy * dt, SCALE as int)) as i64,
                    },
                    velocity: Vec2 { x: nvpx as i64, y: nvpy as i64 },
                    ..p
                }
            } else {
                p
            };
            (na, nb, np)
        }
    }
}

/// Runtime test for [`resolve_pre`].
pub fn check_resolve_pre(
    points: &Vec<MassPoint>,
    ia: usize,
    ib: usize,
    ip: usize,
    closest: &Vec2,
) -> (r: bool)
    ensures
        r == resolve_pre(points@, ia as int, ib as int, ip as int, *closest),
{
    ia < points.len() && ib < points.len() && ip < points.len() && ia != ib && ia != ip && ib != ip
        && 1 <= points[ia].mass && points[ia].mass <= MAX_COORD && 1 <= points[ib].mass
        && points[ib].mass <= MAX_COORD && 1 <= points[ip].mass && points[ip].mass <= MAX_COORD
        && crate::vec2::check_vec_in_range(&points[ia].position) && crate::vec2::check_vec_in_range(
        &points[ia].velocity,
    ) && crate::vec2::check_vec_in_range(&points[ib].position) && crate::vec2::check_vec_in_range(
        &points[ib].velocity,
    ) && crate::vec2::check_vec_in_range(&points[ip].position) && crate::vec2::check_vec_in_range(
        &points[ip].velocity,
    ) && crate::vec2::check_vec_in_range(closest)
}

/// Resolves one detected contact: the vertex `point` against the edge from
/// `line.0` to `line.1`, whose nearest point is `closest_point`. Writes
/// back only to movable participants; three immovable participants are a
/// no-op.
pub fn resolve_collision(
    line: (usize, usize),
    closest_point: Vec2,
    point: usize,
    points: &mut Vec<MassPoint>,
    dt: i64,
)
    requires
        resolve_pre(old(points)@, line.0 as int, line.1 as int, point as int, closest_point),
        0 <= dt <= SCALE,
    ensures
        ({
            let trio = resolve_spec(
                old(points)@[line.0 as int],
                old(points)@[line.1 as int],
                old(points)@[point as int],
                closest_point,
                dt,
            );
            final(points)@ == old(points)@.update(line.0 as int, trio.0).update(
                line.1 as int,
                trio.1,
            ).update(point as int, trio.2)
        }),
        forall|i: int|
            0 <= i < old(points)@.len() && !old(points)@[i].movable ==> final(points)@[i] == old(
                points,
            )@[i],
        !old(points)@[line.0 as int].movable && !old(points)@[line.1 as int].movable && !old(
            points,
        )@[point as int].movable ==> final(points)@ == old(points)@,
{
    let a = points[line.0];
    let b = points[line.1];
    let p = points[point];
    if !a.movable && !b.movable && !p.movable {
        proof {
            assert(points@ =~= old(points)@.update(line.0 as int, a).update(line.1 as int, b)
                .update(point as int, p));
        }
        return ;
    }
    let am = (a.mass + b.mass) / 2;
    let avx = (a.velocity.x + b.velocity.x) / 2;
    let avy = (a.velocity.y + b.velocity.y) / 2;
    let (nvp, nvl) = calculate_new_velocities(&p, Vec2 { x: avx, y: avy }, am);
    proof {
        lemma_mul_bounds(nvp.x as int, dt as int, 3 * MAX_COORD as int, SCALE as int);
        lemma_mul_bounds(nvp.y as int, dt as int, 3 * MAX_COORD as int, SCALE as int);
        lemma_mul_bounds(nvl.x as int, dt as int, 3 * MAX_COORD as int, SCALE as int);
        lemma_mul_bounds(nvl.y as int, dt as int, 3 * MAX_COORD as int, SCALE as int);
        lemma_tdiv_bounds(
            nvp.x as int * dt as int,
            SCALE as int,
            -3 * MAX_COORD as int,
            3 * MAX_COORD as int,
        );
        lemma_tdiv_bounds(
            nvp.y as int * dt as int,
            SCALE as int,
            -3 * MAX_COORD as int,
            3 * MAX_COORD as int,
        );
        lemma_tdiv_bounds(
            nvl.x as int * dt as int,
            SCALE as int,
            -3 * MAX_COORD as int,
            3 * MAX_COORD as int,
        );
        lemma_tdiv_bounds(
            nvl.y as int * dt as int,
            SCALE as int,
            -3 * MAX_COORD as int,
            3 * MAX_COORD as int,
        );
    }
    let stepx = div_t(mul_wide(nvp.x, dt), SCALE as i128) as i64;
    let stepy = div_t(mul_wide(nvp.y, dt), SCALE as i128) as i64;
    if !a.movable && !b.movable {
        let np = MassPoint {
            position: Vec2 { x: closest_point.x + stepx, y: closest_point.y + stepy },
            velocity: nvp,
            ..p
        };
        points[point] = np;
        proof {
            assert(points@ =~= old(points)@.update(line.0 as int, a).update(line.1 as int, b)
                .update(point as int, np));
        }
        return ;
    }
    let lmm: i64 = if p.movable {
        proof {
            lemma_tdiv_bounds(
                am as int * SCALE as int,
                am as int + p.mass as int,
                0,
                SCALE as int,
            );
        }
        div_t(mul_wide(am, SCALE), (am + p.mass) as i128) as i64
    } else {
        SCALE
    };
    let t = SCALE - lmm;
    proof {
        lemma_mul_bounds(
            closest_point.x as int - p.position.x as int,
            t as int,
            2 * MAX_COORD as int,
            SCALE as int,
        );
        lemma_mul_bounds(
            closest_point.y as int - p.position.y as int,
            t as int,
            2 * MAX_COORD as int,
            SCALE as int,
        );
        lemma_tdiv_bounds(
            (closest_point.x as int - p.position.x as int) * t as int,
            SCALE as int,
            -2 * MAX_COORD as int,
            2 * MAX_COORD as int,
        );
        lemma_tdiv_bounds(
            (closest_point.y as int - p.position.y as int) * t as int,
            SCALE as int,
            -2 * MAX_COORD as int,
            2 * MAX_COORD as int,
        );
    }
    let meetx = p.position.x + div_t(mul_wide(closest_point.x - p.position.x, t), SCALE as i128)
        as i64;
    let meety = p.position.y + div_t(mul_wide(closest_point.y - p.position.y, t), SCALE as i128)
        as i64;
    let mass_mul = SCALE + am;
    let d_ab = dist(&a.position, &b.position);
    let d_ac = dist(&a.position, &closest_point);
    let ratio: i64 = if d_ab == 0 {
        SCALE / 2
    } else {
        proof {
            lemma_mul_bounds(d_ac as int, SCALE as int, 3_000_000_000int, SCALE as int);
            lemma_tdiv_bounds(
                d_ac as int * SCALE as int,
                d_ab as int,
                0,
                3_000_000_000_000_000int,
            );
        }
        div_t(mul_wide(d_ac, SCALE), d_ab as i128) as i64
    };
    let slant_mul = SCALE + ratio;
    let amul = (mass_mul + slant_mul) / 2;
    let lcx = meetx - closest_point.x;
    let lcy = meety - closest_point.y;
    let twos = 2 * SCALE - amul;
    proof {
        lemma_mul_bounds(lcx as int, amul as int, 4 * MAX_COORD as int, 2_000_000_000_000_000int);
        lemma_mul_bounds(lcy as int, amul as int, 4 * MAX_COORD as int, 2_000_000_000_000_000int);
        lemma_mul_bounds(lcx as int, twos as int, 4 * MAX_COORD as int, 2_000_000_000_000_000int);
        lemma_mul_bounds(lcy as int, twos as int, 4 * MAX_COORD as int, 2_000_000_000_000_000int);
        lemma_tdiv_bounds(
            lcx as int * amul as int,
            SCALE as int,
            -8_000_000_000_000_000_000int,
            8_000_000_000_000_000_000int,
        );
        lemma_tdiv_bounds(
            lcy as int * amul as int,
            SCALE as int,
            -8_000_000_000_000_000_000int,
            8_000_000_000_000_000_000int,
        );
        lemma_tdiv_bounds(
            lcx as int * twos as int,
            SCALE as int,
            -8_000_000_000_000_000_000int,
            8_000_000_000_000_000_000int,
        );
        lemma_tdiv_bounds(
            lcy as int * twos as int,
            SCALE as int,
            -8_000_000_000_000_000_000int,
            8_000_000_000_000_000_000int,
        );
    }
    let lax = div_t(mul_wide(lcx, amul), SCALE as i128);
    let lay = div_t(mul_wide(lcy, amul), SCALE as i128);
    let lbx = div_t(mul_wide(lcx, twos), SCALE as i128);
    let lby = div_t(mul_wide(lcy, twos), SCALE as i128);
    let lstepx = div_t(mul_wide(nvl.x, dt), SCALE as i128) as i64;
    let lstepy = div_t(mul_wide(nvl.y, dt), SCALE as i128) as i64;
    let na = if a.movable {
        let nax = a.position.x as i128 + lax + lstepx as i128;
        let nay = a.position.y as i128 + lay + lstepy as i128;
        MassPoint { position: Vec2 { x: nax as i64, y: nay as i64 }, velocity: nvl, ..a }
    } else {
        a
    };
    let nb = if b.movable {
        let nbx = b.position.x as i128 + lbx + lstepx as i128;
        let nby = b.position.y as i128 + lby + lstepy as i128;
        MassPoint { position: Vec2 { x: nbx as i64, y: nby as i64 }, velocity: nvl, ..b }
    } else {
        b
    };
    let np = if p.movable {
        MassPoint {
            position: Vec2 { x: meetx + stepx, y: meety + stepy },
            velocity: nvp,
            ..p
        }
    } else {
        p
    };
    points[line.0] = na;
    points[line.1] = nb;
    points[point] = np;
    proof {
        assert(points@ =~= old(points)@.update(line.0 as int, na).update(line.1 as int, nb).update(
            point as int,
            np,
        ));
    }
}

/// One vertex of the moving shape against the other shape's polygon:
/// detection, then immediate resolution if a contact was found and passes
/// [`resolve_pre`]. A vertex whose reference is stale or out of range, or
/// a polygon unfit to test against, leaves the arena untouched.
pub open spec fn collide_vertex(
    ps: Seq<MassPoint>,
    pi: usize,
    sb_pts: Seq<usize>,
    dt: i64,
) -> Seq<MassPoint> {
    if !(pi < ps.len() && vec_in_range(ps[pi as int].position) && shape_ok(ps, sb_pts)) {
        ps
    } else {
        match detect_spec(ps[pi as int].position, poly_positions(ps, sb_pts)) {
            None => ps,
            Some((i, q)) => {
                let ia = sb_pts[i];
                let ib = sb_pts[next_idx(i, sb_pts.len() as int)];
                if resolve_pre(ps, ia as int, ib as int, pi as int, q) {
                    let trio = resolve_spec(ps[ia as int], ps[ib as int], ps[pi as int], q, dt);
                    ps.update(ia as int, trio.0).update(ib as int, trio.1).update(
                        pi as int,
                        trio.2,
                    )
                } else {
                    ps
                }
            },
        }
    }
}

/// Whether that vertex's test had to be skipped and reported: a stale or
/// out-of-range reference, an unfit polygon, or a contact whose references
/// collide or whose participants are invalid.
pub open spec fn vertex_skipped(ps: Seq<MassPoint>, pi: usize, sb_pts: Seq<usize>) -> bool {
    if !(pi < ps.len() && vec_in_range(ps[pi as int].position) && shape_ok(ps, sb_pts)) {
        true
    } else {
        match detect_spec(ps[pi as int].position, poly_positions(ps, sb_pts)) {
            None => false,
            Some((i, q)) => !resolve_pre(
                ps,
                sb_pts[i] as int,
                sb_pts[next_idx(i, sb_pts.len() as int)] as int,
                pi as int,
                q,
            ),
        }
    }
}

/// The arena after the first `k` vertices of the moving shape have been
/// tested against the other polygon, in order; each resolution applies
/// immediately, so later vertices see it.
pub open spec fn collide_shape(
    ps: Seq<MassPoint>,
    sa_pts: Seq<usize>,
    sb_pts: Seq<usize>,
    dt: i64,
    k: int,
) -> Seq<MassPoint>
    decreases k,
{
    if k <= 0 {
        ps
    } else {
        collide_vertex(collide_shape(ps, sa_pts, sb_pts, dt, k - 1), sa_pts[k - 1], sb_pts, dt)
    }
}

/// How many of the first `k` vertex tests were skipped.
pub open spec fn skipped_in_shape(
    ps: Seq<MassPoint>,
    sa_pts: Seq<usize>,
    sb_pts: Seq<usize>,
    dt: i64,
    k: int,
) -> int
    decreases k,
{
    if k <= 0 {
        0
    } else {
        skipped_in_shape(ps, sa_pts, sb_pts, dt, k - 1) + if vertex_skipped(
            collide_shape(ps, sa_pts, sb_pts, dt, k - 1),
            sa_pts[k - 1],
            sb_pts,
        ) {
            1int
        } else {
            0int
        }
    }
}

/// A vertex test writes only to the three participants of a resolved
/// contact, every write guarded by `movable`: the arena keeps its size and
/// every immovable point keeps its whole record.
pub proof fn lemma_collide_vertex_frame(ps: Seq<MassPoint>, pi: usize, sb_pts: Seq<usize>, dt: i64)
    ensures
        collide_vertex(ps, pi, sb_pts, dt).len() == ps.len(),
        forall|i: int|
            0 <= i < ps.len() && !ps[i].movable ==> collide_vertex(ps, pi, sb_pts, dt)[i] == ps[i],
{
}

/// The frame property of [`lemma_collide_vertex_frame`], over a whole
/// shape pass, together with the bound on the skip count.
pub proof fn lemma_collide_shape_frame(
    ps: Seq<MassPoint>,
    sa_pts: Seq<usize>,
    sb_pts: Seq<usize>,
    dt: i64,
    k: int,
)
    ensures
        collide_shape(ps, sa_pts, sb_pts, dt, k).len() == ps.len(),
        forall|i: int|
            0 <= i < ps.len() && !ps[i].movable ==> collide_shape(ps, sa_pts, sb_pts, dt, k)[i]
                == ps[i],
        0 <= skipped_in_shape(ps, sa_pts, sb_pts, dt, k) <= if k >= 0 {
            k
        } else {
            0
        },
    decreases k,
{
    if k > 0 {
        lemma_collide_shape_frame(ps, sa_pts, sb_pts, dt, k - 1);
        lemma_collide_vertex_frame(
            collide_shape(ps, sa_pts, sb_pts, dt, k - 1),
            sa_pts[k - 1],
            sb_pts,
            dt,
        );
    }
}

/// Addition that sticks at the machine's largest count.
pub open spec fn sat_add(a: int, b: int) -> int {
    if a + b > usize::MAX {
        usize::MAX as int
    } else {
        a + b
    }
}

fn sat_add_usize(a: usize, b: usize) -> (r: usize)
    ensures
        r as int == sat_add(a as int, b as int),
{
    if a > usize::MAX - b {
        usize::MAX
    } else {
        a + b
    }
}

/// Both directions of one unordered pair of shapes: first the vertices of
/// the first shape against the second polygon, then the reverse.
pub open spec fn collide_pair(
    ps: Seq<MassPoint>,
    sa_pts: Seq<usize>,
    sb_pts: Seq<usize>,
    dt: i64,
) -> Seq<MassPoint> {
    let once = collide_shape(ps, sa_pts, sb_pts, dt, sa_pts.len() as int);
    collide_shape(once, sb_pts, sa_pts, dt, sb_pts.len() as int)
}

/// The skips of both directions of one pair.
pub open spec fn skipped_in_pair(
    ps: Seq<MassPoint>,
    sa_pts: Seq<usize>,
    sb_pts: Seq<usize>,
    dt: i64,
) -> int {
    let once = collide_shape(ps, sa_pts, sb_pts, dt, sa_pts.len() as int);
    sat_add(
        skipped_in_shape(ps, sa_pts, sb_pts, dt, sa_pts.len() as int),
        skipped_in_shape(once, sb_pts, sa_pts, dt, sb_pts.len() as int),
    )
}

/// The arena after the shape with index `i` has been paired with every
/// shape of index `i + 1` up to (excluding) `j`.
pub open spec fn resolve_inner(
    ps: Seq<MassPoint>,
    shapes: Seq<Shape>,
    dt: i64,
    i: int,
    j: int,
) -> Seq<MassPoint>
    decreases j - i,
{
    if j <= i + 1 {
        ps
    } else {
        collide_pair(
            resolve_inner(ps, shapes, dt, i, j - 1),
            shapes[i].points@,
            shapes[j - 1].points@,
            dt,
        )
    }
}

/// The skips of those pairs.
pub open spec fn skipped_inner(
    ps: Seq<MassPoint>,
    shapes: Seq<Shape>,
    dt: i64,
    i: int,
    j: int,
) -> int
    decreases j - i,
{
    if j <= i + 1 {
        0
    } else {
        sat_add(
            skipped_inner(ps, shapes, dt, i, j - 1),
            skipped_in_pair(
                resolve_inner(ps, shapes, dt, i, j - 1),
                shapes[i].points@,
                shapes[j - 1].points@,
                dt,
            ),
        )
    }
}

/// The arena after every unordered pair whose first index is below `i`
/// has been processed, both directions each.
pub open spec fn resolve_outer(ps: Seq<MassPoint>, shapes: Seq<Shape>, dt: i64, i: int) -> Seq<
    MassPoint,
>
    decreases i,
{
    if i <= 0 {
        ps
    } else {
        resolve_inner(
            resolve_outer(ps, shapes, dt, i - 1),
            shapes,
            dt,
            i - 1,
            shapes.len() as int,
        )
    }
}

/// The skips of the whole pass.
pub open spec fn skipped_outer(ps: Seq<MassPoint>, shapes: Seq<Shape>, dt: i64, i: int) -> int
    decreases i,
{
    if i <= 0 {
        0
    } else {
        sat_add(
            skipped_outer(ps, shapes, dt, i - 1),
            skipped_inner(
                resolve_outer(ps, shapes, dt, i - 1),
                shapes,
                dt,
                i - 1,
                shapes.len() as int,
            ),
        )
    }
}

/// The frame property over one inner sweep.
pub proof fn lemma_resolve_inner_frame(
    ps: Seq<MassPoint>,
    shapes: Seq<Shape>,
    dt: i64,
    i: int,
    j: int,
)
    ensures
        resolve_inner(ps, shapes, dt, i, j).len() == ps.len(),
        forall|k: int|
            0 <= k < ps.len() && !ps[k].movable ==> resolve_inner(ps, shapes, dt, i, j)[k] == ps[k],
        0 <= skipped_inner(ps, shapes, dt, i, j) <= usize::MAX,
    decreases j - i,
{
    if j > i + 1 {
        lemma_resolve_inner_frame(ps, shapes, dt, i, j - 1);
        let mid = resolve_inner(ps, shapes, dt, i, j - 1);
        lemma_collide_shape_frame(
            mid,
            shapes[i].points@,
            shapes[j - 1].points@,
            dt,
            shapes[i].points@.len() as int,
        );
        lemma_collide_shape_frame(
            collide_shape(
                mid,
                shapes[i].points@,
                shapes[j - 1].points@,
                dt,
                shapes[i].points@.len() as int,
            ),
            shapes[j - 1].points@,
            shapes[i].points@,
            dt,
            shapes[j - 1].points@.len() as int,
        );
    }
}

/// The frame property over the whole pass.
pub proof fn lemma_resolve_outer_frame(ps: Seq<MassPoint>, shapes: Seq<Shape>, dt: i64, i: int)
    ensures
        resolve_outer(ps, shapes, dt, i).len() == ps.len(),
        forall|k: int|
            0 <= k < ps.len() && !ps[k].movable ==> resolve_outer(ps, shapes, dt, i)[k] == ps[k],
        0 <= skipped_outer(ps, shapes, dt, i) <= usize::MAX,
    decreases i,
{
    if i > 0 {
        lemma_resolve_outer_frame(ps, shapes, dt, i - 1);
        lemma_resolve_inner_frame(
            resolve_outer(ps, shapes, dt, i - 1),
            shapes,
            dt,
            i - 1,
            shapes.len() as int,
        );
    }
}

impl Shape {
    /// Tests every vertex of `shape_a` against `shape_b`'s polygon, in
    /// order, resolving each contact immediately so later vertices see the
    /// correction. Returns how many tests were skipped (stale or
    /// out-of-range references, an unfit polygon, or contact references
    /// that collide): a skipped test is reported, never half-applied.
    pub fn shape_collision(
        shape_a: &Shape,
        shape_b: &Shape,
        points: &mut Vec<MassPoint>,
        dt: i64,
    ) -> (skipped: usize)
        requires
            0 <= dt <= SCALE,
        ensures
            final(points)@ == collide_shape(
                old(points)@,
                shape_a.points@,
                shape_b.points@,
                dt,
                shape_a.points@.len() as int,
            ),
            skipped as int == skipped_in_shape(
                old(points)@,
                shape_a.points@,
                shape_b.points@,
                dt,
                shape_a.points@.len() as int,
            ),
            forall|i: int|
                0 <= i < old(points)@.len() && !old(points)@[i].movable ==> final(points)@[i]
                    == old(points)@[i],
    {
        let n = shape_a.points.len();
        let mut skipped: usize = 0;
        for k in 0..n
            invariant
                n == shape_a.points@.len(),
                0 <= dt <= SCALE,
                points@ == collide_shape(
                    old(points)@,
                    shape_a.points@,
                    shape_b.points@,
                    dt,
                    k as int,
                ),
                skipped as int == skipped_in_shape(
                    old(points)@,
                    shape_a.points@,
                    shape_b.points@,
                    dt,
                    k as int,
                ),
                skipped <= k,
        {
            let pi = shape_a.points[k];
            let ok = pi < points.len() && check_vec_in_range(&points[pi].position)
                && check_shape_ok(points, &shape_b.points);
            if !ok {
                skipped = skipped + 1;
            } else {
                let p = points[pi];
                match Shape::point_to_polygon_collision_detection(&p, shape_b, points) {
                    Some(((ia, ib), q)) => {
                        if check_resolve_pre(points, ia, ib, pi, &q) {
                            resolve_collision((ia, ib), q, pi, points, dt);
                        } else {
                            skipped = skipped + 1;
                        }
                    },
                    None => {},
                }
            }
        }
        proof {
            lemma_collide_shape_frame(
                old(points)@,
                shape_a.points@,
                shape_b.points@,
                dt,
                n as int,
            );
        }
        skipped
    }

    /// One collision pass: every unordered pair of distinct shapes, each
    /// tested in both directions (a penetrating vertex may belong to
    /// either body), in index order. Returns how many vertex tests had to
    /// be skipped, saturating at the largest machine count.
    pub fn resolve_collisions(
        shapes: &Vec<Shape>,
        points: &mut Vec<MassPoint>,
        dt: i64,
    ) -> (skipped: usize)
        requires
            0 <= dt <= SCALE,
        ensures
            final(points)@ == resolve_outer(old(points)@, shapes@, dt, shapes@.len() as int),
            skipped as int == skipped_outer(old(points)@, shapes@, dt, shapes@.len() as int),
            forall|i: int|
                0 <= i < old(points)@.len() && !old(points)@[i].movable ==> final(points)@[i]
                    == old(points)@[i],
    {
        let n = shapes.len();
        let mut skipped: usize = 0;
        for i in 0..n
            invariant
                n == shapes@.len(),
                0 <= dt <= SCALE,
                points@ == resolve_outer(old(points)@, shapes@, dt, i as int),
                skipped as int == skipped_outer(old(points)@, shapes@, dt, i as int),
        {
            let ghost mid = points@;
            let ghost outer_count = skipped as int;
            let mut j = i + 1;
            while j < n
                invariant
                    i < j <= n,
                    n == shapes@.len(),
                    0 <= dt <= SCALE,
                    points@ == resolve_inner(mid, shapes@, dt, i as int, j as int),
                    skipped as int == sat_add(
                        outer_count,
                        skipped_inner(mid, shapes@, dt, i as int, j as int),
                    ),
                    0 <= outer_count <= usize::MAX,
                decreases n - j,
            {
                let sa = &shapes[i];
                let sb = &shapes[j];
                let s1 = Shape::shape_collision(sa, sb, points, dt);
                let s2 = Shape::shape_collision(sb, sa, points, dt);
                let pair = sat_add_usize(s1, s2);
                proof {
                    lemma_resolve_inner_frame(mid, shapes@, dt, i as int, j as int);
                    lemma_collide_shape_frame(
                        resolve_inner(mid, shapes@, dt, i as int, j as int),
                        shapes@[i as int].points@,
                        shapes@[j as int].points@,
                        dt,
                        shapes@[i as int].points@.len() as int,
                    );
                }
                skipped = sat_add_usize(skipped, pair);
                j = j + 1;
            }
        }
        proof {
            lemma_resolve_outer_frame(old(points)@, shapes@, dt, n as int);
        }
        skipped
    }
}

} // verus!
