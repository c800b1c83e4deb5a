//! Damped springs: the elastic constraints that hold a soft body together.

use vstd::prelude::*;

use crate::error::SimError;
use crate::num::{
    div_t, fits, fits_i64, lemma_mul_bounds, lemma_sqrt_floor_nonneg, lemma_tdiv_bounds,
    lemma_tdiv_neg, mul_wide, sqrt_floor, tdiv, MAX_COORD, SCALE,
};
use crate::point::MassPoint;
use crate::vec2::{dist, dist_spec, lemma_component_le_dist, vec_in_range, Vec2};

verus! {

/// A damped elastic constraint between two point masses, which it
/// references by arena index; springs never own their endpoints, and many
/// springs may share a point.
#[derive(Clone, Copy, Debug, PartialEq, Eq, Structural)]
pub struct Spring {
    /// Index of endpoint A in the point arena.
    pub mp_a: usize,
    /// Index of endpoint B in the point arena.
    pub mp_b: usize,
    pub stiffness: i64,
    pub rest_length: i64,
    pub damping_factor: i64,
}

/// The unit vector from `a` toward `b`, in millionths, or zero when the
/// two points coincide (so a collapsed spring propagates no force rather
/// than an undefined one).
pub open spec fn spring_axis(a: Vec2, b: Vec2) -> (int, int) {
    let dx = b.x - a.x;
    let dy = b.y - a.y;
    let d = sqrt_floor(dx * dx + dy * dy);
    if d == 0 {
        (0, 0)
    } else {
        (tdiv(dx * SCALE, d), tdiv(dy * SCALE, d))
    }
}

/// The scalar spring force along the axis: the elastic term
/// `stiffness * (distance - rest_length)` — positive when over-stretched —
/// plus the damping term `damping_factor * (relative velocity · axis)`.
pub open spec fn spring_total_force(
    a: MassPoint,
    b: MassPoint,
    stiffness: i64,
    damping_factor: i64,
    rest_length: i64,
) -> int {
    let d = dist_spec(a.position, b.position);
    let stretch = tdiv(stiffness * (d - rest_length), SCALE as int);
    let axis = spring_axis(a.position, b.position);
    let dot = tdiv(
        (b.velocity.x - a.velocity.x) * axis.0 + (b.velocity.y - a.velocity.y) * axis.1,
        SCALE as int,
    );
    stretch + tdiv(damping_factor * dot, SCALE as int)
}

/// The force the spring adds to endpoint A: the total scalar force along
/// the axis from A toward B.
pub open spec fn spring_force_on_a(
    a: MassPoint,
    b: MassPoint,
    stiffness: i64,
    damping_factor: i64,
    rest_length: i64,
) -> (int, int) {
    let t = spring_total_force(a, b, stiffness, damping_factor, rest_length);
    let axis = spring_axis(a.position, b.position);
    (tdiv(t * axis.0, SCALE as int), tdiv(t * axis.1, SCALE as int))
}

/// The force the spring adds to endpoint B: the same total scalar force,
/// along the reversed axis.
pub open spec fn spring_force_on_b(
    a: MassPoint,
    b: MassPoint,
    stiffness: i64,
    damping_factor: i64,
    rest_length: i64,
) -> (int, int) {
    let t = spring_total_force(a, b, stiffness, damping_factor, rest_length);
    let axis = spring_axis(b.position, a.position);
    (tdiv(t * axis.0, SCALE as int), tdiv(t * axis.1, SCALE as int))
}

/// Newton's third law holds exactly, not merely to rounding: truncating
/// division is odd, so reversing the axis negates each force component.
/// The two endpoint forces are exact opposites for every configuration,
/// damped or not.
pub proof fn lemma_spring_forces_opposite(
    a: MassPoint,
    b: MassPoint,
    stiffness: i64,
    damping_factor: i64,
    rest_length: i64,
)
    ensures
        spring_force_on_b(a, b, stiffness, damping_factor, rest_length).0 == -spring_force_on_a(
            a,
            b,
            stiffness,
            damping_factor,
            rest_length,
        ).0,
        spring_force_on_b(a, b, stiffness, damping_factor, rest_length).1 == -spring_force_on_a(
            a,
            b,
            stiffness,
            damping_factor,
            rest_length,
        ).1,
{
    let dx = b.position.x - a.position.x;
    let dy = b.position.y - a.position.y;
    assert((-dx) * (-dx) == dx * dx && (-dy) * (-dy) == dy * dy) by (nonlinear_arith);
    let d = sqrt_floor(dx * dx + dy * dy);
    lemma_sqrt_floor_nonneg(dx * dx + dy * dy);
    let t = spring_total_force(a, b, stiffness, damping_factor, rest_length);
    if d == 0 {
        assert(spring_axis(a.position, b.position) == (0int, 0int));
        assert(spring_axis(b.position, a.position) == (0int, 0int));
        assert(t * 0int == 0) by (nonlinear_arith);
        assert(tdiv(0, SCALE as int) == 0);
    } else {
        let ax = tdiv(dx * SCALE, d);
        let ay = tdiv(dy * SCALE, d);
        assert((-dx) * SCALE == -(dx * SCALE) && (-dy) * SCALE == -(dy * SCALE));
        lemma_tdiv_neg(dx * SCALE, d);
        lemma_tdiv_neg(dy * SCALE, d);
        assert(spring_axis(b.position, a.position) == (-ax, -ay));
        assert(t * (-ax) == -(t * ax) && t * (-ay) == -(t * ay)) by (nonlinear_arith);
        lemma_tdiv_neg(t * ax, SCALE as int);
        lemma_tdiv_neg(t * ay, SCALE as int);
    }
}

/// Whether a spring acts this step: its endpoints resolve to two distinct
/// points, its parameters are well-configured, and both endpoints sit in
/// the range the geometry accepts. A spring that fails any of this is
/// skipped for the step, never applied halfway.
pub open spec fn spring_applies(ps: Seq<MassPoint>, s: Spring) -> bool {
    &&& s.mp_a < ps.len()
    &&& s.mp_b < ps.len()
    &&& s.mp_a != s.mp_b
    &&& 0 <= s.stiffness <= MAX_COORD
    &&& 0 <= s.rest_length <= MAX_COORD
    &&& 0 <= s.damping_factor <= MAX_COORD
    &&& vec_in_range(ps[s.mp_a as int].position)
    &&& vec_in_range(ps[s.mp_a as int].velocity)
    &&& vec_in_range(ps[s.mp_b as int].position)
    &&& vec_in_range(ps[s.mp_b as int].velocity)
}

/// What one spring makes of the arena: each movable endpoint accumulates
/// its force contribution; an immovable endpoint, and one whose
/// accumulator would leave the representable range, keeps its old record.
pub open spec fn apply_spring(ps: Seq<MassPoint>, s: Spring) -> Seq<MassPoint> {
    if !spring_applies(ps, s) {
        ps
    } else {
        let a = ps[s.mp_a as int];
        let b = ps[s.mp_b as int];
        let fa = spring_force_on_a(a, b, s.stiffness, s.damping_factor, s.rest_length);
        let fb = spring_force_on_b(a, b, s.stiffness, s.damping_factor, s.rest_length);
        let na = if a.movable && fits_i64(a.force.x + fa.0) && fits_i64(a.force.y + fa.1) {
            MassPoint {
                force: Vec2 { x: (a.force.x + fa.0) as i64, y: (a.force.y + fa.1) as i64 },
                ..a
            }
        } else {
            a
        };
        let nb = if b.movable && fits_i64(b.force.x + fb.0) && fits_i64(b.force.y + fb.1) {
            MassPoint {
                force: Vec2 { x: (b.force.x + fb.0) as i64, y: (b.force.y + fb.1) as i64 },
                ..b
            }
        } else {
            b
        };
        ps.update(s.mp_a as int, na).update(s.mp_b as int, nb)
    }
}

/// The arena after the first `n` springs have acted, in order.
pub open spec fn apply_springs(ps: Seq<MassPoint>, springs: Seq<Spring>, n: int) -> Seq<MassPoint>
    decreases n,
{
    if n <= 0 {
        ps
    } else {
        apply_spring(apply_springs(ps, springs, n - 1), springs[n - 1])
    }
}

/// How many of the first `n` springs were skipped for stale references,
/// bad parameters or out-of-range endpoints.
pub open spec fn skipped_springs(ps: Seq<MassPoint>, springs: Seq<Spring>, n: int) -> int
    decreases n,
{
    if n <= 0 {
        0
    } else {
        skipped_springs(ps, springs, n - 1) + if spring_applies(
            apply_springs(ps, springs, n - 1),
            springs[n - 1],
        ) {
            0int
        } else {
            1int
        }
    }
}

/// Springs touch nothing but force accumulators of movable points: the
/// arena keeps its size, and an immovable point keeps its whole record.
pub proof fn lemma_apply_springs_frame(ps: Seq<MassPoint>, springs: Seq<Spring>, n: int)
    ensures
        apply_springs(ps, springs, n).len() == ps.len(),
        forall|i: int|
            0 <= i < ps.len() && !ps[i].movable ==> apply_springs(ps, springs, n)[i] == ps[i],
        forall|i: int|
            0 <= i < ps.len() ==> {
                let q = #[trigger] apply_springs(ps, springs, n)[i];
                q.position == ps[i].position && q.velocity == ps[i].velocity && q.mass == ps[i].mass
                    && q.movable == ps[i].movable
            },
        0 <= skipped_springs(ps, springs, n) <= if n >= 0 {
            n
        } else {
            0
        },
    decreases n,
{
    if n > 0 {
        lemma_apply_springs_frame(ps, springs, n - 1);
    }
}

impl Spring {
    /// A validated spring: negative parameters and colliding endpoint
    /// references are refused at construction.
    pub fn new(mp_a: usize, mp_b: usize, stiffness: i64, rest_length: i64, damping_factor: i64)
        -> (r: Result<Spring, SimError>)
        ensures
            mp_a != mp_b && stiffness >= 0 && rest_length >= 0 && damping_factor >= 0 ==> r == Ok::<
                Spring,
                SimError,
            >(Spring { mp_a, mp_b, stiffness, rest_length, damping_factor }),
            mp_a == mp_b ==> r == Err::<Spring, SimError>(SimError::StaleReference),
            mp_a != mp_b && !(stiffness >= 0 && rest_length >= 0 && damping_factor >= 0) ==> r
                == Err::<Spring, SimError>(SimError::InvalidConfiguration),
    {
        if mp_a == mp_b {
            Err(SimError::StaleReference)
        } else if stiffness < 0 || rest_length < 0 || damping_factor < 0 {
            Err(SimError::InvalidConfiguration)
        } else {
            Ok(Spring { mp_a, mp_b, stiffness, rest_length, damping_factor })
        }
    }

    /// The two force contributions of one spring evaluation: the first for
    /// endpoint A, the second for endpoint B. They are exact opposites.
    pub fn get_force(
        mp_a: &MassPoint,
        mp_b: &MassPoint,
        stiffness: i64,
        damping_factor: i64,
        rest_length: i64,
    ) -> (r: (Vec2, Vec2))
        requires
            0 <= stiffness <= MAX_COORD,
            0 <= damping_factor <= MAX_COORD,
            0 <= rest_length <= MAX_COORD,
            vec_in_range(mp_a.position),
            vec_in_range(mp_a.velocity),
            vec_in_range(mp_b.position),
            vec_in_range(mp_b.velocity),
        ensures
            r.0.x as int == spring_force_on_a(*mp_a, *mp_b, stiffness, damping_factor, rest_length).0,
            r.0.y as int == spring_force_on_a(*mp_a, *mp_b, stiffness, damping_factor, rest_length).1,
            r.1.x as int == spring_force_on_b(*mp_a, *mp_b, stiffness, damping_factor, rest_length).0,
            r.1.y as int == spring_force_on_b(*mp_a, *mp_b, stiffness, damping_factor, rest_length).1,
            r.1.x as int == -(r.0.x as int) && r.1.y as int == -(r.0.y as int),
            -8_000_000_000_000 <= r.0.x <= 8_000_000_000_000,
            -8_000_000_000_000 <= r.0.y <= 8_000_000_000_000,
    {
        let d = dist(&mp_a.position, &mp_b.position);
        let diff = d - rest_length;
        proof {
            lemma_mul_bounds(stiffness as int, diff as int, MAX_COORD as int, 4_000_000_000int);
            lemma_tdiv_bounds(
                stiffness as int * diff as int,
                SCALE as int,
                -4_000_000_000_000_000int,
                4_000_000_000_000_000int,
            );
        }
        let stretch = div_t(mul_wide(stiffness, diff), SCALE as i128);
        let dx = mp_b.position.x - mp_a.position.x;
        let dy = mp_b.position.y - mp_a.position.y;
        let (ax, ay): (i64, i64) = if d == 0 {
            (0, 0)
        } else {
            proof {
                lemma_component_le_dist(mp_a.position, mp_b.position);
                lemma_tdiv_bounds(dx as int * SCALE as int, d as int, -(SCALE as int), SCALE as int);
                lemma_tdiv_bounds(dy as int * SCALE as int, d as int, -(SCALE as int), SCALE as int);
            }
            let axw = div_t(mul_wide(dx, SCALE), d as i128);
            let ayw = div_t(mul_wide(dy, SCALE), d as i128);
            (axw as i64, ayw as i64)
        };
        let rvx = mp_b.velocity.x - mp_a.velocity.x;
        let rvy = mp_b.velocity.y - mp_a.velocity.y;
        proof {
            lemma_mul_bounds(rvx as int, ax as int, 2 * MAX_COORD as int, SCALE as int);
            lemma_mul_bounds(rvy as int, ay as int, 2 * MAX_COORD as int, SCALE as int);
            lemma_tdiv_bounds(
                rvx as int * ax as int + rvy as int * ay as int,
                SCALE as int,
                -4_000_000_000int,
                4_000_000_000int,
            );
        }
        let dot = div_t(mul_wide(rvx, ax) + mul_wide(rvy, ay), SCALE as i128);
        let dot = dot as i64;
        proof {
            lemma_mul_bounds(damping_factor as int, dot as int, MAX_COORD as int, 4_000_000_000int);
            lemma_tdiv_bounds(
                damping_factor as int * dot as int,
                SCALE as int,
                -4_000_000_000_000_000int,
                4_000_000_000_000_000int,
            );
        }
        let damp = div_t(mul_wide(damping_factor, dot), SCALE as i128);
        let total = (stretch + damp) as i64;
        proof {
            lemma_mul_bounds(total as int, ax as int, 8_000_000_000_000int, SCALE as int);
            lemma_mul_bounds(total as int, ay as int, 8_000_000_000_000int, SCALE as int);
            lemma_tdiv_bounds(
                total as int * ax as int,
                SCALE as int,
                -8_000_000_000_000int,
                8_000_000_000_000int,
            );
            lemma_tdiv_bounds(
                total as int * ay as int,
                SCALE as int,
                -8_000_000_000_000int,
                8_000_000_000_000int,
            );
        }
        let fax = div_t(mul_wide(total, ax), SCALE as i128) as i64;
        let fay = div_t(mul_wide(total, ay), SCALE as i128) as i64;
        proof {
            lemma_spring_forces_opposite(*mp_a, *mp_b, stiffness, damping_factor, rest_length);
        }
        (Vec2 { x: fax, y: fay }, Vec2 { x: -fax, y: -fay })
    }

    /// Evaluates this spring once and accumulates the two contributions
    /// into its movable endpoints; a spring that does not apply (see
    /// [`spring_applies`]) leaves the arena untouched.
    pub fn move_mass_points(&self, points: &mut Vec<MassPoint>)
        ensures
            final(points)@ == apply_spring(old(points)@, *self),
    {
        if !(self.mp_a < points.len() && self.mp_b < points.len() && self.mp_a != self.mp_b
            && 0 <= self.stiffness && self.stiffness <= MAX_COORD && 0 <= self.rest_length
            && self.rest_length <= MAX_COORD && 0 <= self.damping_factor && self.damping_factor
            <= MAX_COORD) {
            return ;
        }
        let a = points[self.mp_a];
        let b = points[self.mp_b];
        if !(crate::vec2::check_vec_in_range(&a.position) && crate::vec2::check_vec_in_range(
            &a.velocity,
        ) && crate::vec2::check_vec_in_range(&b.position) && crate::vec2::check_vec_in_range(
            &b.velocity,
        )) {
            return ;
        }
        let (fa, fb) = Spring::get_force(
            &a,
            &b,
            self.stiffness,
            self.damping_factor,
            self.rest_length,
        );
        if a.movable {
            let nfx = a.force.x as i128 + fa.x as i128;
            let nfy = a.force.y as i128 + fa.y as i128;
            if fits(nfx) && fits(nfy) {
                let na = MassPoint { force: Vec2 { x: nfx as i64, y: nfy as i64 }, ..a };
                points[self.mp_a] = na;
            }
        }
        if b.movable {
            let nfx = b.force.x as i128 + fb.x as i128;
            let nfy = b.force.y as i128 + fb.y as i128;
            if fits(nfx) && fits(nfy) {
                let nb = MassPoint { force: Vec2 { x: nfx as i64, y: nfy as i64 }, ..b };
                points[self.mp_b] = nb;
            }
        }
        proof {
            assert(points@ =~= apply_spring(old(points)@, *self));
        }
    }

    /// Evaluates every spring once, in order, accumulating forces for the
    /// integrator. Returns how many springs had to be skipped for stale
    /// references, bad parameters or out-of-range endpoints: a skipped
    /// spring is reported, never half-applied.
    pub fn update_springs(springs: &Vec<Spring>, points: &mut Vec<MassPoint>) -> (skipped: usize)
        ensures
            final(points)@ == apply_springs(old(points)@, springs@, springs@.len() as int),
            skipped as int == skipped_springs(old(points)@, springs@, springs@.len() as int),
            forall|i: int|
                0 <= i < old(points)@.len() && !old(points)@[i].movable ==> final(points)@[i]
                    == old(points)@[i],
            forall|i: int|
                0 <= i < old(points)@.len() ==> {
                    let q = #[trigger] final(points)@[i];
                    q.position == old(points)@[i].position && q.velocity == old(points)@[i].velocity
                        && q.mass == old(points)@[i].mass && q.movable == old(points)@[i].movable
                },
    {
        let n = springs.len();
        let mut skipped: usize = 0;
        for i in 0..n
            invariant
                n == springs@.len(),
                points@ == apply_springs(old(points)@, springs@, i as int),
                skipped as int == skipped_springs(old(points)@, springs@, i as int),
                skipped <= i,
        {
            proof {
                lemma_apply_springs_frame(old(points)@, springs@, i as int);
            }
            let s = springs[i];
            let ok = s.mp_a < points.len() && s.mp_b < points.len() && s.mp_a != s.mp_b && 0
                <= s.stiffness && s.stiffness <= MAX_COORD && 0 <= s.rest_length && s.rest_length
                <= MAX_COORD && 0 <= s.damping_factor && s.damping_factor <= MAX_COORD && {
                let a = points[s.mp_a];
                let b = points[s.mp_b];
                crate::vec2::check_vec_in_range(&a.position) && crate::vec2::check_vec_in_range(
                    &a.velocity,
                ) && crate::vec2::check_vec_in_range(&b.position)
                    && crate::vec2::check_vec_in_range(&b.velocity)
            };
            if !ok {
                skipped = skipped + 1;
            } else {
                s.move_mass_points(points);
            }
        }
        proof {
            lemma_apply_springs_frame(old(points)@, springs@, n as int);
        }
        skipped
    }
}

} // verus!
