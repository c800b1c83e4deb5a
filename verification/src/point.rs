//! Point masses and the per-step updates that touch every one of them:
//! integration, gravity, and velocity damping.

use vstd::prelude::*;

use crate::error::SimError;
use crate::num::{div_t, fits, fits_i64, lemma_tdiv_shrinks, mul_wide, tdiv, MAX_COORD, SCALE};
use crate::vec2::{scalar_in_range, vec_in_range, Vec2};

verus! {

/// One vertex of a soft body.
///
/// A well-configured point has `mass >= 1`; the integrator treats a point
/// whose mass has been forced below that as immovable rather than divide
/// by it.
#[derive(Clone, Copy, Debug, PartialEq, Eq, Structural)]
pub struct MassPoint {
    pub position: Vec2,
    pub velocity: Vec2,
    /// Millionths of a mass unit; must be positive for a movable point.
    pub mass: i64,
    /// The force accumulator; cleared by the integrator every step.
    pub force: Vec2,
    /// `false` freezes the point: it never integrates and never receives a
    /// position or velocity correction.
    pub movable: bool,
}

impl Default for MassPoint {
    /// A movable point of unit mass at rest at the origin.
    fn default() -> (r: Self)
        ensures
            r == (MassPoint {
                position: Vec2 { x: 0, y: 0 },
                velocity: Vec2 { x: 0, y: 0 },
                mass: SCALE,
                force: Vec2 { x: 0, y: 0 },
                movable: true,
            }),
    {
        MassPoint {
            position: Vec2 { x: 0, y: 0 },
            velocity: Vec2 { x: 0, y: 0 },
            mass: SCALE,
            force: Vec2 { x: 0, y: 0 },
            movable: true,
        }
    }
}

/// What one integration step makes of one point.
///
/// A movable point gains `force * dt / mass` of velocity, advances by
/// `velocity * dt`, and has its force accumulator cleared. An immovable
/// point, a point with an invalid mass, and a point whose update would
/// leave the representable range are left exactly as they were.
pub open spec fn integrate_spec(p: MassPoint, dt: i64) -> MassPoint {
    if !p.movable || p.mass < 1 {
        p
    } else {
        let dvx = tdiv(p.force.x * dt, p.mass as int);
        let dvy = tdiv(p.force.y * dt, p.mass as int);
        let vx = p.velocity.x + dvx;
        let vy = p.velocity.y + dvy;
        if fits_i64(vx) && fits_i64(vy) {
            let px = p.position.x + tdiv(vx * dt, SCALE as int);
            let py = p.position.y + tdiv(vy * dt, SCALE as int);
            if fits_i64(px) && fits_i64(py) {
                MassPoint {
                    position: Vec2 { x: px as i64, y: py as i64 },
                    velocity: Vec2 { x: vx as i64, y: vy as i64 },
                    mass: p.mass,
                    force: Vec2 { x: 0, y: 0 },
                    movable: p.movable,
                }
            } else {
                p
            }
        } else {
            p
        }
    }
}

impl MassPoint {
    /// A validated point: a non-positive mass is refused at construction,
    /// so nothing downstream ever divides by it.
    pub fn new(position: Vec2, velocity: Vec2, mass: i64, movable: bool) -> (r: Result<
        MassPoint,
        SimError,
    >)
        ensures
            mass >= 1 ==> r == Ok::<MassPoint, SimError>(
                MassPoint { position, velocity, mass, force: Vec2 { x: 0, y: 0 }, movable },
            ),
            mass < 1 ==> r == Err::<MassPoint, SimError>(SimError::InvalidConfiguration),
    {
        if mass < 1 {
            Err(SimError::InvalidConfiguration)
        } else {
            Ok(MassPoint { position, velocity, mass, force: Vec2 { x: 0, y: 0 }, movable })
        }
    }

    /// One explicit-Euler step of this point: `velocity += force / mass *
    /// dt; position += velocity * dt; force = 0`, skipped entirely for an
    /// immovable point.
    pub fn update_mass_point(&mut self, dt: i64)
        ensures
            *final(self) == integrate_spec(*old(self), dt),
            !old(self).movable ==> *final(self) == *old(self),
    {
        if !self.movable || self.mass < 1 {
            return ;
        }
        let fx = mul_wide(self.force.x, dt);
        let fy = mul_wide(self.force.y, dt);
        proof {
            lemma_tdiv_shrinks(fx as int, self.mass as int);
            lemma_tdiv_shrinks(fy as int, self.mass as int);
        }
        let dvx = div_t(fx, self.mass as i128);
        let dvy = div_t(fy, self.mass as i128);
        let vx = self.velocity.x as i128 + dvx;
        let vy = self.velocity.y as i128 + dvy;
        if !(fits(vx) && fits(vy)) {
            return ;
        }
        let vx = vx as i64;
        let vy = vy as i64;
        let mx = mul_wide(vx, dt);
        let my = mul_wide(vy, dt);
        proof {
            lemma_tdiv_shrinks(mx as int, SCALE as int);
            lemma_tdiv_shrinks(my as int, SCALE as int);
        }
        let px = self.position.x as i128 + div_t(mx, SCALE as i128);
        let py = self.position.y as i128 + div_t(my, SCALE as i128);
        if !(fits(px) && fits(py)) {
            return ;
        }
        self.position = Vec2 { x: px as i64, y: py as i64 };
        self.velocity = Vec2 { x: vx, y: vy };
        self.force = Vec2 { x: 0, y: 0 };
    }

    /// One integration step over the whole arena. Immovable points are
    /// left bit-identical.
    pub fn update_mass_points(points: &mut Vec<MassPoint>, dt: i64)
        ensures
            final(points)@ == old(points)@.map_values(|p: MassPoint| integrate_spec(p, dt)),
            forall|i: int|
                0 <= i < old(points)@.len() && !old(points)@[i].movable ==> final(points)@[i]
                    == old(points)@[i],
    {
        let n = points.len();
        for i in 0..n
            invariant
                n == points@.len() == old(points)@.len(),
                forall|j: int| 0 <= j < i ==> points@[j] == integrate_spec(old(points)@[j], dt),
                forall|j: int| i <= j < n ==> points@[j] == old(points)@[j],
        {
            let mut p = points[i];
            p.update_mass_point(dt);
            points[i] = p;
        }
        proof {
            assert(points@ =~= old(points)@.map_values(|p: MassPoint| integrate_spec(p, dt)));
        }
    }
}

/// The point after `k` integration steps under a constant applied force:
/// before each step the accumulator is set to `f`, as a constant external
/// force merged in once per step would.
pub open spec fn iterate_constant_force(p: MassPoint, f: Vec2, dt: i64, k: nat) -> MassPoint
    decreases k,
{
    if k == 0 {
        p
    } else {
        integrate_spec(
            MassPoint { force: f, ..iterate_constant_force(p, f, dt, (k - 1) as nat) },
            dt,
        )
    }
}

/// The integrator is exact on a force-free point: one step leaves the
/// velocity untouched and advances the position by exactly
/// `velocity * dt`.
pub proof fn lemma_integrator_zero_force(p: MassPoint, dt: i64)
    requires
        p.movable,
        p.mass >= 1,
        p.force == (Vec2 { x: 0, y: 0 }),
        vec_in_range(p.position),
        vec_in_range(p.velocity),
        0 <= dt <= SCALE,
    ensures
        integrate_spec(p, dt).velocity == p.velocity,
        integrate_spec(p, dt).position.x == p.position.x + tdiv(p.velocity.x * dt, SCALE as int),
        integrate_spec(p, dt).position.y == p.position.y + tdiv(p.velocity.y * dt, SCALE as int),
{
    assert(p.force.x * dt == 0 && p.force.y * dt == 0) by (nonlinear_arith)
        requires
            p.force.x == 0 && p.force.y == 0,
    ;
    crate::num::lemma_tdiv_shrinks(0, p.mass as int);
    crate::num::lemma_mul_bounds(
        p.velocity.x as int,
        dt as int,
        MAX_COORD as int,
        SCALE as int,
    );
    crate::num::lemma_mul_bounds(
        p.velocity.y as int,
        dt as int,
        MAX_COORD as int,
        SCALE as int,
    );
    crate::num::lemma_tdiv_bounds(
        p.velocity.x as int * dt as int,
        SCALE as int,
        -(MAX_COORD as int),
        MAX_COORD as int,
    );
    crate::num::lemma_tdiv_bounds(
        p.velocity.y as int * dt as int,
        SCALE as int,
        -(MAX_COORD as int),
        MAX_COORD as int,
    );
}

/// The integrator is deterministic under a constant force: after `k`
/// identical steps the velocity is exactly the start velocity plus `k`
/// times the one-step gain `force * dt / mass`. The bounds keep every
/// step inside the representable range, so no step is ever skipped.
pub proof fn lemma_integrator_constant_force(p: MassPoint, f: Vec2, dt: i64, k: nat)
    requires
        p.movable,
        1 <= p.mass,
        vec_in_range(p.position),
        vec_in_range(p.velocity),
        0 <= dt <= SCALE,
        scalar_in_range(tdiv(f.x * dt, p.mass as int)),
        scalar_in_range(tdiv(f.y * dt, p.mass as int)),
        k <= 1000,
    ensures
        ({
            let q = iterate_constant_force(p, f, dt, k);
            let dvx = tdiv(f.x * dt, p.mass as int);
            let dvy = tdiv(f.y * dt, p.mass as int);
            &&& q.velocity.x == p.velocity.x + k * dvx
            &&& q.velocity.y == p.velocity.y + k * dvy
            &&& q.movable
            &&& q.mass == p.mass
            &&& -(MAX_COORD + k * 1_002_000_000_000) <= q.position.x <= MAX_COORD + k
                * 1_002_000_000_000
            &&& -(MAX_COORD + k * 1_002_000_000_000) <= q.position.y <= MAX_COORD + k
                * 1_002_000_000_000
        }),
    decreases k,
{
    let dvx = tdiv(f.x * dt, p.mass as int);
    let dvy = tdiv(f.y * dt, p.mass as int);
    if k > 0 {
        lemma_integrator_constant_force(p, f, dt, (k - 1) as nat);
        let prev = iterate_constant_force(p, f, dt, (k - 1) as nat);
        let fed = MassPoint { force: f, ..prev };
        crate::num::lemma_mul_bounds(dvx, k - 1, MAX_COORD as int, 1000);
        crate::num::lemma_mul_bounds(dvy, k - 1, MAX_COORD as int, 1000);
        assert((k - 1) * dvx == dvx * (k - 1) && (k - 1) * dvy == dvy * (k - 1)) by (nonlinear_arith);
        let vx = prev.velocity.x + dvx;
        let vy = prev.velocity.y + dvy;
        assert(vx == p.velocity.x + k * dvx && vy == p.velocity.y + k * dvy) by (nonlinear_arith)
            requires
                prev.velocity.x == p.velocity.x + (k - 1) * dvx,
                prev.velocity.y == p.velocity.y + (k - 1) * dvy,
                vx == prev.velocity.x + dvx,
                vy == prev.velocity.y + dvy,
                k >= 1,
        ;
        crate::num::lemma_mul_bounds(vx, dt as int, 1_002_000_000_000, SCALE as int);
        crate::num::lemma_mul_bounds(vy, dt as int, 1_002_000_000_000, SCALE as int);
        crate::num::lemma_tdiv_bounds(
            vx * dt,
            SCALE as int,
            -1_002_000_000_000,
            1_002_000_000_000,
        );
        crate::num::lemma_tdiv_bounds(
            vy * dt,
            SCALE as int,
            -1_002_000_000_000,
            1_002_000_000_000,
        );
    }
}

/// What applying gravity makes of one point: a movable point's position
/// falls by `gravity * dt` along the y axis, directly, outside the force
/// accumulator; an immovable point is untouched, as is one whose new
/// position would not be representable.
pub open spec fn gravity_spec(p: MassPoint, gravity: i64, dt: i64) -> MassPoint {
    if !p.movable {
        p
    } else {
        let py = p.position.y - tdiv(gravity * dt, SCALE as int);
        if fits_i64(py) {
            MassPoint { position: Vec2 { x: p.position.x, y: py as i64 }, ..p }
        } else {
            p
        }
    }
}

/// Pulls every movable point down by `gravity * dt`: the one gravity
/// application of a step.
pub fn apply_gravity(points: &mut Vec<MassPoint>, gravity: i64, dt: i64)
    ensures
        final(points)@ == old(points)@.map_values(|p: MassPoint| gravity_spec(p, gravity, dt)),
        forall|i: int|
            0 <= i < old(points)@.len() && !old(points)@[i].movable ==> final(points)@[i]
                == old(points)@[i],
{
    let n = points.len();
    let fall = mul_wide(gravity, dt);
    proof {
        lemma_tdiv_shrinks(fall as int, SCALE as int);
    }
    let fall = div_t(fall, SCALE as i128);
    for i in 0..n
        invariant
            n == points@.len() == old(points)@.len(),
            fall as int == tdiv(gravity as int * dt as int, SCALE as int),
            -0x4000_0000_0000_0000_0000_0000_0000_0000int <= fall as int
                <= 0x4000_0000_0000_0000_0000_0000_0000_0000int,
            forall|j: int| 0 <= j < i ==> points@[j] == gravity_spec(old(points)@[j], gravity, dt),
            forall|j: int| i <= j < n ==> points@[j] == old(points)@[j],
    {
        let p = points[i];
        if p.movable {
            let py = p.position.y as i128 - fall;
            if fits(py) {
                let q = MassPoint {
                    position: Vec2 { x: p.position.x, y: py as i64 },
                    ..p
                };
                points[i] = q;
            }
        }
    }
    proof {
        assert(points@ =~= old(points)@.map_values(|p: MassPoint| gravity_spec(p, gravity, dt)));
    }
}

/// What damping makes of one point: every velocity component shrinks by
/// the factor `1 - dt / 2`. It applies to every point, movable or not.
pub open spec fn dampen_spec(p: MassPoint, dt: i64) -> MassPoint {
    let f = SCALE - tdiv(dt as int, 2);
    MassPoint {
        velocity: Vec2 {
            x: tdiv(p.velocity.x * f, SCALE as int) as i64,
            y: tdiv(p.velocity.y * f, SCALE as int) as i64,
        },
        ..p
    }
}

/// Bleeds kinetic energy out of the scene: every velocity is scaled by
/// `1 - dt / 2`. Velocities never grow, so this cannot overflow.
pub fn dampen_velocities(points: &mut Vec<MassPoint>, dt: i64)
    requires
        0 <= dt <= SCALE,
    ensures
        final(points)@ == old(points)@.map_values(|p: MassPoint| dampen_spec(p, dt)),
{
    let n = points.len();
    let f = SCALE - dt / 2;
    for i in 0..n
        invariant
            n == points@.len() == old(points)@.len(),
            SCALE / 2 <= f <= SCALE,
            f as int == SCALE - tdiv(dt as int, 2),
            forall|j: int| 0 <= j < i ==> points@[j] == dampen_spec(old(points)@[j], dt),
            forall|j: int| i <= j < n ==> points@[j] == old(points)@[j],
    {
        let p = points[i];
        let wx = mul_wide(p.velocity.x, f);
        let wy = mul_wide(p.velocity.y, f);
        proof {
            assert((-0x8000_0000_0000_0000int) * SCALE <= wx as int <= 0x7fff_ffff_ffff_ffffint
                * SCALE) by (nonlinear_arith)
                requires
                    -0x8000_0000_0000_0000int <= p.velocity.x as int <= 0x7fff_ffff_ffff_ffffint,
                    0 <= f as int <= SCALE as int,
                    wx as int == p.velocity.x as int * f as int,
                    SCALE == 1_000_000i64,
            ;
            assert((-0x8000_0000_0000_0000int) * SCALE <= wy as int <= 0x7fff_ffff_ffff_ffffint
                * SCALE) by (nonlinear_arith)
                requires
                    -0x8000_0000_0000_0000int <= p.velocity.y as int <= 0x7fff_ffff_ffff_ffffint,
                    0 <= f as int <= SCALE as int,
                    wy as int == p.velocity.y as int * f as int,
                    SCALE == 1_000_000i64,
            ;
            crate::num::lemma_tdiv_bounds(
                wx as int,
                SCALE as int,
                -0x8000_0000_0000_0000int,
                0x7fff_ffff_ffff_ffffint,
            );
            crate::num::lemma_tdiv_bounds(
                wy as int,
                SCALE as int,
                -0x8000_0000_0000_0000int,
                0x7fff_ffff_ffff_ffffint,
            );
        }
        let vx = div_t(wx, SCALE as i128);
        let vy = div_t(wy, SCALE as i128);
        let q = MassPoint { velocity: Vec2 { x: vx as i64, y: vy as i64 }, ..p };
        points[i] = q;
    }
    proof {
        assert(points@ =~= old(points)@.map_values(|p: MassPoint| dampen_spec(p, dt)));
    }
}

} // verus!
