//! Circle bodies, contact manifolds, impulse resolution, positional
//! correction, raycasting, and the per-tick physics, sensing and action
//! passes.
//!
//! Geometry is exact integer arithmetic: a manifold keeps the raw
//! centre-to-centre offset `n` instead of a normalised direction, and every
//! formula divides by the squared length `|n|^2` (or by `dist = isqrt(|n|^2)`)
//! only where the real-valued physics would, with the division floored.

use vstd::prelude::*;

use crate::data::{eq_arrays, eq_arrays_except_positions, eq_arrays_except_velocities, Entity, GameData, Has};
use crate::creature::{
    kind_children, kind_timeout, mate, Creature, Direction, Food, Kind, Position, Velocity,
    DIR_COUNT, FOOD, RAY_COUNT,
};
use crate::lazy::lazy_eq;
use crate::nn::{activations_wf, Inputs, Outputs};
use crate::rng::rand_range;
use crate::math::{clamp_i128, clamp_spec, div_nn, isqrt, isqrt_spec};
use crate::vec2::Vec2;
use crate::{HEIGHT, POS_LIMIT, RADIUS, RADIUS_LIMIT, RMASS_SCALE, SPEED, UNIT, VEL_LIMIT, WIDTH};

verus! {

/// How far a creature can sense, in milli-units.
pub const VIEW_DISTANCE: i64 = 10000000;

/// A finite sensing segment from `p1` to `p2`.
#[derive(Clone, Copy, Debug, PartialEq, Eq, Structural)]
pub struct Ray {
    pub p1: Vec2,
    pub p2: Vec2,
}

/// A circular physical body.
///
/// `rmass` is the precomputed inverse mass, fixed-point with scale
/// `RMASS_SCALE`; it is `0` for an immovable (infinite-mass) body, which is
/// encoded as `mass == 0`.
#[derive(Clone, Copy, Debug, PartialEq, Eq, Structural)]
pub struct Body {
    pub radius: i64,
    pub mass: i64,
    pub rmass: i64,
    pub restitution: i64,
}

/// The body invariant: a positive bounded radius, a restitution in
/// `[0, UNIT]`, and an inverse mass that matches the mass.
pub open spec fn body_wf(b: Body) -> bool {
    &&& 0 < b.radius <= RADIUS_LIMIT
    &&& 0 <= b.restitution <= UNIT
    &&& 0 <= b.mass <= POS_LIMIT
    &&& 0 <= b.rmass <= RMASS_SCALE
    &&& b.rmass == (if b.mass == 0 {
        0
    } else {
        RMASS_SCALE as int / b.mass as int
    })
}

impl Body {
    pub fn new(radius: i64, mass: i64, restitution: i64) -> (b: Body)
        requires
            0 < radius <= RADIUS_LIMIT,
            0 <= mass <= POS_LIMIT,
            0 <= restitution <= UNIT,
        ensures
            b.radius == radius,
            b.mass == mass,
            b.restitution == restitution,
            body_wf(b),
    {
        let rmass: i64 = if mass == 0 {
            0
        } else {
            proof {
                vstd::arithmetic::div_mod::lemma_div_pos_is_pos(RMASS_SCALE as int, mass as int);
                vstd::arithmetic::div_mod::lemma_div_is_ordered_by_denominator(
                    RMASS_SCALE as int,
                    1,
                    mass as int,
                );
            }
            RMASS_SCALE / mass
        };
        Body { radius, mass, rmass, restitution }
    }
}

/// A contact between two overlapping bodies.
///
/// `n` points from `a`'s centre to `b`'s centre (or is the `(1, 0)` fallback
/// when the centres coincide), `dist` is the floored centre distance (`1` in
/// the degenerate case), and `penetration` is how deeply the circles overlap.
#[derive(Clone, Copy, Debug, PartialEq, Eq, Structural)]
pub struct Manifold {
    pub a: Entity,
    pub b: Entity,
    pub n: Vec2,
    pub dist: i64,
    pub penetration: i64,
}

/// Bounds every manifold that `gen_manifold` hands out satisfies; they keep
/// the resolution arithmetic inside 128 bits.
pub open spec fn manifold_wf(m: Manifold) -> bool {
    &&& -2 * RADIUS_LIMIT <= m.n.x <= 2 * RADIUS_LIMIT
    &&& -2 * RADIUS_LIMIT <= m.n.y <= 2 * RADIUS_LIMIT
    &&& 1 <= m.n.norm2()
    &&& 1 <= m.dist <= 2 * RADIUS_LIMIT
    &&& 0 <= m.penetration <= 2 * RADIUS_LIMIT
}

/// Detects overlap between the bodies of `a` and `b`.
///
/// Returns `Some` exactly when the squared centre distance is at most the
/// squared radius sum, with `penetration == radius sum - floored distance`;
/// when the centres coincide, the fallback normal `(1, 0)` with `dist == 1`
/// and `penetration == a`'s radius stands in (the documented degenerate
/// policy). Returns `None` exactly when the centres are farther apart than
/// the radius sum.
pub fn gen_manifold(data: &GameData, a: Entity, b: Entity) -> (r: Option<Manifold>)
    requires
        data.wf(),
        data.sound(),
        a.idx < data.entity,
        b.idx < data.entity,
        data.bodies@[a.idx as int] is Some,
        data.bodies@[b.idx as int] is Some,
        data.positions@[a.idx as int] is Some,
        data.positions@[b.idx as int] is Some,
    ensures
        ({
            let pa = data.positions@[a.idx as int]->0.position;
            let pb = data.positions@[b.idx as int]->0.position;
            let ra = data.bodies@[a.idx as int]->0.radius;
            let rb = data.bodies@[b.idx as int]->0.radius;
            let diff = Vec2 { x: (pb.x - pa.x) as i64, y: (pb.y - pa.y) as i64 };
            let d2 = diff.norm2();
            &&& (r is Some <==> d2 <= (ra + rb) * (ra + rb))
            &&& (r is Some ==> manifold_wf(r->0) && r->0.a == a && r->0.b == b
                && r->0.penetration >= 0)
            &&& (r is Some && d2 > 0 ==> r->0.n == diff && r->0.dist == isqrt_spec(d2 as nat)
                && r->0.penetration == ra + rb - r->0.dist)
            &&& (r is Some && d2 == 0 ==> r->0.n == (Vec2 { x: 1, y: 0 }) && r->0.dist == 1
                && r->0.penetration == ra)
            &&& r == manifold_model(*data, a, b)
        }),
{
    let a_body = *data.get_body(a.component());
    let b_body = *data.get_body(b.component());
    let pa = data.get_position(a.component()).position;
    let pb = data.get_position(b.component()).position;

    let nx: i64 = pb.x - pa.x;
    let ny: i64 = pb.y - pa.y;
    let rsum: i64 = a_body.radius + b_body.radius;
    proof {
        assert(0 <= nx as int * nx as int <= 0x10000000000000000000
            && 0 <= ny as int * ny as int <= 0x10000000000000000000) by (nonlinear_arith)
            requires
                -2 * POS_LIMIT <= nx as int <= 2 * POS_LIMIT,
                -2 * POS_LIMIT <= ny as int <= 2 * POS_LIMIT,
                POS_LIMIT == 1000000000,
        ;
        assert(0 < rsum as int * rsum as int <= 4 * RADIUS_LIMIT * RADIUS_LIMIT)
            by (nonlinear_arith)
            requires
                0 < rsum as int <= 2 * RADIUS_LIMIT,
        ;
    }
    let d2_wide: i128 = nx as i128 * nx as i128 + ny as i128 * ny as i128;
    if d2_wide > rsum as i128 * rsum as i128 {
        return None;
    }
    proof {
        assert(rsum as int * rsum as int <= 4 * RADIUS_LIMIT * RADIUS_LIMIT) by (nonlinear_arith)
            requires
                0 < rsum as int <= 2 * RADIUS_LIMIT,
        ;
        assert(-2 * RADIUS_LIMIT <= nx as int <= 2 * RADIUS_LIMIT) by (nonlinear_arith)
            requires
                nx as int * nx as int <= 4 * RADIUS_LIMIT * RADIUS_LIMIT,
                RADIUS_LIMIT == 100000,
        ;
        assert(-2 * RADIUS_LIMIT <= ny as int <= 2 * RADIUS_LIMIT) by (nonlinear_arith)
            requires
                ny as int * ny as int <= 4 * RADIUS_LIMIT * RADIUS_LIMIT,
                RADIUS_LIMIT == 100000,
        ;
    }
    let d2: u64 = d2_wide as u64;
    let penetration: i64;
    let n: Vec2;
    let dist: i64;
    if d2 > 0 {
        let root: u64 = isqrt(d2);
        proof {
            assert(isqrt_spec(d2 as nat) * isqrt_spec(d2 as nat) <= d2 as nat);
            let rt = root as int;
            assert(1 <= rt <= rsum as int) by (nonlinear_arith)
                requires
                    rt >= 0,
                    rt * rt <= d2 as int,
                    d2 as int <= rsum as int * rsum as int,
                    (d2 as int) < (rt + 1) * (rt + 1),
                    d2 as int >= 1,
                    rsum as int >= 1,
            ;
        }
        dist = root as i64;
        penetration = rsum - dist;
        n = Vec2 { x: nx, y: ny };
    } else {
        proof {
            assert(nx as int * nx as int >= 0 && ny as int * ny as int >= 0) by (nonlinear_arith);
        }
        dist = 1;
        penetration = a_body.radius;
        n = Vec2 { x: 1, y: 0 };
    }
    Some(Manifold { a, b, n, dist, penetration })
}

/// Relative velocity of `b` with respect to `a`, along the (unnormalised)
/// contact offset `n`; negative means the bodies approach each other.
pub open spec fn veln_spec(va: Vec2, vb: Vec2, n: Vec2) -> int {
    (vb.x - va.x) * n.x + (vb.y - va.y) * n.y
}

/// Magnitude of one component of a body's impulse-driven velocity change:
/// the real-valued `(1 + e) * |veln| / (wsum * |n|^2)` impulse, scaled by
/// the body's inverse-mass weight `w` and the offset component `|nc|`,
/// floored once at the end.
pub open spec fn imp_mag(veln: int, e: int, w: int, nc: int, wsum: int, d2: int) -> int {
    ((UNIT + e) * (-veln) * w * (if nc >= 0 {
        nc
    } else {
        -nc
    })) / (UNIT * wsum * d2)
}

/// One signed component of the velocity change along the offset.
pub open spec fn imp_delta(veln: int, e: int, w: int, nc: int, wsum: int, d2: int) -> int {
    if nc >= 0 {
        imp_mag(veln, e, w, nc, wsum, d2)
    } else {
        -imp_mag(veln, e, w, nc, wsum, d2)
    }
}

/// The two velocities `resolve` leaves behind: unchanged for a separating
/// pair or when both bodies are immovable, otherwise each pushed along the
/// contact offset in proportion to its inverse mass, clamped into the legal
/// velocity range.
pub open spec fn resolve_model(va: Vec2, vb: Vec2, ba: Body, bb: Body, n: Vec2) -> (Vec2, Vec2) {
    let veln = veln_spec(va, vb, n);
    let wsum = ba.rmass + bb.rmass;
    if veln > 0 || wsum == 0 {
        (va, vb)
    } else {
        let e = if ba.restitution <= bb.restitution {
            ba.restitution as int
        } else {
            bb.restitution as int
        };
        let d2 = n.norm2();
        (
            Vec2 {
                x: clamp_spec(
                    va.x - imp_delta(veln, e, ba.rmass as int, n.x as int, wsum as int, d2),
                    VEL_LIMIT as int,
                ) as i64,
                y: clamp_spec(
                    va.y - imp_delta(veln, e, ba.rmass as int, n.y as int, wsum as int, d2),
                    VEL_LIMIT as int,
                ) as i64,
            },
            Vec2 {
                x: clamp_spec(
                    vb.x + imp_delta(veln, e, bb.rmass as int, n.x as int, wsum as int, d2),
                    VEL_LIMIT as int,
                ) as i64,
                y: clamp_spec(
                    vb.y + imp_delta(veln, e, bb.rmass as int, n.y as int, wsum as int, d2),
                    VEL_LIMIT as int,
                ) as i64,
            },
        )
    }
}

/// Resolves a manifold generated with `gen_manifold`: applies the restitution
/// -bounded impulse to both velocities. A separating pair (positive relative
/// velocity along the normal) is left untouched, as is a pair of two
/// immovable bodies.
pub fn resolve(data: &mut GameData, m: &Manifold)
    requires
        old(data).wf(),
        old(data).sound(),
        manifold_wf(*m),
        m.a.idx < old(data).entity,
        m.b.idx < old(data).entity,
        m.a.idx != m.b.idx,
        old(data).velocities@[m.a.idx as int] is Some,
        old(data).velocities@[m.b.idx as int] is Some,
        old(data).bodies@[m.a.idx as int] is Some,
        old(data).bodies@[m.b.idx as int] is Some,
    ensures
        final(data).wf(),
        final(data).sound(),
        resolve_rel(*old(data), *final(data), *m),
{
    let va = data.get_velocity(m.a.component()).velocity;
    let vb = data.get_velocity(m.b.component()).velocity;
    let ba = *data.get_body(m.a.component());
    let bb = *data.get_body(m.b.component());

    let rvx: i64 = vb.x - va.x;
    let rvy: i64 = vb.y - va.y;
    proof {
        assert(-400000000000000 <= rvx as int * m.n.x as int <= 400000000000000
            && -400000000000000 <= rvy as int * m.n.y as int <= 400000000000000)
            by (nonlinear_arith)
            requires
                -2 * VEL_LIMIT <= rvx as int <= 2 * VEL_LIMIT,
                -2 * VEL_LIMIT <= rvy as int <= 2 * VEL_LIMIT,
                -2 * RADIUS_LIMIT <= m.n.x as int <= 2 * RADIUS_LIMIT,
                -2 * RADIUS_LIMIT <= m.n.y as int <= 2 * RADIUS_LIMIT,
                VEL_LIMIT == 1000000000,
                RADIUS_LIMIT == 100000,
        ;
    }
    let veln: i64 = rvx * m.n.x + rvy * m.n.y;
    let wsum: i64 = ba.rmass + bb.rmass;
    if veln > 0 || wsum == 0 {
        proof {
            assert(data.velocities@.update(m.a.idx as int, Some(Velocity { velocity: va })).update(
                m.b.idx as int,
                Some(Velocity { velocity: vb }),
            ) =~= data.velocities@);
        }
        return ;
    }
    let e: i64 = if ba.restitution <= bb.restitution {
        ba.restitution
    } else {
        bb.restitution
    };
    proof {
        assert(0 <= m.n.x as int * m.n.x as int <= 0x10000000000
            && 0 <= m.n.y as int * m.n.y as int <= 0x10000000000) by (nonlinear_arith)
            requires
                -2 * RADIUS_LIMIT <= m.n.x as int <= 2 * RADIUS_LIMIT,
                -2 * RADIUS_LIMIT <= m.n.y as int <= 2 * RADIUS_LIMIT,
                RADIUS_LIMIT == 100000,
        ;
    }
    let d2: i64 = m.n.x * m.n.x + m.n.y * m.n.y;
    proof {
        assert(0 <= (UNIT + e) as int * (-veln) as int <= 1600000000000000000)
            by (nonlinear_arith)
            requires
                0 <= e as int <= UNIT,
                0 <= (-veln) as int <= 800000000000000,
                UNIT == 1000,
        ;
        assert(0 < UNIT as int * wsum as int <= 2000000000000) by (nonlinear_arith)
            requires
                0 < wsum as int <= 2 * RMASS_SCALE,
                UNIT == 1000,
                RMASS_SCALE == 1000000000,
        ;
        assert(0 < (UNIT as int * wsum as int) * d2 as int <= 5000000000000000000000000)
            by (nonlinear_arith)
            requires
                0 < UNIT as int * wsum as int <= 2000000000000,
                0 < d2 as int <= 0x20000000000,
        ;
    }
    let numer: i128 = (UNIT + e) as i128 * (-veln) as i128;
    let denom: i128 = UNIT as i128 * wsum as i128 * d2 as i128;
    let absnx: i64 = if m.n.x >= 0 {
        m.n.x
    } else {
        -m.n.x
    };
    let absny: i64 = if m.n.y >= 0 {
        m.n.y
    } else {
        -m.n.y
    };
    proof {
        assert(0 <= numer as int * ba.rmass as int <= 1600000000000000000000000000
            && 0 <= numer as int * bb.rmass as int <= 1600000000000000000000000000)
            by (nonlinear_arith)
            requires
                0 <= numer as int <= 1600000000000000000,
                0 <= ba.rmass as int <= RMASS_SCALE,
                0 <= bb.rmass as int <= RMASS_SCALE,
                RMASS_SCALE == 1000000000,
        ;
        lemma_scaled_delta_bound(numer as int, ba.rmass as int, absnx as int);
        lemma_scaled_delta_bound(numer as int, ba.rmass as int, absny as int);
        lemma_scaled_delta_bound(numer as int, bb.rmass as int, absnx as int);
        lemma_scaled_delta_bound(numer as int, bb.rmass as int, absny as int);
    }
    let mag_ax: i128 = div_nn(numer * ba.rmass as i128 * absnx as i128, denom);
    let mag_ay: i128 = div_nn(numer * ba.rmass as i128 * absny as i128, denom);
    let mag_bx: i128 = div_nn(numer * bb.rmass as i128 * absnx as i128, denom);
    let mag_by: i128 = div_nn(numer * bb.rmass as i128 * absny as i128, denom);
    let dax: i128 = if m.n.x >= 0 {
        mag_ax
    } else {
        -mag_ax
    };
    let day: i128 = if m.n.y >= 0 {
        mag_ay
    } else {
        -mag_ay
    };
    let dbx: i128 = if m.n.x >= 0 {
        mag_bx
    } else {
        -mag_bx
    };
    let dby: i128 = if m.n.y >= 0 {
        mag_by
    } else {
        -mag_by
    };
    let new_va = Velocity {
        velocity: Vec2 {
            x: clamp_i128(va.x as i128 - dax, VEL_LIMIT),
            y: clamp_i128(va.y as i128 - day, VEL_LIMIT),
        },
    };
    let new_vb = Velocity {
        velocity: Vec2 {
            x: clamp_i128(vb.x as i128 + dbx, VEL_LIMIT),
            y: clamp_i128(vb.y as i128 + dby, VEL_LIMIT),
        },
    };
    data.set_velocity(m.a.component(), new_va);

    data.set_velocity(m.b.component(), new_vb);
}

/// Below this depth, in milli-units, residual overlap is tolerated.
pub const SLOP: i64 = 20;

/// Fraction (scaled by `UNIT`) of the residual overlap removed per pass.
pub const CORRECT_PERCENT: i64 = 200;

/// The shift a positional correction applies along one component `nc` of the
/// contact offset, for a body of inverse-mass weight `w`: the real-valued
/// `nc / dist * overlap / wsum * (CORRECT_PERCENT / UNIT)`, floored on the
/// magnitude.
pub open spec fn correct_shift(nc: int, cnum: int, w: int, dist: int, wsum: int) -> int {
    if nc >= 0 {
        (nc * cnum * w * CORRECT_PERCENT) / (dist * wsum * UNIT)
    } else {
        -(((-nc) * cnum * w * CORRECT_PERCENT) / (dist * wsum * UNIT))
    }
}

/// The two positions `correct` leaves behind: nudged apart along the contact
/// offset in proportion to inverse mass, by a fraction of the overlap beyond
/// `SLOP`; unchanged when both bodies are immovable.
pub open spec fn correct_model(pa: Vec2, pb: Vec2, ba: Body, bb: Body, m: Manifold) -> (
    Vec2,
    Vec2,
) {
    let wsum = ba.rmass + bb.rmass;
    if wsum == 0 {
        (pa, pb)
    } else {
        let cnum = if m.penetration - SLOP > 0 {
            m.penetration - SLOP
        } else {
            0
        };
        (
            Vec2 {
                x: clamp_spec(
                    pa.x - correct_shift(m.n.x as int, cnum, ba.rmass as int, m.dist as int, wsum),
                    POS_LIMIT as int,
                ) as i64,
                y: clamp_spec(
                    pa.y - correct_shift(m.n.y as int, cnum, ba.rmass as int, m.dist as int, wsum),
                    POS_LIMIT as int,
                ) as i64,
            },
            Vec2 {
                x: clamp_spec(
                    pb.x + correct_shift(m.n.x as int, cnum, bb.rmass as int, m.dist as int, wsum),
                    POS_LIMIT as int,
                ) as i64,
                y: clamp_spec(
                    pb.y + correct_shift(m.n.y as int, cnum, bb.rmass as int, m.dist as int, wsum),
                    POS_LIMIT as int,
                ) as i64,
            },
        )
    }
}

/// One corrective shift, by magnitude-with-sign, so every division floors a
/// non-negative quantity.
fn correct_shift_exec(nc: i64, cnum: i64, w: i64, dist: i64, wsum: i64) -> (r: i128)
    requires
        -2 * RADIUS_LIMIT <= nc <= 2 * RADIUS_LIMIT,
        0 <= cnum <= 2 * RADIUS_LIMIT,
        0 <= w <= RMASS_SCALE,
        1 <= dist <= 2 * RADIUS_LIMIT,
        1 <= wsum <= 2 * RMASS_SCALE,
    ensures
        r == correct_shift(nc as int, cnum as int, w as int, dist as int, wsum as int),
        -10000000000000000000000 <= r <= 10000000000000000000000,
{
    let neg = nc < 0;
    let absn: i64 = if neg {
        -nc
    } else {
        nc
    };
    proof {
        assert(0 <= absn as int * cnum as int <= 40000000000) by (nonlinear_arith)
            requires
                0 <= absn as int <= 200000,
                0 <= cnum as int <= 200000,
        ;
        assert(0 <= (absn as int * cnum as int) * w as int <= 40000000000000000000)
            by (nonlinear_arith)
            requires
                0 <= absn as int * cnum as int <= 40000000000,
                0 <= w as int <= 1000000000,
        ;
        assert(0 <= ((absn as int * cnum as int) * w as int) * CORRECT_PERCENT as int
            <= 8000000000000000000000) by (nonlinear_arith)
            requires
                0 <= (absn as int * cnum as int) * w as int <= 40000000000000000000,
                CORRECT_PERCENT == 200,
        ;
        assert(0 < dist as int * wsum as int <= 400000000000000) by (nonlinear_arith)
            requires
                1 <= dist as int <= 200000,
                1 <= wsum as int <= 2000000000,
        ;
        assert(0 < (dist as int * wsum as int) * UNIT as int <= 400000000000000000)
            by (nonlinear_arith)
            requires
                0 < dist as int * wsum as int <= 400000000000000,
                UNIT == 1000,
        ;
    }
    let numer: i128 = absn as i128 * cnum as i128 * w as i128 * CORRECT_PERCENT as i128;
    let denom: i128 = dist as i128 * wsum as i128 * UNIT as i128;
    let mag: i128 = div_nn(numer, denom);
    if neg {
        -mag
    } else {
        mag
    }
}

/// Corrects residual overlap positionally, without touching velocities:
/// each body is nudged along the contact offset in proportion to its inverse
/// mass, by `CORRECT_PERCENT / UNIT` of the overlap beyond `SLOP`.
pub fn correct(data: &mut GameData, m: &Manifold)
    requires
        old(data).wf(),
        old(data).sound(),
        manifold_wf(*m),
        m.a.idx < old(data).entity,
        m.b.idx < old(data).entity,
        m.a.idx != m.b.idx,
        old(data).positions@[m.a.idx as int] is Some,
        old(data).positions@[m.b.idx as int] is Some,
        old(data).bodies@[m.a.idx as int] is Some,
        old(data).bodies@[m.b.idx as int] is Some,
    ensures
        final(data).wf(),
        final(data).sound(),
        correct_rel(*old(data), *final(data), *m),
{
    let pa = data.get_position(m.a.component()).position;
    let pb = data.get_position(m.b.component()).position;
    let ba = *data.get_body(m.a.component());
    let bb = *data.get_body(m.b.component());
    let wsum: i64 = ba.rmass + bb.rmass;
    if wsum == 0 {
        proof {
            assert(data.positions@.update(m.a.idx as int, Some(Position { position: pa })).update(
                m.b.idx as int,
                Some(Position { position: pb }),
            ) =~= data.positions@);
        }
        return ;
    }
    let cnum: i64 = if m.penetration - SLOP > 0 {
        m.penetration - SLOP
    } else {
        0
    };
    let sax: i128 = correct_shift_exec(m.n.x, cnum, ba.rmass, m.dist, wsum);
    let say: i128 = correct_shift_exec(m.n.y, cnum, ba.rmass, m.dist, wsum);
    let sbx: i128 = correct_shift_exec(m.n.x, cnum, bb.rmass, m.dist, wsum);
    let sby: i128 = correct_shift_exec(m.n.y, cnum, bb.rmass, m.dist, wsum);
    let new_pa = Position {
        position: Vec2 {
            x: clamp_i128(pa.x as i128 - sax, POS_LIMIT),
            y: clamp_i128(pa.y as i128 - say, POS_LIMIT),
        },
    };
    let new_pb = Position {
        position: Vec2 {
            x: clamp_i128(pb.x as i128 + sbx, POS_LIMIT),
            y: clamp_i128(pb.y as i128 + sby, POS_LIMIT),
        },
    };
    data.set_position(m.a.component(), new_pa);
    data.set_position(m.b.component(), new_pb);
}

/// The smaller restitution of the two bodies, which bounds the bounce.
pub open spec fn min_restitution(ba: Body, bb: Body) -> int {
    if ba.restitution <= bb.restitution {
        ba.restitution as int
    } else {
        bb.restitution as int
    }
}

/// Impulse resolution conserves momentum to within one integer quantum and
/// never creates energy beyond the restitution bound.
///
/// For an approaching pair of bodies that are not both immovable, whose
/// unclamped post-impulse velocities stay in the legal range, the model
/// guarantees, per component: the two velocity changes are in inverse
/// proportion to the bodies' inverse-mass weights up to the single floor
/// each takes (for weights that are exact reciprocals of the masses this is
/// `ma*va + mb*vb` unchanged to within one quantum); the pair never
/// approaches faster afterwards; and the remaining relative velocity along
/// the offset is at most `min(ea, eb)` times the approach speed.
#[verifier::rlimit(60)]
pub proof fn lemma_resolve_conserves(va: Vec2, vb: Vec2, ba: Body, bb: Body, n: Vec2)
    requires
        body_wf(ba),
        body_wf(bb),
        veln_spec(va, vb, n) <= 0,
        ba.rmass + bb.rmass >= 1,
        n.norm2() >= 1,
        ({
            let veln = veln_spec(va, vb, n);
            let e = min_restitution(ba, bb);
            let wsum = ba.rmass + bb.rmass as int;
            let d2 = n.norm2();
            &&& -VEL_LIMIT <= va.x - imp_delta(veln, e, ba.rmass as int, n.x as int, wsum, d2)
                <= VEL_LIMIT
            &&& -VEL_LIMIT <= va.y - imp_delta(veln, e, ba.rmass as int, n.y as int, wsum, d2)
                <= VEL_LIMIT
            &&& -VEL_LIMIT <= vb.x + imp_delta(veln, e, bb.rmass as int, n.x as int, wsum, d2)
                <= VEL_LIMIT
            &&& -VEL_LIMIT <= vb.y + imp_delta(veln, e, bb.rmass as int, n.y as int, wsum, d2)
                <= VEL_LIMIT
        }),
    ensures
        ({
            let out = resolve_model(va, vb, ba, bb, n);
            let veln = veln_spec(va, vb, n);
            let veln2 = veln_spec(out.0, out.1, n);
            let e = min_restitution(ba, bb);
            let wsum = ba.rmass + bb.rmass as int;
            &&& -wsum < bb.rmass * (out.0.x - va.x) + ba.rmass * (out.1.x - vb.x) < wsum
            &&& -wsum < bb.rmass * (out.0.y - va.y) + ba.rmass * (out.1.y - vb.y) < wsum
            &&& veln <= veln2
            &&& UNIT * veln2 <= e * (-veln)
            &&& UNIT * veln2 >= e * (-veln) - 2 * UNIT * ((if n.x >= 0 {
                n.x as int
            } else {
                -n.x as int
            }) + (if n.y >= 0 {
                n.y as int
            } else {
                -n.y as int
            }))
        }),
{
    let veln = veln_spec(va, vb, n);
    let e = min_restitution(ba, bb);
    let wa = ba.rmass as int;
    let wb = bb.rmass as int;
    let wsum = wa + wb;
    let d2 = n.norm2();
    let nn = (UNIT + e) * (-veln);
    let dd = UNIT * wsum * d2;
    let anx = if n.x >= 0 {
        n.x as int
    } else {
        -n.x as int
    };
    let any_c = if n.y >= 0 {
        n.y as int
    } else {
        -n.y as int
    };
    assert(0 <= nn && 0 < dd) by (nonlinear_arith)
        requires
            nn == (UNIT + e) * (-veln),
            dd == UNIT * wsum * d2,
            UNIT == 1000,
            wsum >= 1,
            d2 >= 1,
            0 <= e,
            veln <= 0,
    ;
    let pax = nn * wa * anx;
    let pay = nn * wa * any_c;
    let qbx = nn * wb * anx;
    let qby = nn * wb * any_c;
    assert(0 <= pax && 0 <= pay && 0 <= qbx && 0 <= qby) by (nonlinear_arith)
        requires
            pax == nn * wa * anx,
            pay == nn * wa * any_c,
            qbx == nn * wb * anx,
            qby == nn * wb * any_c,
            0 <= nn,
            0 <= wa,
            0 <= wb,
            0 <= anx,
            0 <= any_c,
    ;
    let mag_ax = pax / dd;
    let mag_ay = pay / dd;
    let mag_bx = qbx / dd;
    let mag_by = qby / dd;
    assert(mag_ax == imp_mag(veln, e, wa, n.x as int, wsum, d2));
    assert(mag_ay == imp_mag(veln, e, wa, n.y as int, wsum, d2));
    assert(mag_bx == imp_mag(veln, e, wb, n.x as int, wsum, d2));
    assert(mag_by == imp_mag(veln, e, wb, n.y as int, wsum, d2));
    vstd::arithmetic::div_mod::lemma_fundamental_div_mod(pax, dd);
    vstd::arithmetic::div_mod::lemma_fundamental_div_mod(pay, dd);
    vstd::arithmetic::div_mod::lemma_fundamental_div_mod(qbx, dd);
    vstd::arithmetic::div_mod::lemma_fundamental_div_mod(qby, dd);
    vstd::arithmetic::div_mod::lemma_mod_bound(pax, dd);
    vstd::arithmetic::div_mod::lemma_mod_bound(pay, dd);
    vstd::arithmetic::div_mod::lemma_mod_bound(qbx, dd);
    vstd::arithmetic::div_mod::lemma_mod_bound(qby, dd);
    vstd::arithmetic::div_mod::lemma_div_pos_is_pos(pax, dd);
    vstd::arithmetic::div_mod::lemma_div_pos_is_pos(pay, dd);
    vstd::arithmetic::div_mod::lemma_div_pos_is_pos(qbx, dd);
    vstd::arithmetic::div_mod::lemma_div_pos_is_pos(qby, dd);
    let out = resolve_model(va, vb, ba, bb, n);
    assert(out.0.x == va.x - (if n.x >= 0 {
        mag_ax
    } else {
        -mag_ax
    }) && out.0.y == va.y - (if n.y >= 0 {
        mag_ay
    } else {
        -mag_ay
    }) && out.1.x == vb.x + (if n.x >= 0 {
        mag_bx
    } else {
        -mag_bx
    }) && out.1.y == vb.y + (if n.y >= 0 {
        mag_by
    } else {
        -mag_by
    }));
    // momentum, per component: both magnitudes floor the same real quantity
    // scaled by the opposite weight
    assert(wb * pax == wa * qbx && wb * pay == wa * qby) by (nonlinear_arith)
        requires
            pax == nn * wa * anx,
            pay == nn * wa * any_c,
            qbx == nn * wb * anx,
            qby == nn * wb * any_c,
    ;
    assert(-wsum < wb * mag_ax - wa * mag_bx < wsum) by (nonlinear_arith)
        requires
            pax == dd * mag_ax + pax % dd,
            qbx == dd * mag_bx + qbx % dd,
            0 <= pax % dd < dd,
            0 <= qbx % dd < dd,
            wb * pax == wa * qbx,
            0 < dd,
            0 <= wa,
            0 <= wb,
            wsum == wa + wb,
            wsum >= 1,
    ;
    assert(-wsum < wb * mag_ay - wa * mag_by < wsum) by (nonlinear_arith)
        requires
            pay == dd * mag_ay + pay % dd,
            qby == dd * mag_by + qby % dd,
            0 <= pay % dd < dd,
            0 <= qby % dd < dd,
            wb * pay == wa * qby,
            0 < dd,
            0 <= wa,
            0 <= wb,
            wsum == wa + wb,
            wsum >= 1,
    ;
    assert(-wsum < bb.rmass * (out.0.x - va.x) + ba.rmass * (out.1.x - vb.x) < wsum)
        by (nonlinear_arith)
        requires
            out.0.x - va.x == -(if n.x >= 0 {
                mag_ax
            } else {
                -mag_ax
            }),
            out.1.x - vb.x == (if n.x >= 0 {
                mag_bx
            } else {
                -mag_bx
            }),
            wa == ba.rmass as int,
            wb == bb.rmass as int,
            -wsum < wb * mag_ax - wa * mag_bx < wsum,
    ;
    assert(-wsum < bb.rmass * (out.0.y - va.y) + ba.rmass * (out.1.y - vb.y) < wsum)
        by (nonlinear_arith)
        requires
            out.0.y - va.y == -(if n.y >= 0 {
                mag_ay
            } else {
                -mag_ay
            }),
            out.1.y - vb.y == (if n.y >= 0 {
                mag_by
            } else {
                -mag_by
            }),
            wa == ba.rmass as int,
            wb == bb.rmass as int,
            -wsum < wb * mag_ay - wa * mag_by < wsum,
    ;
    // the relative velocity along the offset only ever moves toward
    // separation, by at most the restitution-bounded ideal impulse
    let veln2 = veln_spec(out.0, out.1, n);
    assert(veln2 == veln + (mag_ax + mag_bx) * anx + (mag_ay + mag_by) * any_c)
        by (nonlinear_arith)
        requires
            veln == (vb.x - va.x) * n.x + (vb.y - va.y) * n.y,
            veln2 == (out.1.x - out.0.x) * n.x + (out.1.y - out.0.y) * n.y,
            out.1.x - out.0.x == (vb.x - va.x) + (if n.x >= 0 {
                mag_ax + mag_bx
            } else {
                -(mag_ax + mag_bx)
            }),
            out.1.y - out.0.y == (vb.y - va.y) + (if n.y >= 0 {
                mag_ay + mag_by
            } else {
                -(mag_ay + mag_by)
            }),
            anx == (if n.x >= 0 {
                n.x as int
            } else {
                -n.x as int
            }),
            any_c == (if n.y >= 0 {
                n.y as int
            } else {
                -n.y as int
            }),
    ;
    assert(0 <= (mag_ax + mag_bx) * anx && 0 <= (mag_ay + mag_by) * any_c) by (nonlinear_arith)
        requires
            0 <= mag_ax,
            0 <= mag_bx,
            0 <= mag_ay,
            0 <= mag_by,
            0 <= anx,
            0 <= any_c,
    ;
    assert(veln <= veln2);
    // energy: the four floored magnitudes together never exceed the ideal
    assert(dd * (mag_ax + mag_bx) <= pax + qbx) by (nonlinear_arith)
        requires
            pax == dd * mag_ax + pax % dd,
            qbx == dd * mag_bx + qbx % dd,
            0 <= pax % dd,
            0 <= qbx % dd,
    ;
    assert(dd * (mag_ay + mag_by) <= pay + qby) by (nonlinear_arith)
        requires
            pay == dd * mag_ay + pay % dd,
            qby == dd * mag_by + qby % dd,
            0 <= pay % dd,
            0 <= qby % dd,
    ;
    assert((dd * (mag_ax + mag_bx)) * anx <= (pax + qbx) * anx) by (nonlinear_arith)
        requires
            dd * (mag_ax + mag_bx) <= pax + qbx,
            0 <= anx,
    ;
    assert((dd * (mag_ay + mag_by)) * any_c <= (pay + qby) * any_c) by (nonlinear_arith)
        requires
            dd * (mag_ay + mag_by) <= pay + qby,
            0 <= any_c,
    ;
    assert((pax + qbx) * anx == nn * wsum * (anx * anx) && (pay + qby) * any_c == nn * wsum * (
    any_c * any_c)) by (nonlinear_arith)
        requires
            pax == nn * wa * anx,
            pay == nn * wa * any_c,
            qbx == nn * wb * anx,
            qby == nn * wb * any_c,
            wsum == wa + wb,
    ;
    assert(nn * wsum * (anx * anx) + nn * wsum * (any_c * any_c) == nn * wsum * d2)
        by (nonlinear_arith)
        requires
            d2 == n.x * n.x + n.y * n.y,
            anx == (if n.x >= 0 {
                n.x as int
            } else {
                -n.x as int
            }),
            any_c == (if n.y >= 0 {
                n.y as int
            } else {
                -n.y as int
            }),
    ;
    assert(((mag_ax + mag_bx) * anx + (mag_ay + mag_by) * any_c) * dd == (dd * (mag_ax + mag_bx))
        * anx + (dd * (mag_ay + mag_by)) * any_c) by (nonlinear_arith);
    assert(((mag_ax + mag_bx) * anx + (mag_ay + mag_by) * any_c) * dd <= nn * wsum * d2);
    // and each floor loses less than one divisor, so the total shortfall is
    // bounded by the offset's component sum
    assert(dd * (mag_ax + mag_bx) > pax + qbx - 2 * dd) by (nonlinear_arith)
        requires
            pax == dd * mag_ax + pax % dd,
            qbx == dd * mag_bx + qbx % dd,
            0 <= pax % dd < dd,
            0 <= qbx % dd < dd,
    ;
    assert(dd * (mag_ay + mag_by) > pay + qby - 2 * dd) by (nonlinear_arith)
        requires
            pay == dd * mag_ay + pay % dd,
            qby == dd * mag_by + qby % dd,
            0 <= pay % dd < dd,
            0 <= qby % dd < dd,
    ;
    assert((dd * (mag_ax + mag_bx)) * anx >= (pax + qbx) * anx - (2 * dd) * anx)
        by (nonlinear_arith)
        requires
            dd * (mag_ax + mag_bx) > pax + qbx - 2 * dd,
            0 <= anx,
    ;
    assert((dd * (mag_ay + mag_by)) * any_c >= (pay + qby) * any_c - (2 * dd) * any_c)
        by (nonlinear_arith)
        requires
            dd * (mag_ay + mag_by) > pay + qby - 2 * dd,
            0 <= any_c,
    ;
    assert(((mag_ax + mag_bx) * anx + (mag_ay + mag_by) * any_c) * dd >= nn * wsum * d2 - (2 * dd)
        * anx - (2 * dd) * any_c);
    assert(UNIT * veln2 <= e * (-veln)) by (nonlinear_arith)

        requires
            veln2 == veln + (mag_ax + mag_bx) * anx + (mag_ay + mag_by) * any_c,
            ((mag_ax + mag_bx) * anx + (mag_ay + mag_by) * any_c) * dd <= nn * wsum * d2,
            dd == UNIT * wsum * d2,
            nn == (UNIT + e) * (-veln),
            UNIT == 1000,
            wsum >= 1,
            d2 >= 1,
            veln <= 0,
            0 <= (mag_ax + mag_bx) * anx + (mag_ay + mag_by) * any_c,
    ;
    assert(UNIT * veln2 >= e * (-veln) - 2 * UNIT * (anx + any_c)) by (nonlinear_arith)
        requires
            veln2 == veln + (mag_ax + mag_bx) * anx + (mag_ay + mag_by) * any_c,
            ((mag_ax + mag_bx) * anx + (mag_ay + mag_by) * any_c) * dd >= nn * wsum * d2 - (2
                * dd) * anx - (2 * dd) * any_c,
            dd == UNIT * wsum * d2,
            nn == (UNIT + e) * (-veln),
            UNIT == 1000,
            wsum >= 1,
            d2 >= 1,
            veln <= 0,
    ;
}

/// Projection of `c` onto the ray's line, scaled by the ray's squared
/// length: the distance of the hit along the ray is `ray_dot / |p2 - p1|`.
pub open spec fn ray_dot(ray: Ray, c: Vec2) -> int {
    (c.x - ray.p1.x) * (ray.p2.x - ray.p1.x) + (c.y - ray.p1.y) * (ray.p2.y - ray.p1.y)
}

/// Squared length of the ray segment.
pub open spec fn ray_len2(ray: Ray) -> int {
    (ray.p2.x - ray.p1.x) * (ray.p2.x - ray.p1.x) + (ray.p2.y - ray.p1.y) * (ray.p2.y - ray.p1.y)
}

/// Squared distance from `c` to the ray's origin.
pub open spec fn ray_a2(ray: Ray, c: Vec2) -> int {
    (c.x - ray.p1.x) * (c.x - ray.p1.x) + (c.y - ray.p1.y) * (c.y - ray.p1.y)
}

/// Whether the ray segment meets a circle of the given radius at `c`: the
/// projection parameter falls in `[0, 1)` (never behind the origin, never
/// past the end) and the perpendicular distance is at most the radius —
/// both conditions multiplied through by the squared ray length, so they
/// are exact over the integers.
pub open spec fn ray_hits(ray: Ray, c: Vec2, radius: int) -> bool {
    &&& 0 <= ray_dot(ray, c) < ray_len2(ray)
    &&& ray_a2(ray, c) * ray_len2(ray) - ray_dot(ray, c) * ray_dot(ray, c) <= radius * radius
        * ray_len2(ray)
}

/// The nearest hit of the ray among the listed entities, skipping `this`:
/// the entity whose projection along the ray is smallest, earliest in the
/// list on ties, paired with its (unscaled) projection.
pub open spec fn best_hit(
    data: GameData,
    ray: Ray,
    this: Entity,
    list: Seq<Entity>,
) -> Option<(Entity, int)>
    decreases list.len(),
{
    if list.len() == 0 {
        None
    } else {
        let prev = best_hit(data, ray, this, list.drop_last());
        let e = list.last();
        if e == this || !ray_hits(
            ray,
            data.positions@[e.idx as int]->0.position,
            data.bodies@[e.idx as int]->0.radius as int,
        ) {
            prev
        } else {
            let d = ray_dot(ray, data.positions@[e.idx as int]->0.position);
            match prev {
                None => Some((e, d)),
                Some(p) => if d < p.1 {
                    Some((e, d))
                } else {
                    prev
                },
            }
        }
    }
}

/// The nearest hit never lies behind the ray's origin: a target with a
/// negative projection parameter does not intersect.
pub proof fn lemma_ray_never_behind(ray: Ray, c: Vec2, radius: int)
    requires
        ray_dot(ray, c) < 0,
    ensures
        !ray_hits(ray, c, radius),
{
}

/// A ray directed exactly at a circle's centre, with the centre on the
/// segment (in front of the origin, within its length), always intersects
/// the circle, whatever its radius: by the Lagrange identity the
/// perpendicular distance is zero for collinear points.
pub proof fn lemma_ray_at_center_hits(ray: Ray, c: Vec2, radius: int)
    requires
        ray_len2(ray) >= 1,
        radius >= 0,
        (c.x - ray.p1.x) * (ray.p2.y - ray.p1.y) == (c.y - ray.p1.y) * (ray.p2.x - ray.p1.x),
        0 <= ray_dot(ray, c) < ray_len2(ray),
    ensures
        ray_hits(ray, c, radius),
{
    let ax = c.x - ray.p1.x as int;
    let ay = c.y - ray.p1.y as int;
    let bx = ray.p2.x - ray.p1.x as int;
    let by = ray.p2.y - ray.p1.y as int;
    let pxx = ax * bx;
    let pyy = ay * by;
    let pxy = ax * by;
    let pyx = ay * bx;
    assert(pxy == pyx);
    assert(pxx * pyy == pxy * pyx) by (nonlinear_arith)
        requires
            pxx == ax * bx,
            pyy == ay * by,
            pxy == ax * by,
            pyx == ay * bx,
    ;
    assert((ax * ax) * (bx * bx) == pxx * pxx && (ax * ax) * (by * by) == pxy * pxy && (ay * ay)
        * (bx * bx) == pyx * pyx && (ay * ay) * (by * by) == pyy * pyy) by (nonlinear_arith)
        requires
            pxx == ax * bx,
            pyy == ay * by,
            pxy == ax * by,
            pyx == ay * bx,
    ;
    assert(ray_a2(ray, c) * ray_len2(ray) == (ax * ax) * (bx * bx) + (ax * ax) * (by * by) + (ay
        * ay) * (bx * bx) + (ay * ay) * (by * by)) by (nonlinear_arith)
        requires
            ray_a2(ray, c) == ax * ax + ay * ay,
            ray_len2(ray) == bx * bx + by * by,
    ;
    assert(ray_dot(ray, c) * ray_dot(ray, c) == pxx * pxx + 2 * (pxx * pyy) + pyy * pyy)
        by (nonlinear_arith)
        requires
            ray_dot(ray, c) == pxx + pyy,
    ;
    assert(pxy * pxy + pyx * pyx - 2 * (pxy * pyx) == 0) by (nonlinear_arith)
        requires
            pxy == pyx,
    ;
    assert(ray_a2(ray, c) * ray_len2(ray) - ray_dot(ray, c) * ray_dot(ray, c) == 0);
    assert(0 <= radius * radius * ray_len2(ray)) by (nonlinear_arith)
        requires
            radius >= 0,
            ray_len2(ray) >= 1,
    ;
}

/// Raycast correctness: when some listed entity (other than the caster)
/// intersects the ray and no listed entity intersects it closer to the
/// origin, the nearest-hit search reports a hit exactly that far along the
/// ray. Together with `lemma_ray_at_center_hits` this covers a ray aimed
/// straight at a target's centre within view, and with
/// `lemma_ray_never_behind`, a target behind the origin is never the hit.
pub proof fn lemma_raycast_reports_target(
    data: GameData,
    ray: Ray,
    this: Entity,
    list: Seq<Entity>,
    ti: int,
)
    requires
        0 <= ti < list.len(),
        list[ti] != this,
        ray_hits(
            ray,
            data.positions@[list[ti].idx as int]->0.position,
            data.bodies@[list[ti].idx as int]->0.radius as int,
        ),
        forall|j: int|
            0 <= j < list.len() && list[j] != this && ray_hits(
                ray,
                data.positions@[(#[trigger] list[j]).idx as int]->0.position,
                data.bodies@[list[j].idx as int]->0.radius as int,
            ) ==> ray_dot(ray, data.positions@[list[ti].idx as int]->0.position) <= ray_dot(
                ray,
                data.positions@[list[j].idx as int]->0.position,
            ),
    ensures
        best_hit(data, ray, this, list) is Some,
        ({
            let win = best_hit(data, ray, this, list)->0;
            win.1 == ray_dot(ray, data.positions@[list[ti].idx as int]->0.position)
        }),
    decreases list.len(),
{
    let last = list.last();
    let target_d = ray_dot(ray, data.positions@[list[ti].idx as int]->0.position);
    if ti == list.len() - 1 {
        // the target is the last element: either it wins, or an earlier
        // element already held a hit, which by assumption is no closer
        if best_hit(data, ray, this, list.drop_last()) is Some {
            lemma_best_hit_in_range(data, ray, this, list.drop_last());
        }
    } else {
        lemma_raycast_reports_target(data, ray, this, list.drop_last(), ti);
        assert(list.drop_last()[ti] == list[ti]);
    }
}

/// Whatever `best_hit` returns came from the list and carries its own
/// projection along the ray.
pub proof fn lemma_best_hit_in_range(data: GameData, ray: Ray, this: Entity, list: Seq<Entity>)
    requires
        best_hit(data, ray, this, list) is Some,
    ensures
        exists|j: int|
            0 <= j < list.len() && #[trigger] list[j] != this && ray_hits(
                ray,
                data.positions@[list[j].idx as int]->0.position,
                data.bodies@[list[j].idx as int]->0.radius as int,
            ) && best_hit(data, ray, this, list)->0 == (
                list[j],
                ray_dot(ray, data.positions@[list[j].idx as int]->0.position),
            ),
    decreases list.len(),
{
    let last = list.last();
    let prev = best_hit(data, ray, this, list.drop_last());
    if best_hit(data, ray, this, list) == prev {
        lemma_best_hit_in_range(data, ray, this, list.drop_last());
        let j = choose|j: int|
            0 <= j < list.drop_last().len() && #[trigger] list.drop_last()[j] != this && ray_hits(
                ray,
                data.positions@[list.drop_last()[j].idx as int]->0.position,
                data.bodies@[list.drop_last()[j].idx as int]->0.radius as int,
            ) && prev->0 == (
                list.drop_last()[j],
                ray_dot(ray, data.positions@[list.drop_last()[j].idx as int]->0.position),
            );
        assert(list[j] == list.drop_last()[j]);
    } else {
        assert(best_hit(data, ray, this, list)->0 == (
            last,
            ray_dot(ray, data.positions@[last.idx as int]->0.position),
        ));
        assert(list[list.len() - 1] == last);
    }
}

/// Finds the entity nearest along the ray among those the ray hits, and the
/// hit's projection parameter scaled by `UNIT` (`0` at the origin, `UNIT` at
/// the ray's far end). Entities equal to `this` are ignored.
pub fn raycast(data: &GameData, ray: &Ray, this: Entity, entities: &Vec<Entity>) -> (r: Option<
    (Entity, i64),
>)
    requires
        data.wf(),
        data.sound(),
        -POS_LIMIT - VIEW_DISTANCE <= ray.p1.x <= POS_LIMIT + VIEW_DISTANCE,
        -POS_LIMIT - VIEW_DISTANCE <= ray.p1.y <= POS_LIMIT + VIEW_DISTANCE,
        -POS_LIMIT - VIEW_DISTANCE <= ray.p2.x <= POS_LIMIT + VIEW_DISTANCE,
        -POS_LIMIT - VIEW_DISTANCE <= ray.p2.y <= POS_LIMIT + VIEW_DISTANCE,
        ray_len2(*ray) >= 1,
        forall|k: int|
            0 <= k < entities@.len() ==> (#[trigger] entities@[k]).idx < data.entity
                && data.positions@[entities@[k].idx as int] is Some
                && data.bodies@[entities@[k].idx as int] is Some,
    ensures
        r is Some <==> best_hit(*data, *ray, this, entities@) is Some,
        r is Some ==> ({
            let win = best_hit(*data, *ray, this, entities@)->0;
            let out = r->0;
            &&& out.0 == win.0
            &&& out.1 == win.1 * UNIT / ray_len2(*ray)
            &&& 0 <= out.1 < UNIT
        }),
{
    let bx: i64 = ray.p2.x - ray.p1.x;
    let by: i64 = ray.p2.y - ray.p1.y;
    proof {
        lemma_sq_bound_4p(bx as int, bx as int);
        lemma_sq_bound_4p(by as int, by as int);
    }
    let len2: i128 = bx as i128 * bx as i128 + by as i128 * by as i128;
    let mut found: bool = false;
    let mut win: Entity = this;
    let mut win_dot: i128 = 0;
    let mut k: usize = 0;
    while k < entities.len()
        invariant
            data.wf(),
            data.sound(),
            k <= entities@.len(),
            forall|j: int|
                0 <= j < entities@.len() ==> (#[trigger] entities@[j]).idx < data.entity
                    && data.positions@[entities@[j].idx as int] is Some
                    && data.bodies@[entities@[j].idx as int] is Some,
            -POS_LIMIT - VIEW_DISTANCE <= ray.p1.x <= POS_LIMIT + VIEW_DISTANCE,
            -POS_LIMIT - VIEW_DISTANCE <= ray.p1.y <= POS_LIMIT + VIEW_DISTANCE,
            bx == ray.p2.x - ray.p1.x,
            by == ray.p2.y - ray.p1.y,
            -2100000000 <= bx <= 2100000000,
            -2100000000 <= by <= 2100000000,
            len2 == ray_len2(*ray),
            len2 <= 8820000000000000000,
            1 <= len2,
            !found ==> best_hit(*data, *ray, this, entities@.take(k as int)) is None,
            found ==> best_hit(*data, *ray, this, entities@.take(k as int)) == Some(
                (win, win_dot as int),
            ),
            found ==> 0 <= win_dot < len2,
        decreases entities@.len() - k,
    {
        let e = entities[k];
        proof {
            assert(entities@.take(k as int + 1).drop_last() =~= entities@.take(k as int));
            assert(entities@.take(k as int + 1).last() == entities@[k as int]);
        }
        if e.idx == this.idx {
            k = k + 1;
            continue ;
        }
        let pos = data.get_position(e.component()).position;
        let radius: i64 = data.get_body(e.component()).radius;
        let ax: i64 = pos.x - ray.p1.x;
        let ay: i64 = pos.y - ray.p1.y;
        proof {
            lemma_sq_bound_4p(ax as int, bx as int);
            lemma_sq_bound_4p(ay as int, by as int);
            lemma_sq_bound_4p(ax as int, ax as int);
            lemma_sq_bound_4p(ay as int, ay as int);
        }
        let dot: i128 = ax as i128 * bx as i128 + ay as i128 * by as i128;
        let a2: i128 = ax as i128 * ax as i128 + ay as i128 * ay as i128;
        if dot < 0 || dot >= len2 {
            k = k + 1;
            continue ;
        }
        proof {
            lemma_big_products(a2 as int, len2 as int, dot as int, radius as int);
        }
        if a2 * len2 - dot * dot > radius as i128 * radius as i128 * len2 {
            k = k + 1;
            continue ;
        }
        if !found || dot < win_dot {
            found = true;
            win = e;
            win_dot = dot;
        }
        k = k + 1;
    }
    proof {
        assert(entities@.take(entities@.len() as int) =~= entities@);
    }
    if found {
        proof {
            lemma_scaled_param_range(win_dot as int, len2 as int);
        }
        let t: i128 = div_nn(win_dot * UNIT as i128, len2);
        Some((win, t as i64))
    } else {
        None
    }
}

/// Product of two in-world coordinate differences fits far inside 128 bits,
/// and a square is non-negative.
proof fn lemma_sq_bound_4p(a: int, b: int)
    requires
        -2100000000 <= a <= 2100000000,
        -2100000000 <= b <= 2100000000,
    ensures
        -4410000000000000000 <= a * b <= 4410000000000000000,
        a == b ==> 0 <= a * b,
{
    assert(-4410000000000000000 <= a * b <= 4410000000000000000 && (a == b ==> 0 <= a * b))
        by (nonlinear_arith)
        requires
            -2100000000 <= a <= 2100000000,
            -2100000000 <= b <= 2100000000,
    ;
}

/// The intersection test's products stay inside 128 bits.
proof fn lemma_big_products(a2: int, len2: int, dot: int, radius: int)
    requires
        0 <= a2 <= 8820000000000000000,
        1 <= len2 <= 8820000000000000000,
        0 <= dot <= 8820000000000000000,
        0 < radius <= RADIUS_LIMIT,
    ensures
        0 <= a2 * len2 <= 80000000000000000000000000000000000000,
        0 <= dot * dot <= 80000000000000000000000000000000000000,
        0 < radius * radius <= 10000000000,
        0 < radius * radius * len2 <= 88200000000000000000000000000,
{
    assert(0 <= a2 * len2 <= 80000000000000000000000000000000000000 && 0 <= dot * dot
        <= 80000000000000000000000000000000000000) by (nonlinear_arith)
        requires
            0 <= a2 <= 8820000000000000000,
            1 <= len2 <= 8820000000000000000,
            0 <= dot <= 8820000000000000000,
    ;
    assert(0 < radius * radius <= 10000000000) by (nonlinear_arith)
        requires
            0 < radius <= 100000,
            RADIUS_LIMIT == 100000,
    ;
    assert(0 < radius * radius * len2 <= 88200000000000000000000000000) by (nonlinear_arith)
        requires
            0 < radius * radius <= 10000000000,
            1 <= len2 <= 8820000000000000000,
    ;
}

/// The scaled projection parameter of a hit lies in `[0, UNIT)`.
proof fn lemma_scaled_param_range(dot: int, len2: int)
    requires
        0 <= dot < len2,
        1 <= len2 <= 8820000000000000000,
    ensures
        0 <= dot * UNIT <= 8820000000000000000000,
        0 <= (dot * UNIT) / len2 < UNIT,
{
    assert(0 <= dot * UNIT <= 8820000000000000000000 && dot * UNIT < len2 * UNIT)
        by (nonlinear_arith)
        requires
            0 <= dot < len2,
            len2 <= 8820000000000000000,
            UNIT == 1000,
    ;
    vstd::arithmetic::div_mod::lemma_div_pos_is_pos(dot * UNIT, len2);
    vstd::arithmetic::div_mod::lemma_multiply_divide_lt(dot * UNIT, len2, UNIT as int);
}

/// A floored impulse scalar times an inverse mass times one offset component
/// stays well inside 128 bits.
proof fn lemma_scaled_delta_bound(q: int, w: int, nc: int)
    requires
        0 <= q <= 1600000000000000000,
        0 <= w <= 1000000000,
        -200000 <= nc <= 200000,
    ensures
        -320000000000000000000000000000000 <= q * w * nc <= 320000000000000000000000000000000,
{
    assert(0 <= q * w <= 1600000000000000000000000000) by (nonlinear_arith)
        requires
            0 <= q <= 1600000000000000000,
            0 <= w <= 1000000000,
    ;
    assert(-320000000000000000000000000000000 <= (q * w) * nc
        <= 320000000000000000000000000000000) by (nonlinear_arith)
        requires
            0 <= q * w <= 1600000000000000000000000000,
            -200000 <= nc <= 200000,
    ;
}

/// Whether row `i` currently counts as a living creature.
pub open spec fn has_creature_at(d: GameData, i: int) -> bool {
    !d.delete@[i] && d.creatures@[i] is Some
}

/// Whether row `i` currently counts as food.
pub open spec fn has_food_at(d: GameData, i: int) -> bool {
    !d.delete@[i] && d.foods@[i] is Some
}

/// Whether row `i` currently has a visible body.
pub open spec fn has_body_at(d: GameData, i: int) -> bool {
    !d.delete@[i] && d.bodies@[i] is Some
}

/// Whether row `i` currently has a visible position.
pub open spec fn has_position_at(d: GameData, i: int) -> bool {
    !d.delete@[i] && d.positions@[i] is Some
}

/// Whether row `i` currently has a visible velocity.
pub open spec fn has_velocity_at(d: GameData, i: int) -> bool {
    !d.delete@[i] && d.velocities@[i] is Some
}

/// The velocity stored at row `i`.
pub open spec fn vel_at(d: GameData, i: int) -> Vec2 {
    d.velocities@[i]->0.velocity
}

/// The position stored at row `i`.
pub open spec fn pos_at(d: GameData, i: int) -> Vec2 {
    d.positions@[i]->0.position
}

/// The two stores hold exactly the same state.
pub open spec fn same_store(a: GameData, b: GameData) -> bool {
    &&& b.entity == a.entity
    &&& b.delete@ == a.delete@
    &&& lazy_eq(a.lazy, b.lazy)
    &&& eq_arrays(a, b)
}

/// The manifold `gen_manifold` computes, as a function of the store.
pub open spec fn manifold_model(d: GameData, a: Entity, b: Entity) -> Option<Manifold> {
    let pa = d.positions@[a.idx as int]->0.position;
    let pb = d.positions@[b.idx as int]->0.position;
    let ra = d.bodies@[a.idx as int]->0.radius;
    let rb = d.bodies@[b.idx as int]->0.radius;
    let diff = Vec2 { x: (pb.x - pa.x) as i64, y: (pb.y - pa.y) as i64 };
    let d2 = diff.norm2();
    if d2 > (ra + rb) * (ra + rb) {
        None
    } else if d2 > 0 {
        Some(
            Manifold {
                a,
                b,
                n: diff,
                dist: isqrt_spec(d2 as nat) as i64,
                penetration: (ra + rb - isqrt_spec(d2 as nat)) as i64,
            },
        )
    } else {
        Some(Manifold { a, b, n: Vec2 { x: 1, y: 0 }, dist: 1, penetration: ra })
    }
}

/// What `resolve` does to the store: both velocities move to the resolution
/// model's results; nothing else changes.
pub open spec fn resolve_rel(pre: GameData, post: GameData, m: Manifold) -> bool {
    let ai = m.a.idx as int;
    let bi = m.b.idx as int;
    let out = resolve_model(
        vel_at(pre, ai),
        vel_at(pre, bi),
        pre.bodies@[ai]->0,
        pre.bodies@[bi]->0,
        m.n,
    );
    &&& post.entity == pre.entity
    &&& post.delete@ == pre.delete@
    &&& lazy_eq(pre.lazy, post.lazy)
    &&& eq_arrays_except_velocities(pre, post)
    &&& post.velocities@ == pre.velocities@.update(ai, Some(Velocity { velocity: out.0 })).update(
        bi,
        Some(Velocity { velocity: out.1 }),
    )
}

/// What `correct` does to the store: both positions move to the correction
/// model's results; nothing else changes.
pub open spec fn correct_rel(pre: GameData, post: GameData, m: Manifold) -> bool {
    let ai = m.a.idx as int;
    let bi = m.b.idx as int;
    let out = correct_model(
        pos_at(pre, ai),
        pos_at(pre, bi),
        pre.bodies@[ai]->0,
        pre.bodies@[bi]->0,
        m,
    );
    &&& post.entity == pre.entity
    &&& post.delete@ == pre.delete@
    &&& lazy_eq(pre.lazy, post.lazy)
    &&& eq_arrays_except_positions(pre, post)
    &&& post.positions@ == pre.positions@.update(ai, Some(Position { position: out.0 })).update(
        bi,
        Some(Position { position: out.1 }),
    )
}

/// Hunger after one meal, floored so it can never underflow.
pub open spec fn fed_spec(h: int) -> int {
    if h - FOOD >= -POS_LIMIT {
        h - FOOD
    } else {
        h
    }
}

/// Hunger after one meal.
fn fed(h: i64) -> (r: i64)
    ensures
        r == fed_spec(h as int),
{
    if h >= -POS_LIMIT + FOOD {
        h - FOOD
    } else {
        h
    }
}

/// What the gameplay side effect of one pair does to the store: the frame
/// conditions and the full case table (predation, eating, reproduction,
/// or no effect).
pub open spec fn interact_rel(pre: GameData, post: GameData, a: Entity, b: Entity) -> bool {
    &&& post.entity == pre.entity
    &&& post.foods@ == pre.foods@
    &&& post.positions@ == pre.positions@
    &&& post.velocities@ == pre.velocities@
    &&& post.directions@ == pre.directions@
    &&& post.bodies@ == pre.bodies@
    &&& post.draw@ == pre.draw@
    &&& post.nns@ == pre.nns@
    &&& post.inputs@ == pre.inputs@
    &&& post.outputs@ == pre.outputs@
    &&& post.desired@ == pre.desired@
    &&& post.lazy.remove@ == pre.lazy.remove@
    &&& post.lazy.entity >= pre.lazy.entity
    &&& (pre.entity + pre.lazy.entity <= usize::MAX ==> post.entity + post.lazy.entity
        <= usize::MAX)
    &&& (forall|i: int| 0 <= i < pre.entity && pre.delete@[i] ==> post.delete@[i])
    &&& post.delete@.len() == pre.delete@.len()
    &&& ({
        let ai = a.idx as int;
        let bi = b.idx as int;
        let ca = pre.creatures@[ai]->0;
        let cb = pre.creatures@[bi]->0;
        if has_creature_at(pre, ai) && has_creature_at(pre, bi) {
            if ca.kind == Kind::Vegan && cb.kind == Kind::Carnivorous {
                &&& post.creatures@ == pre.creatures@.update(
                    bi,
                    Some(Creature { hunger: fed_spec(cb.hunger as int) as i64, ..cb }),
                )
                &&& post.delete@ == pre.delete@.update(ai, true)
                &&& post.lazy.entity == pre.lazy.entity
            } else if ca.kind == Kind::Carnivorous && cb.kind == Kind::Vegan {
                &&& post.creatures@ == pre.creatures@.update(
                    ai,
                    Some(Creature { hunger: fed_spec(ca.hunger as int) as i64, ..ca }),
                )
                &&& post.delete@ == pre.delete@.update(bi, true)
                &&& post.lazy.entity == pre.lazy.entity
            } else if ca.timeout <= 0 && cb.timeout <= 0 && pre.positions@[ai] is Some
                && pre.positions@[bi] is Some && pre.bodies@[ai] is Some && pre.bodies@[bi] is Some
                && pre.draw@[ai] is Some && pre.draw@[bi] is Some && pre.entity + pre.lazy.entity
                + 3 <= usize::MAX {
                &&& post.creatures@ == pre.creatures@.update(
                    ai,
                    Some(Creature { timeout: kind_timeout(ca.kind), ..ca }),
                ).update(bi, Some(Creature { timeout: kind_timeout(ca.kind), ..cb }))
                &&& post.delete@ == pre.delete@
                &&& pre.lazy.entity + 1 <= post.lazy.entity <= pre.lazy.entity + kind_children(
                    ca.kind,
                )
            } else {
                &&& post.creatures@ == pre.creatures@
                &&& post.delete@ == pre.delete@
                &&& post.lazy.entity == pre.lazy.entity
            }
        } else if has_creature_at(pre, ai) && has_food_at(pre, bi) {
            &&& post.creatures@ == pre.creatures@.update(
                ai,
                Some(Creature { hunger: fed_spec(ca.hunger as int) as i64, ..ca }),
            )
            &&& post.delete@ == pre.delete@.update(bi, true)
            &&& post.lazy.entity == pre.lazy.entity
        } else if has_food_at(pre, ai) && has_creature_at(pre, bi) {
            &&& post.creatures@ == pre.creatures@.update(
                bi,
                Some(Creature { hunger: fed_spec(cb.hunger as int) as i64, ..cb }),
            )
            &&& post.delete@ == pre.delete@.update(ai, true)
            &&& post.lazy.entity == pre.lazy.entity
        } else {
            &&& post.creatures@ == pre.creatures@
            &&& post.delete@ == pre.delete@
            &&& post.lazy.entity == pre.lazy.entity
        }
    })
}

/// The gameplay side effect of one overlapping pair, dispatched only between
/// participants that still exist:
/// - two creatures of opposite kind: the carnivorous one's hunger falls by
///   the nutrition constant and the vegan one is marked for deletion;
/// - two creatures of the same kind, both with their mating cooldown
///   elapsed: they reproduce (offspring queued, both cooldowns reset);
/// - a creature and a food: the creature's hunger falls and the food is
///   marked for deletion;
/// - anything else (food with food, or a missing participant): no effect.
pub fn interact(data: &mut GameData, a: Entity, b: Entity)
    requires
        old(data).wf(),
        old(data).sound(),
        a.idx < old(data).entity,
        b.idx < old(data).entity,
        a.idx != b.idx,
    ensures
        final(data).wf(),
        final(data).sound(),
        interact_rel(*old(data), *final(data), a, b),
{
    let a_creature = data.has(a.component::<Creature>());
    let b_creature = data.has(b.component::<Creature>());
    if a_creature && b_creature {
        let ca = *data.get_creature(a.component());
        let cb = *data.get_creature(b.component());
        match (ca.kind, cb.kind) {
            (Kind::Vegan, Kind::Carnivorous) => {
                let mut cb2 = cb;
                cb2.hunger = fed(cb.hunger);
                data.set_creature(b.component(), cb2);
                data.delete(a);
            },
            (Kind::Carnivorous, Kind::Vegan) => {
                let mut ca2 = ca;
                ca2.hunger = fed(ca.hunger);
                data.set_creature(a.component(), ca2);
                data.delete(b);
            },
            _ => {
                if ca.timeout <= 0 && cb.timeout <= 0 {
                    // reproduction also needs both parents' traits, and room
                    // in the buffer for the offspring rows
                    let ok = data.has(a.component::<Position>()) && data.has(
                        b.component::<Position>(),
                    ) && data.has(a.component::<Body>()) && data.has(b.component::<Body>())
                        && data.has(a.component::<crate::draw::Draw>()) && data.has(
                        b.component::<crate::draw::Draw>(),
                    ) && data.entity <= usize::MAX - 3 && data.lazy.entity <= usize::MAX - 3
                        - data.entity;
                    if ok {
                        mate(data, a, b);
                    }
                }
            },
        }
    } else if a_creature && data.has(b.component::<Food>()) {
        let ca = *data.get_creature(a.component());
        let mut ca2 = ca;
        ca2.hunger = fed(ca.hunger);
        data.set_creature(a.component(), ca2);
        data.delete(b);
    } else if data.has(a.component::<Food>()) && b_creature {
        let cb = *data.get_creature(b.component());
        let mut cb2 = cb;
        cb2.hunger = fed(cb.hunger);
        data.set_creature(b.component(), cb2);
        data.delete(a);
    }
}

/// One coordinate after toroidal wraparound: past either edge of
/// `[-RADIUS, dim + RADIUS]` it comes back by `dim + RADIUS`, the margin
/// hiding pop-in at the seam.
pub open spec fn wrap_spec(x: int, dim: int) -> int {
    if x < -RADIUS {
        x + dim + RADIUS
    } else if x > dim + RADIUS {
        x - dim - RADIUS
    } else {
        x
    }
}

/// Applies the wraparound to one in-range coordinate.
pub fn wrap_coord(x: i64, dim: i64) -> (r: i64)
    requires
        -POS_LIMIT <= x <= POS_LIMIT,
        0 < dim <= 2000000,
    ensures
        r == wrap_spec(x as int, dim as int),
        -POS_LIMIT <= r <= POS_LIMIT,
{
    if x < -RADIUS {
        x + dim + RADIUS
    } else if x > dim + RADIUS {
        x - dim - RADIUS
    } else {
        x
    }
}

/// What one ordered pair of the collision pass does to the store. A pair
/// with identical indices, or with either participant lacking a visible
/// body, position or velocity (a pair earlier in the same pass may already
/// have deleted one), has no effect; so has a non-overlapping pair. An
/// overlapping pair takes impulse resolution and positional correction,
/// and — only when it was approaching — its gameplay side effect.
pub open spec fn pair_rel(pre: GameData, post: GameData, a: Entity, b: Entity) -> bool {
    let ai = a.idx as int;
    let bi = b.idx as int;
    if ai == bi || !has_body_at(pre, ai) || !has_body_at(pre, bi) || !has_position_at(pre, ai)
        || !has_position_at(pre, bi) || !has_velocity_at(pre, ai) || !has_velocity_at(pre, bi) {
        same_store(pre, post)
    } else {
        match manifold_model(pre, a, b) {
            None => same_store(pre, post),
            Some(m) => exists|mid1: GameData, mid2: GameData|
                {
                    &&& #[trigger] resolve_rel(pre, mid1, m)
                    &&& #[trigger] correct_rel(mid1, mid2, m)
                    &&& if veln_spec(vel_at(pre, ai), vel_at(pre, bi), m.n) > 0 {
                        same_store(mid2, post)
                    } else {
                        interact_rel(mid2, post, a, b)
                    }
                },
        }
    }
}

/// The collision pass after its first `n` ordered pairs, pairs taken in row
/// -major order over the entity list.
pub open spec fn pass_rel(pre: GameData, post: GameData, list: Seq<Entity>, n: int) -> bool
    decreases n,
{
    if n <= 0 {
        same_store(pre, post)
    } else {
        // the reflexive comparison is the quantifier's trigger handle
        exists|mid: GameData|
            #[trigger] same_store(mid, mid) && pass_rel(pre, mid, list, n - 1) && pair_rel(
                mid,
                post,
                list[(n - 1) / list.len() as int],
                list[(n - 1) % list.len() as int],
            )
    }
}

/// What integrating one listed entity does to the store: with both a
/// visible velocity and position, the position advances by `v * dt`
/// (rescaled, saturated) and wraps around the world edges; otherwise
/// nothing changes.
pub open spec fn integ_step(pre: GameData, post: GameData, e: Entity, dt: int) -> bool {
    let i = e.idx as int;
    if !has_velocity_at(pre, i) || !has_position_at(pre, i) {
        same_store(pre, post)
    } else {
        let v = vel_at(pre, i);
        let p = pos_at(pre, i);
        let nx = clamp_spec(p.x + tdiv_unit(v.x * dt), POS_LIMIT as int);
        let ny = clamp_spec(p.y + tdiv_unit(v.y * dt), POS_LIMIT as int);
        &&& post.entity == pre.entity
        &&& post.delete@ == pre.delete@
        &&& lazy_eq(pre.lazy, post.lazy)
        &&& eq_arrays_except_positions(pre, post)
        &&& post.positions@ == pre.positions@.update(
            i,
            Some(
                Position {
                    position: Vec2 {
                        x: wrap_spec(nx, WIDTH as int) as i64,
                        y: wrap_spec(ny, HEIGHT as int) as i64,
                    },
                },
            ),
        )
    }
}

/// The integration pass after its first `k` listed entities.
pub open spec fn integ_rel(pre: GameData, post: GameData, list: Seq<Entity>, k: int, dt: int) -> bool
    decreases k,
{
    if k <= 0 {
        same_store(pre, post)
    } else {
        // the reflexive comparison is the quantifier's trigger handle
        exists|mid: GameData|
            #[trigger] same_store(mid, mid) && integ_rel(pre, mid, list, k - 1, dt) && integ_step(
                mid,
                post,
                list[k - 1],
                dt,
            )
    }
}

/// One ordered pair of the collision pass, exactly as `pair_rel` states:
/// the existence gates, overlap detection, impulse resolution, positional
/// correction, and — only for an approaching pair, per the resolver's
/// state machine — the gameplay side effect.
fn collide_pair(data: &mut GameData, a: Entity, b: Entity)
    requires
        old(data).wf(),
        old(data).sound(),
        a.idx < old(data).entity,
        b.idx < old(data).entity,
    ensures
        final(data).wf(),
        final(data).sound(),
        pair_rel(*old(data), *final(data), a, b),
        final(data).entity == old(data).entity,
        final(data).foods@ == old(data).foods@,
        final(data).bodies@ == old(data).bodies@,
        final(data).draw@ == old(data).draw@,
        final(data).nns@ == old(data).nns@,
        final(data).inputs@ == old(data).inputs@,
        final(data).outputs@ == old(data).outputs@,
        final(data).desired@ == old(data).desired@,
        final(data).lazy.remove@ == old(data).lazy.remove@,
        final(data).lazy.entity >= old(data).lazy.entity,
        old(data).entity + old(data).lazy.entity <= usize::MAX ==> final(data).entity + final(data).lazy.entity <= usize::MAX,
        final(data).delete@.len() == old(data).delete@.len(),
        forall|i: int|
            0 <= i < old(data).entity && old(data).delete@[i] ==> final(data).delete@[i],
        final(data).creatures@.len() == old(data).creatures@.len(),
        final(data).positions@.len() == old(data).positions@.len(),
        final(data).velocities@.len() == old(data).velocities@.len(),
        forall|i: int|
            0 <= i < old(data).creatures@.len() && old(data).creatures@[i] is None ==> final(data).creatures@[i] is None,
{
    if a.idx == b.idx {
        return ;
    }
    if !data.has(a.component::<Body>()) || !data.has(b.component::<Body>()) {
        return ;
    }
    if !data.has(a.component::<Position>()) || !data.has(b.component::<Position>()) || !data.has(
        a.component::<Velocity>(),
    ) || !data.has(b.component::<Velocity>()) {
        return ;
    }
    let manifold = gen_manifold(data, a, b);
    if let Some(m) = manifold {
        let ghost g0 = *data;
        // the approach test uses the pre-impulse velocities, as the
        // resolver's state machine does
        let va = data.get_velocity(a.component()).velocity;
        let vb = data.get_velocity(b.component()).velocity;
        proof {
            assert(-400000000000000 <= (vb.x - va.x) as int * m.n.x as int <= 400000000000000
                && -400000000000000 <= (vb.y - va.y) as int * m.n.y as int <= 400000000000000)
                by (nonlinear_arith)
                requires
                    -2 * VEL_LIMIT <= (vb.x - va.x) as int <= 2 * VEL_LIMIT,
                    -2 * VEL_LIMIT <= (vb.y - va.y) as int <= 2 * VEL_LIMIT,
                    -2 * RADIUS_LIMIT <= m.n.x as int <= 2 * RADIUS_LIMIT,
                    -2 * RADIUS_LIMIT <= m.n.y as int <= 2 * RADIUS_LIMIT,
                    VEL_LIMIT == 1000000000,
                    RADIUS_LIMIT == 100000,
            ;
        }
        let veln: i64 = (vb.x - va.x) * m.n.x + (vb.y - va.y) * m.n.y;
        resolve(data, &m);
        let ghost g1 = *data;
        correct(data, &m);
        let ghost g2 = *data;
        if veln <= 0 {
            interact(data, m.a, m.b);
        }
        proof {
            assert(resolve_rel(g0, g1, m));
            assert(correct_rel(g1, g2, m));
            if veln > 0 {
                assert(same_store(g2, *data));
            } else {
                assert(interact_rel(g2, *data, a, b));
            }
            assert(pair_rel(g0, *data, a, b));
        }
    }
}

/// The pairwise collision pass and the motion integration that follows.
///
/// Every ordered pair of distinct listed entities is put through
/// `collide_pair` in row-major order, then every listed entity with both
/// velocity and position moves by `velocity * dt` and wraps around the
/// world edges; the whole effect is pinned by the `pass_rel` and
/// `integ_rel` traces below. Structural changes stay queued: the entity
/// count and rows never shrink mid-pass, deletion marks are only added, and
/// an empty creature row stays empty.
pub fn physics_system(data: &mut GameData, entities: &Vec<Entity>, dt: i64)
    requires
        old(data).wf(),
        old(data).sound(),
        forall|k: int|
            0 <= k < entities@.len() ==> (#[trigger] entities@[k]).idx < old(data).entity,
        0 <= dt <= 10000000,
    ensures
        final(data).wf(),
        final(data).sound(),
        exists|mid: GameData|
            #[trigger] pass_rel(
                *old(data),
                mid,
                entities@,
                entities@.len() as int * entities@.len() as int,
            ) && integ_rel(mid, *final(data), entities@, entities@.len() as int, dt as int),
        final(data).entity == old(data).entity,
        final(data).foods@ == old(data).foods@,
        final(data).bodies@ == old(data).bodies@,
        final(data).draw@ == old(data).draw@,
        final(data).nns@ == old(data).nns@,
        final(data).inputs@ == old(data).inputs@,
        final(data).outputs@ == old(data).outputs@,
        final(data).desired@ == old(data).desired@,
        final(data).lazy.remove@ == old(data).lazy.remove@,
        final(data).lazy.entity >= old(data).lazy.entity,
        old(data).entity + old(data).lazy.entity <= usize::MAX ==> final(data).entity + final(data).lazy.entity <= usize::MAX,
        final(data).delete@.len() == old(data).delete@.len(),
        forall|i: int|
            0 <= i < old(data).entity && old(data).delete@[i] ==> final(data).delete@[i],
        forall|i: int|
            0 <= i < old(data).creatures@.len() && old(data).creatures@[i] is None ==> final(data).creatures@[i] is None,
{
    let ghost pre = *data;
    let len = entities.len();
    let mut i: usize = 0;
    while i < len
        invariant
            i <= len,
            len == entities@.len(),
            forall|k: int|
                0 <= k < entities@.len() ==> (#[trigger] entities@[k]).idx < pre.entity,
            data.wf(),
            data.sound(),
            pass_rel(pre, *data, entities@, i as int * len as int),
            data.entity == pre.entity,
            data.foods@ == pre.foods@,
            data.bodies@ == pre.bodies@,
            data.draw@ == pre.draw@,
            data.nns@ == pre.nns@,
            data.inputs@ == pre.inputs@,
            data.outputs@ == pre.outputs@,
            data.desired@ == pre.desired@,
            data.lazy.remove@ == pre.lazy.remove@,
            data.lazy.entity >= pre.lazy.entity,
            pre.entity + pre.lazy.entity <= usize::MAX ==> data.entity + data.lazy.entity
                <= usize::MAX,
            data.delete@.len() == pre.delete@.len(),
            forall|t: int| 0 <= t < pre.entity && pre.delete@[t] ==> data.delete@[t],
            data.creatures@.len() == pre.creatures@.len(),
            data.positions@.len() == pre.positions@.len(),
            data.velocities@.len() == pre.velocities@.len(),
            forall|t: int|
                0 <= t < pre.creatures@.len() && pre.creatures@[t] is None
                    ==> data.creatures@[t] is None,
        decreases len - i,
    {
        let mut j: usize = 0;
        while j < len
            invariant
                i < len,
                j <= len,
                len == entities@.len(),
                forall|k: int|
                    0 <= k < entities@.len() ==> (#[trigger] entities@[k]).idx < pre.entity,
                data.wf(),
                data.sound(),
                pass_rel(pre, *data, entities@, i as int * len as int + j as int),
                data.entity == pre.entity,
                data.foods@ == pre.foods@,
                data.bodies@ == pre.bodies@,
                data.draw@ == pre.draw@,
                data.nns@ == pre.nns@,
                data.inputs@ == pre.inputs@,
                data.outputs@ == pre.outputs@,
                data.desired@ == pre.desired@,
                data.lazy.remove@ == pre.lazy.remove@,
                data.lazy.entity >= pre.lazy.entity,
                pre.entity + pre.lazy.entity <= usize::MAX ==> data.entity + data.lazy.entity
                    <= usize::MAX,
                data.delete@.len() == pre.delete@.len(),
                forall|t: int| 0 <= t < pre.entity && pre.delete@[t] ==> data.delete@[t],
                data.creatures@.len() == pre.creatures@.len(),
                data.positions@.len() == pre.positions@.len(),
                data.velocities@.len() == pre.velocities@.len(),
                forall|t: int|
                    0 <= t < pre.creatures@.len() && pre.creatures@[t] is None
                        ==> data.creatures@[t] is None,
            decreases len - j,
        {
            let a = entities[i];
            let b = entities[j];
            let ghost before = *data;
            collide_pair(data, a, b);
            proof {
                let n = i as int * len as int + j as int;
                assert(0 <= n) by (nonlinear_arith)
                    requires
                        0 <= i as int,
                        0 <= j as int,
                        0 <= len as int,
                        n == i as int * len as int + j as int,
                ;
                vstd::arithmetic::div_mod::lemma_fundamental_div_mod_converse(
                    n,
                    len as int,
                    i as int,
                    j as int,
                );
                assert(pair_rel(before, *data, entities@[n / len as int], entities@[n % len
                    as int]));
                assert(same_store(before, before));
                assert(pass_rel(pre, before, entities@, n + 1 - 1));
                assert(pair_rel(
                    before,
                    *data,
                    entities@[(n + 1 - 1) / entities@.len() as int],
                    entities@[(n + 1 - 1) % entities@.len() as int],
                ));
                assert(pass_rel(pre, *data, entities@, n + 1));
            }
            j = j + 1;
        }
        proof {
            assert(i as int * len as int + len as int == (i as int + 1) * len as int)
                by (nonlinear_arith);
        }
        i = i + 1;
    }
    proof {
        assert(len as int * len as int == entities@.len() as int * entities@.len() as int);
    }
    let ghost mid_g = *data;
    // motion integration with toroidal wraparound
    let mut k: usize = 0;
    while k < len
        invariant
            k <= len,
            len == entities@.len(),
            forall|t: int|
                0 <= t < entities@.len() ==> (#[trigger] entities@[t]).idx < pre.entity,
            data.wf(),
            data.sound(),
            pass_rel(pre, mid_g, entities@, entities@.len() as int * entities@.len() as int),
            integ_rel(mid_g, *data, entities@, k as int, dt as int),
            0 <= dt <= 10000000,
            data.entity == pre.entity,
            data.foods@ == pre.foods@,
            data.bodies@ == pre.bodies@,
            data.draw@ == pre.draw@,
            data.nns@ == pre.nns@,
            data.inputs@ == pre.inputs@,
            data.outputs@ == pre.outputs@,
            data.desired@ == pre.desired@,
            data.lazy.remove@ == pre.lazy.remove@,
            data.lazy.entity >= pre.lazy.entity,
            pre.entity + pre.lazy.entity <= usize::MAX ==> data.entity + data.lazy.entity
                <= usize::MAX,
            data.delete@.len() == pre.delete@.len(),
            forall|t: int| 0 <= t < pre.entity && pre.delete@[t] ==> data.delete@[t],
            forall|t: int|
                0 <= t < pre.creatures@.len() && pre.creatures@[t] is None
                    ==> data.creatures@[t] is None,
        decreases len - k,
    {
        let e = entities[k];
        let ghost before = *data;
        if !data.has(e.component::<Velocity>()) || !data.has(e.component::<Position>()) {
            proof {
                assert(same_store(before, *data));
                assert(same_store(before, before));
                assert(integ_rel(mid_g, before, entities@, k as int + 1 - 1, dt as int));
                assert(integ_step(before, *data, entities@[k as int + 1 - 1], dt as int));
                assert(integ_rel(mid_g, *data, entities@, k as int + 1, dt as int));
            }
            k = k + 1;
            continue ;
        }
        let vel = data.get_velocity(e.component()).velocity;
        let pos = data.get_position(e.component()).position;
        proof {
            assert(-10000000000000000 <= vel.x as int * dt as int <= 10000000000000000
                && -10000000000000000 <= vel.y as int * dt as int <= 10000000000000000)
                by (nonlinear_arith)
                requires
                    -1000000000 <= vel.x as int <= 1000000000,
                    -1000000000 <= vel.y as int <= 1000000000,
                    0 <= dt as int <= 10000000,
            ;
        }
        let dx: i128 = div_trunc_unit(vel.x as i128 * dt as i128);
        let dy: i128 = div_trunc_unit(vel.y as i128 * dt as i128);
        let nx: i64 = clamp_i128(pos.x as i128 + dx, POS_LIMIT);
        let ny: i64 = clamp_i128(pos.y as i128 + dy, POS_LIMIT);
        let wx = wrap_coord(nx, WIDTH);
        let wy = wrap_coord(ny, HEIGHT);
        data.set_position(e.component(), Position::new(wx, wy));
        proof {
            assert(same_store(before, before));
            assert(integ_rel(mid_g, before, entities@, k as int + 1 - 1, dt as int));
            assert(integ_step(before, *data, entities@[k as int + 1 - 1], dt as int));
            assert(integ_rel(mid_g, *data, entities@, k as int + 1, dt as int));
        }
        k = k + 1;
    }
}

/// Quotient by `UNIT` rounded toward zero.
pub open spec fn tdiv_unit(x: int) -> int {
    if x >= 0 {
        x / (UNIT as int)
    } else {
        -((-x) / (UNIT as int))
    }
}

/// The rescale of a velocity-times-time product into position units,
/// rounding toward zero.
fn div_trunc_unit(a: i128) -> (r: i128)
    requires
        -10000000000000000 <= a <= 10000000000000000,
    ensures
        r == tdiv_unit(a as int),
        -10000000000000 <= r <= 10000000000000,
{
    if a >= 0 {
        let q = div_nn(a, UNIT as i128);
        proof {
            vstd::arithmetic::div_mod::lemma_div_is_ordered(
                a as int,
                10000000000000000,
                UNIT as int,
            );
        }
        q
    } else {
        let q = div_nn(-a, UNIT as i128);
        proof {
            vstd::arithmetic::div_mod::lemma_div_is_ordered(
                (-a) as int,
                10000000000000000,
                UNIT as int,
            );
        }
        -q
    }
}

/// The unit vector (fixed point, scaled by `UNIT`) for a heading of `s`
/// sixteenths of a full turn.
pub open spec fn dir16_spec(s: int) -> Vec2 {
    if s == 0 {
        Vec2 { x: 1000, y: 0 }
    } else if s == 1 {
        Vec2 { x: 924, y: 383 }
    } else if s == 2 {
        Vec2 { x: 707, y: 707 }
    } else if s == 3 {
        Vec2 { x: 383, y: 924 }
    } else if s == 4 {
        Vec2 { x: 0, y: 1000 }
    } else if s == 5 {
        Vec2 { x: -383 as i64, y: 924 }
    } else if s == 6 {
        Vec2 { x: -707 as i64, y: 707 }
    } else if s == 7 {
        Vec2 { x: -924 as i64, y: 383 }
    } else if s == 8 {
        Vec2 { x: -1000 as i64, y: 0 }
    } else if s == 9 {
        Vec2 { x: -924 as i64, y: -383 as i64 }
    } else if s == 10 {
        Vec2 { x: -707 as i64, y: -707 as i64 }
    } else if s == 11 {
        Vec2 { x: -383 as i64, y: -924 as i64 }
    } else if s == 12 {
        Vec2 { x: 0, y: -1000 as i64 }
    } else if s == 13 {
        Vec2 { x: 383, y: -924 as i64 }
    } else if s == 14 {
        Vec2 { x: 707, y: -707 as i64 }
    } else {
        Vec2 { x: 924, y: -383 as i64 }
    }
}

/// The fixed-point direction vector of a heading step, reduced modulo the
/// number of directions. Its squared length is within a thousandth of one.
#[verifier::rlimit(60)]
pub fn dir16(step: i64) -> (v: Vec2)
    requires
        0 <= step,
    ensures
        v == dir16_spec(step as int % 16),
        -UNIT <= v.x <= UNIT,
        -UNIT <= v.y <= UNIT,
        norm2_bounded(v),
{
    let s: i64 = step % 16;
    let v = if s == 0 {
        Vec2 { x: 1000, y: 0 }
    } else if s == 1 {
        Vec2 { x: 924, y: 383 }
    } else if s == 2 {
        Vec2 { x: 707, y: 707 }
    } else if s == 3 {
        Vec2 { x: 383, y: 924 }
    } else if s == 4 {
        Vec2 { x: 0, y: 1000 }
    } else if s == 5 {
        Vec2 { x: -383, y: 924 }
    } else if s == 6 {
        Vec2 { x: -707, y: 707 }
    } else if s == 7 {
        Vec2 { x: -924, y: 383 }
    } else if s == 8 {
        Vec2 { x: -1000, y: 0 }
    } else if s == 9 {
        Vec2 { x: -924, y: -383 }
    } else if s == 10 {
        Vec2 { x: -707, y: -707 }
    } else if s == 11 {
        Vec2 { x: -383, y: -924 }
    } else if s == 12 {
        Vec2 { x: 0, y: -1000 }
    } else if s == 13 {
        Vec2 { x: 383, y: -924 }
    } else if s == 14 {
        Vec2 { x: 707, y: -707 }
    } else {
        Vec2 { x: 924, y: -383 }
    };
    proof {
        assert(s as int == step as int % 16);
        lemma_dir16_norm(s as int);
        assert(v == dir16_spec(s as int));
    }
    v
}

/// Index of the first maximum of a non-empty vector.
pub fn argmax(v: &Vec<i64>) -> (r: usize)
    requires
        v@.len() >= 1,
    ensures
        r < v@.len(),
        forall|k: int| 0 <= k < v@.len() ==> #[trigger] v@[k] <= v@[r as int],
        forall|k: int| 0 <= k < r ==> #[trigger] v@[k] < v@[r as int],
{
    let mut best: usize = 0;
    let mut k: usize = 1;
    while k < v.len()
        invariant
            1 <= k <= v@.len(),
            best < k,
            forall|t: int| 0 <= t < k ==> #[trigger] v@[t] <= v@[best as int],
            forall|t: int| 0 <= t < best ==> #[trigger] v@[t] < v@[best as int],
        decreases v@.len() - k,
    {
        if v[k] > v[best] {
            best = k;
        }
        k = k + 1;
    }
    best
}

/// Whether every entry equals the first one.
fn all_equal(v: &Vec<i64>) -> (r: bool)
    requires
        v@.len() >= 1,
    ensures
        r == (forall|k: int| 0 <= k < v@.len() ==> #[trigger] v@[k] == v@[0]),
{
    let mut k: usize = 1;
    while k < v.len()
        invariant
            1 <= k <= v@.len(),
            forall|t: int| 0 <= t < k ==> #[trigger] v@[t] == v@[0],
        decreases v@.len() - k,
    {
        if v[k] != v[0] {
            return false;
        }
        k = k + 1;
    }
    true
}

/// A heading step reduced into the legal range; anything out of range
/// senses as heading zero.
pub open spec fn norm_heading(h: int) -> int {
    if 0 <= h < 16 {
        h
    } else {
        0
    }
}

/// The `k`-th sensing ray of a creature at `p1` with heading `h`: one
/// movement step times `2k` around the heading, out to `VIEW_DISTANCE`.
pub open spec fn ray_of(p1: Vec2, h: int, k: int) -> Ray {
    let d = dir16_spec((h + 2 * k) % 16);
    Ray {
        p1,
        p2: Vec2 {
            x: (p1.x + d.x * (VIEW_DISTANCE / UNIT)) as i64,
            y: (p1.y + d.y * (VIEW_DISTANCE / UNIT)) as i64,
        },
    }
}

/// The prefix of `all` that can be sensed: entities with a visible position
/// and body.
pub open spec fn sensed(d: GameData, all: Seq<Entity>, n: int) -> Seq<Entity>
    decreases n,
{
    if n <= 0 {
        Seq::empty()
    } else {
        let p = sensed(d, all, n - 1);
        let e = all[n - 1];
        if has_position_at(d, e.idx as int) && has_body_at(d, e.idx as int) {
            p.push(e)
        } else {
            p
        }
    }
}

/// The class feature a hit entity means to a creature of kind `my`: food
/// and weaker prey toward `UNIT`, the same kind in the middle, threats at
/// `0`, anything unreadable the harmless sentinel.
pub open spec fn class_of(d: GameData, my: Kind, e: Entity) -> i64 {
    let i = e.idx as int;
    if i >= d.entity {
        UNIT
    } else if has_food_at(d, i) {
        match my {
            Kind::Vegan => UNIT,
            Kind::Carnivorous => 0,
        }
    } else if has_creature_at(d, i) {
        match (my, d.creatures@[i]->0.kind) {
            (Kind::Vegan, Kind::Vegan) => 500,
            (Kind::Vegan, Kind::Carnivorous) => 0,
            (Kind::Carnivorous, Kind::Vegan) => UNIT,
            (Kind::Carnivorous, Kind::Carnivorous) => 500,
        }
    } else {
        UNIT
    }
}

/// The two features ray `k` contributes: the nearest hit's class and its
/// scaled distance along the ray, or the "maximally distant and harmless"
/// sentinel `(UNIT, UNIT)` on a miss.
pub open spec fn ray_features(
    d: GameData,
    my: Kind,
    p1: Vec2,
    h: int,
    this: Entity,
    all: Seq<Entity>,
    k: int,
) -> (i64, i64) {
    let ray = ray_of(p1, h, k);
    match best_hit(d, ray, this, sensed(d, all, all.len() as int)) {
        None => (UNIT, UNIT),
        Some(hit) => (class_of(d, my, hit.0), (hit.1 * UNIT / ray_len2(ray)) as i64),
    }
}

/// The first `r` rays' features, two per ray, in ray order.
pub open spec fn features_upto(
    d: GameData,
    my: Kind,
    p1: Vec2,
    h: int,
    this: Entity,
    all: Seq<Entity>,
    r: int,
) -> Seq<i64>
    decreases r,
{
    if r <= 0 {
        Seq::empty()
    } else {
        let p = features_upto(d, my, p1, h, this, all, r - 1);
        let f = ray_features(d, my, p1, h, this, all, r - 1);
        p.push(f.0).push(f.1)
    }
}

/// The whole input vector a creature's fan of rays produces.
pub open spec fn senses_of(d: GameData, e: Entity, all: Seq<Entity>) -> Seq<i64> {
    let i = e.idx as int;
    features_upto(
        d,
        d.creatures@[i]->0.kind,
        pos_at(d, i),
        norm_heading(d.directions@[i]->0.direction as int),
        e,
        all,
        RAY_COUNT as int,
    )
}

/// Whether row `i` can sense: visible position, direction, creature row and
/// inputs slot.
pub open spec fn sense_eligible(d: GameData, i: int) -> bool {
    &&& !d.delete@[i]
    &&& d.positions@[i] is Some
    &&& d.directions@[i] is Some
    &&& d.creatures@[i] is Some
    &&& d.inputs@[i] is Some
}

/// The sensing pass: each listed creature casts a fan of `RAY_COUNT` rays
/// spread one movement step apart around its heading, out to
/// `VIEW_DISTANCE`, against the listed population, and its inputs row
/// becomes exactly the feature vector `senses_of` describes: per ray the
/// nearest hit's class and scaled distance, or the sentinel `(UNIT, UNIT)`.
/// Only the inputs arrays change.
pub fn input_system(data: &mut GameData, creatures: &Vec<Entity>, all: &Vec<Entity>)
    requires
        old(data).wf(),
        old(data).sound(),
        forall|k: int|
            0 <= k < creatures@.len() ==> (#[trigger] creatures@[k]).idx < old(data).entity,
        forall|k: int| 0 <= k < all@.len() ==> (#[trigger] all@[k]).idx < old(data).entity,
    ensures
        final(data).wf(),
        final(data).sound(),
        final(data).entity == old(data).entity,
        final(data).delete@ == old(data).delete@,
        lazy_eq(old(data).lazy, final(data).lazy),
        final(data).creatures@ == old(data).creatures@,
        final(data).foods@ == old(data).foods@,
        final(data).positions@ == old(data).positions@,
        final(data).velocities@ == old(data).velocities@,
        final(data).directions@ == old(data).directions@,
        final(data).bodies@ == old(data).bodies@,
        final(data).draw@ == old(data).draw@,
        final(data).nns@ == old(data).nns@,
        final(data).outputs@ == old(data).outputs@,
        final(data).desired@ == old(data).desired@,
        final(data).inputs@.len() == old(data).inputs@.len(),
        forall|k: int|
            0 <= k < creatures@.len() ==> ({
                let i = (#[trigger] creatures@[k]).idx as int;
                sense_eligible(*old(data), i) ==> final(data).inputs@[i] is Some && final(data).inputs@[i]->0.input@ == senses_of(*old(data), creatures@[k], all@)
            }),
{
    let ghost pre = *data;
    // sense first against the untouched store, then write: the feature
    // vectors of every creature are functions of the same pre-pass state
    let mut computed: Vec<Option<Vec<i64>>> = Vec::new();
    let mut ci: usize = 0;
    while ci < creatures.len()
        invariant
            ci <= creatures@.len(),
            *data == pre,
            pre.wf(),
            pre.sound(),
            forall|k: int|
                0 <= k < creatures@.len() ==> (#[trigger] creatures@[k]).idx < pre.entity,
            forall|k: int| 0 <= k < all@.len() ==> (#[trigger] all@[k]).idx < pre.entity,
            computed@.len() == ci,
            forall|j: int|
                0 <= j < ci ==> ((#[trigger] computed@[j]) is Some <==> sense_eligible(
                    pre,
                    creatures@[j].idx as int,
                )),
            forall|j: int|
                0 <= j < ci && computed@[j] is Some ==> ((#[trigger] computed@[j])->0@
                    == senses_of(pre, creatures@[j], all@) && activations_wf(computed@[j]->0@)),
        decreases creatures@.len() - ci,
    {
        let e = creatures[ci];
        if !data.has(e.component::<Position>()) || !data.has(e.component::<Direction>())
            || !data.has(e.component::<Creature>()) || !data.has(e.component::<Inputs>()) {
            computed.push(None);
            ci = ci + 1;
            continue ;
        }
        let p1 = data.get_position(e.component()).position;
        let heading_raw = data.get_direction(e.component()).direction;
        let heading: i64 = if 0 <= heading_raw && heading_raw < 16 {
            heading_raw
        } else {
            0
        };
        let my_kind = data.get_creature(e.component()).kind;
        // only entities with both a position and a body can be sensed
        let mut candidates: Vec<Entity> = Vec::new();
        let mut t: usize = 0;
        while t < all.len()
            invariant
                t <= all@.len(),
                *data == pre,
                pre.wf(),
                pre.sound(),
                forall|k: int| 0 <= k < all@.len() ==> (#[trigger] all@[k]).idx < pre.entity,
                candidates@ == sensed(pre, all@, t as int),
                forall|k: int|
                    0 <= k < candidates@.len() ==> (#[trigger] candidates@[k]).idx < pre.entity
                        && pre.positions@[candidates@[k].idx as int] is Some
                        && pre.bodies@[candidates@[k].idx as int] is Some,
            decreases all@.len() - t,
        {
            let c = all[t];
            t = t + 1;
            if data.has(c.component::<Position>()) && data.has(c.component::<Body>()) {
                candidates.push(c);
            }
        }
        let mut features: Vec<i64> = Vec::new();
        let mut ri: usize = 0;
        while ri < RAY_COUNT
            invariant
                ri <= RAY_COUNT,
                *data == pre,
                pre.wf(),
                pre.sound(),
                e == creatures@[ci as int],
                ci < creatures@.len(),
                e.idx < pre.entity,
                features@ == features_upto(
                    pre,
                    my_kind,
                    p1,
                    heading as int,
                    e,
                    all@,
                    ri as int,
                ),
                activations_wf(features@),
                0 <= heading < 16,
                p1 == pos_at(pre, e.idx as int),
                -POS_LIMIT <= p1.x <= POS_LIMIT,
                -POS_LIMIT <= p1.y <= POS_LIMIT,
                my_kind == pre.creatures@[e.idx as int]->0.kind,
                candidates@ == sensed(pre, all@, all@.len() as int),
                forall|k: int|
                    0 <= k < candidates@.len() ==> (#[trigger] candidates@[k]).idx < pre.entity
                        && pre.positions@[candidates@[k].idx as int] is Some
                        && pre.bodies@[candidates@[k].idx as int] is Some,
                RAY_COUNT == 8,
            decreases RAY_COUNT - ri,
        {
            let d = dir16(heading + 2 * (ri as i64));
            let p2 = Vec2 {
                x: p1.x + d.x * (VIEW_DISTANCE / UNIT),
                y: p1.y + d.y * (VIEW_DISTANCE / UNIT),
            };
            let ray = Ray { p1, p2 };
            proof {
                assert(ray == ray_of(p1, heading as int, ri as int));
                let bx = ray.p2.x - ray.p1.x as int;
                let by = ray.p2.y - ray.p1.y as int;
                assert(bx == d.x as int * 10000 && by == d.y as int * 10000);
                assert(norm2_bounded(d));
                assert(bx * bx + by * by >= 99900000000) by (nonlinear_arith)
                    requires
                        bx == d.x as int * 10000,
                        by == d.y as int * 10000,
                        999000 <= d.x * d.x + d.y * d.y,
                        -1000 <= d.x as int <= 1000,
                        -1000 <= d.y as int <= 1000,
                ;
            }
            let hit = raycast(data, &ray, e, &candidates);
            if let Some(ht) = hit {
                let other = ht.0;
                let dist_scaled = ht.1;
                let class: i64 = if other.idx >= data.entity {
                    UNIT
                } else if data.has(other.component::<Food>()) {
                    match my_kind {
                        Kind::Vegan => UNIT,
                        Kind::Carnivorous => 0,
                    }
                } else if data.has(other.component::<Creature>()) {
                    let ok = data.get_creature(other.component()).kind;
                    match (my_kind, ok) {
                        (Kind::Vegan, Kind::Vegan) => 500,
                        (Kind::Vegan, Kind::Carnivorous) => 0,
                        (Kind::Carnivorous, Kind::Vegan) => UNIT,
                        (Kind::Carnivorous, Kind::Carnivorous) => 500,
                    }
                } else {
                    UNIT
                };
                proof {
                    assert(class == class_of(pre, my_kind, other));
                }
                features.push(class);
                features.push(dist_scaled);
            } else {
                features.push(UNIT);
                features.push(UNIT);
            }
            proof {
                assert(features@ == features_upto(
                    pre,
                    my_kind,
                    p1,
                    heading as int,
                    e,
                    all@,
                    ri as int + 1,
                ));
            }
            ri = ri + 1;
        }
        proof {
            assert(features@ == senses_of(pre, e, all@));
        }
        computed.push(Some(features));
        ci = ci + 1;
    }
    // write the feature vectors back
    let mut w: usize = 0;
    while w < creatures.len()
        invariant
            w <= creatures@.len(),
            computed@.len() == creatures@.len(),
            forall|k: int|
                0 <= k < creatures@.len() ==> (#[trigger] creatures@[k]).idx < pre.entity,
            forall|j: int|
                0 <= j < creatures@.len() ==> ((#[trigger] computed@[j]) is Some
                    <==> sense_eligible(pre, creatures@[j].idx as int)),
            forall|j: int|
                0 <= j < creatures@.len() && computed@[j] is Some ==> ((#[trigger] computed@[j])->0@
                    == senses_of(pre, creatures@[j], all@) && activations_wf(computed@[j]->0@)),
            data.wf(),
            data.sound(),
            data.entity == pre.entity,
            data.delete@ == pre.delete@,
            lazy_eq(pre.lazy, data.lazy),
            data.creatures@ == pre.creatures@,
            data.foods@ == pre.foods@,
            data.positions@ == pre.positions@,
            data.velocities@ == pre.velocities@,
            data.directions@ == pre.directions@,
            data.bodies@ == pre.bodies@,
            data.draw@ == pre.draw@,
            data.nns@ == pre.nns@,
            data.outputs@ == pre.outputs@,
            data.desired@ == pre.desired@,
            data.inputs@.len() == pre.inputs@.len(),
            forall|i: int|
                0 <= i < pre.inputs@.len() ==> ((#[trigger] data.inputs@[i]) is Some
                    <==> pre.inputs@[i] is Some),
            forall|j: int|
                0 <= j < w ==> ({
                    let i = (#[trigger] creatures@[j]).idx as int;
                    sense_eligible(pre, i) ==> data.inputs@[i] is Some && data.inputs@[i]->0.input@
                        == senses_of(pre, creatures@[j], all@)
                }),
        decreases creatures@.len() - w,
    {
        let e = creatures[w];
        let got = &computed[w];
        if let Some(v) = got {
            let vec_copy = crate::nn::copy_vec(v);
            data.set_inputs(e.component(), Inputs { input: vec_copy });
        }
        w = w + 1;
    }
}

/// Whether row `i` can take an action: visible outputs, velocity and
/// direction, with a non-empty output vector.
pub open spec fn out_eligible(d: GameData, i: int) -> bool {
    &&& !d.delete@[i]
    &&& d.outputs@[i] is Some
    &&& d.velocities@[i] is Some
    &&& d.directions@[i] is Some
    &&& d.outputs@[i]->0.output@.len() > 0
}

/// Every entry equals the first.
pub open spec fn all_same(v: Seq<i64>) -> bool {
    forall|k: int| 0 <= k < v.len() ==> #[trigger] v[k] == v[0]
}

/// `s` is the index of the first maximum of `v`.
pub open spec fn is_first_max(v: Seq<i64>, s: int) -> bool {
    &&& 0 <= s < v.len()
    &&& forall|k: int| 0 <= k < v.len() ==> #[trigger] v[k] <= v[s]
    &&& forall|k: int| 0 <= k < s ==> #[trigger] v[k] < v[s]
}

/// What the action pass writes for an output vector `out`: some heading
/// step `s` with the fixed speed along it — and, unless every output is
/// exactly equal (the random escape), `s` is the first-maximum index.
pub open spec fn action_written(out: Seq<i64>, vel: Vec2, dir: i64) -> bool {
    exists|s: int|
        #![trigger dir16_spec(s)]
        {
            &&& 0 <= s < 16
            &&& vel.x == dir16_spec(s).x * 100
            &&& vel.y == dir16_spec(s).y * 100
            &&& dir == s
            &&& (!all_same(out) && out.len() == 16 ==> is_first_max(out, s))
        }
}

/// The action pass: each listed entity takes the index of its strongest
/// network output (or, when every output is exactly equal, a uniformly
/// random direction — the documented escape from a degenerate
/// distribution), turns that index into a heading step, and sets its
/// velocity to the fixed speed along that heading. Only velocities and
/// directions change.
pub fn output_system(data: &mut GameData, entities: &Vec<Entity>)
    requires
        old(data).wf(),
        old(data).sound(),
        forall|k: int|
            0 <= k < entities@.len() ==> (#[trigger] entities@[k]).idx < old(data).entity,
    ensures
        final(data).wf(),
        final(data).sound(),
        final(data).entity == old(data).entity,
        final(data).delete@ == old(data).delete@,
        lazy_eq(old(data).lazy, final(data).lazy),
        final(data).creatures@ == old(data).creatures@,
        final(data).foods@ == old(data).foods@,
        final(data).positions@ == old(data).positions@,
        final(data).bodies@ == old(data).bodies@,
        final(data).draw@ == old(data).draw@,
        final(data).nns@ == old(data).nns@,
        final(data).inputs@ == old(data).inputs@,
        final(data).outputs@ == old(data).outputs@,
        final(data).desired@ == old(data).desired@,
        final(data).velocities@.len() == old(data).velocities@.len(),
        final(data).directions@.len() == old(data).directions@.len(),
        forall|k: int|
            0 <= k < entities@.len() ==> ({
                let i = (#[trigger] entities@[k]).idx as int;
                out_eligible(*old(data), i) ==> final(data).velocities@[i] is Some && final(data).directions@[i] is Some && action_written(
                    old(data).outputs@[i]->0.output@,
                    final(data).velocities@[i]->0.velocity,
                    final(data).directions@[i]->0.direction,
                )
            }),
{
    let ghost pre = *data;
    let mut k: usize = 0;
    while k < entities.len()
        invariant
            k <= entities@.len(),
            forall|j: int|
                0 <= j < entities@.len() ==> (#[trigger] entities@[j]).idx < pre.entity,
            data.wf(),
            data.sound(),
            data.entity == pre.entity,
            data.delete@ == pre.delete@,
            lazy_eq(pre.lazy, data.lazy),
            data.creatures@ == pre.creatures@,
            data.foods@ == pre.foods@,
            data.positions@ == pre.positions@,
            data.bodies@ == pre.bodies@,
            data.draw@ == pre.draw@,
            data.nns@ == pre.nns@,
            data.inputs@ == pre.inputs@,
            data.outputs@ == pre.outputs@,
            data.desired@ == pre.desired@,
            data.velocities@.len() == pre.velocities@.len(),
            data.directions@.len() == pre.directions@.len(),
            forall|i: int|
                0 <= i < pre.velocities@.len() ==> ((#[trigger] data.velocities@[i]) is Some
                    <==> pre.velocities@[i] is Some),
            forall|i: int|
                0 <= i < pre.directions@.len() ==> ((#[trigger] data.directions@[i]) is Some
                    <==> pre.directions@[i] is Some),
            forall|j: int|
                0 <= j < k ==> ({
                    let i = (#[trigger] entities@[j]).idx as int;
                    out_eligible(pre, i) ==> data.velocities@[i] is Some
                        && data.directions@[i] is Some && action_written(
                        pre.outputs@[i]->0.output@,
                        data.velocities@[i]->0.velocity,
                        data.directions@[i]->0.direction,
                    )
                }),
        decreases entities@.len() - k,
    {
        let e = entities[k];
        k = k + 1;
        if !data.has(e.component::<Outputs>()) || !data.has(e.component::<Velocity>())
            || !data.has(e.component::<Direction>()) {
            continue ;
        }
        let out = data.get_outputs(e.component());
        if out.output.len() == 0 {
            continue ;
        }
        let mut index: usize = argmax(&out.output);
        if all_equal(&out.output) {
            index = rand_range(0, DIR_COUNT as i64) as usize;
        }
        let step: i64 = (index % DIR_COUNT) as i64;
        let d = dir16(step);
        let vx: i64 = d.x * (SPEED / UNIT);
        let vy: i64 = d.y * (SPEED / UNIT);
        proof {
            assert(-100000000 <= d.x as int * 100 <= 100000000 && -100000000 <= d.y as int * 100
                <= 100000000) by (nonlinear_arith)
                requires
                    -1000 <= d.x as int <= 1000,
                    -1000 <= d.y as int <= 1000,
            ;
        }
        data.set_velocity(e.component(), Velocity::new(vx, vy));
        data.set_direction(e.component(), Direction::new(step));
        proof {
            assert(action_written(
                pre.outputs@[e.idx as int]->0.output@,
                data.velocities@[e.idx as int]->0.velocity,
                data.directions@[e.idx as int]->0.direction,
            )) by {
                let sw = step as int;
                assert(0 <= sw < 16);
                assert(d == dir16_spec(sw));
                assert(data.velocities@[e.idx as int]->0.velocity.x == dir16_spec(sw).x * 100
                    && data.velocities@[e.idx as int]->0.velocity.y == dir16_spec(sw).y * 100);
            }
        }
    }
}

/// The squared length of `v` is within a thousandth of one (squared).
pub open spec fn norm2_bounded(v: Vec2) -> bool {
    999000 <= v.x * v.x + v.y * v.y <= 1001000
}

/// Each of the sixteen direction vectors has squared length within a
/// thousandth of one.
proof fn lemma_dir16_norm(s: int)
    requires
        0 <= s < 16,
    ensures
        norm2_bounded(dir16_spec(s)),
{
    let v = dir16_spec(s);
    if s == 0 {
        assert(999000 <= v.x * v.x + v.y * v.y <= 1001000) by (nonlinear_arith)
            requires
                v.x == 1000,
                v.y == 0,
        ;
    }
    if s == 1 {
        assert(999000 <= v.x * v.x + v.y * v.y <= 1001000) by (nonlinear_arith)
            requires
                v.x == 924,
                v.y == 383,
        ;
    }
    if s == 2 {
        assert(999000 <= v.x * v.x + v.y * v.y <= 1001000) by (nonlinear_arith)
            requires
                v.x == 707,
                v.y == 707,
        ;
    }
    if s == 3 {
        assert(999000 <= v.x * v.x + v.y * v.y <= 1001000) by (nonlinear_arith)
            requires
                v.x == 383,
                v.y == 924,
        ;
    }
    if s == 4 {
        assert(999000 <= v.x * v.x + v.y * v.y <= 1001000) by (nonlinear_arith)
            requires
                v.x == 0,
                v.y == 1000,
        ;
    }
    if s == 5 {
        assert(999000 <= v.x * v.x + v.y * v.y <= 1001000) by (nonlinear_arith)
            requires
                v.x == -383,
                v.y == 924,
        ;
    }
    if s == 6 {
        assert(999000 <= v.x * v.x + v.y * v.y <= 1001000) by (nonlinear_arith)
            requires
                v.x == -707,
                v.y == 707,
        ;
    }
    if s == 7 {
        assert(999000 <= v.x * v.x + v.y * v.y <= 1001000) by (nonlinear_arith)
            requires
                v.x == -924,
                v.y == 383,
        ;
    }
    if s == 8 {
        assert(999000 <= v.x * v.x + v.y * v.y <= 1001000) by (nonlinear_arith)
            requires
                v.x == -1000,
                v.y == 0,
        ;
    }
    if s == 9 {
        assert(999000 <= v.x * v.x + v.y * v.y <= 1001000) by (nonlinear_arith)
            requires
                v.x == -924,
                v.y == -383,
        ;
    }
    if s == 10 {
        assert(999000 <= v.x * v.x + v.y * v.y <= 1001000) by (nonlinear_arith)
            requires
                v.x == -707,
                v.y == -707,
        ;
    }
    if s == 11 {
        assert(999000 <= v.x * v.x + v.y * v.y <= 1001000) by (nonlinear_arith)
            requires
                v.x == -383,
                v.y == -924,
        ;
    }
    if s == 12 {
        assert(999000 <= v.x * v.x + v.y * v.y <= 1001000) by (nonlinear_arith)
            requires
                v.x == 0,
                v.y == -1000,
        ;
    }
    if s == 13 {
        assert(999000 <= v.x * v.x + v.y * v.y <= 1001000) by (nonlinear_arith)
            requires
                v.x == 383,
                v.y == -924,
        ;
    }
    if s == 14 {
        assert(999000 <= v.x * v.x + v.y * v.y <= 1001000) by (nonlinear_arith)
            requires
                v.x == 707,
                v.y == -707,
        ;
    }
    if s == 15 {
        assert(999000 <= v.x * v.x + v.y * v.y <= 1001000) by (nonlinear_arith)
            requires
                v.x == 924,
                v.y == -383,
        ;
    }
}

} // verus!
