//! The heritable-trait mutation operator: a linear blend of two parent
//! values, then, with bounded probability, a bounded multiplicative jitter.
//! This is the sole mechanism of heritable trait drift.

use vstd::prelude::*;

use crate::draw::Rgba;
use crate::math::div_floor;
use crate::nn::Matrix;
use crate::rng::rand_range;
use crate::vec2::Vec2;
use crate::{POS_LIMIT, UNIT};

verus! {

/// The blend of `a` and `b`, weighted `factor` (scaled by `UNIT`) toward `a`.
pub open spec fn blend_spec(a: int, b: int, factor: int) -> int {
    (a * factor + b * (UNIT - factor)) / (UNIT as int)
}

/// What any result of the scalar mutation operator satisfies: the blend,
/// times a jitter drawn from `[UNIT - mutation, UNIT + mutation]` (the draw
/// `UNIT` itself covering the no-mutation branch exactly).
pub open spec fn mutate_rel(a: int, b: int, factor: int, mutation: int, r: int) -> bool {
    exists|j: int|
        UNIT - mutation <= j <= UNIT + mutation && r == #[trigger] (blend_spec(a, b, factor) * j)
            / (UNIT as int)
}

/// Derives an offspring value from two parent values.
pub trait Mutate: Sized {
    spec fn mutate_req(&self, other: &Self, factor: i64, chance: i64, mutation: i64) -> bool;

    spec fn mutate_post(
        &self,
        other: &Self,
        factor: i64,
        chance: i64,
        mutation: i64,
        r: Self,
    ) -> bool;

    /// Blends `self` with `other` by `factor`, then with probability `chance`
    /// multiplies the blend by `1 +/- mutation` (all scaled by `UNIT`).
    fn mutate(&self, other: &Self, factor: i64, chance: i64, mutation: i64) -> (r: Self)
        requires
            self.mutate_req(other, factor, chance, mutation),
        ensures
            self.mutate_post(other, factor, chance, mutation, r),
    ;
}

/// The scalar bounds under which mutation arithmetic cannot overflow.
pub open spec fn scalar_mutate_req(a: int, b: int, factor: int, chance: int, mutation: int) -> bool {
    &&& -POS_LIMIT <= a <= POS_LIMIT
    &&& -POS_LIMIT <= b <= POS_LIMIT
    &&& 0 <= factor <= UNIT
    &&& 0 <= chance <= UNIT
    &&& 0 <= mutation <= UNIT
}

/// What the scalar mutation guarantees: the jitter relation always, the exact
/// blend when mutation is impossible, and bounds that keep the result usable
/// as a trait value.
pub open spec fn scalar_mutate_post(
    a: int,
    b: int,
    factor: int,
    chance: int,
    mutation: int,
    r: int,
) -> bool {
    &&& mutate_rel(a, b, factor, mutation, r)
    &&& (chance == 0 ==> r == blend_spec(a, b, factor))
    &&& -2 * POS_LIMIT <= r <= 2 * POS_LIMIT
}

impl Mutate for i64 {
    open spec fn mutate_req(&self, other: &Self, factor: i64, chance: i64, mutation: i64) -> bool {
        scalar_mutate_req(*self as int, *other as int, factor as int, chance as int, mutation as int)
    }

    open spec fn mutate_post(
        &self,
        other: &Self,
        factor: i64,
        chance: i64,
        mutation: i64,
        r: Self,
    ) -> bool {
        scalar_mutate_post(
            *self as int,
            *other as int,
            factor as int,
            chance as int,
            mutation as int,
            r as int,
        )
    }

    fn mutate(&self, other: &Self, factor: i64, chance: i64, mutation: i64) -> (r: Self) {
        let a = *self;
        let b = *other;
        proof {
            assert(-POS_LIMIT * UNIT <= a as int * factor as int <= POS_LIMIT * UNIT
                && -POS_LIMIT * UNIT <= b as int * (UNIT - factor) <= POS_LIMIT * UNIT
                && -POS_LIMIT * UNIT <= a as int * factor as int + b as int * (UNIT - factor)
                <= POS_LIMIT * UNIT) by (nonlinear_arith)
                requires
                    -POS_LIMIT <= a as int <= POS_LIMIT,
                    -POS_LIMIT <= b as int <= POS_LIMIT,
                    0 <= factor as int <= UNIT,
            ;
        }
        let num: i128 = a as i128 * factor as i128 + b as i128 * (UNIT - factor) as i128;
        let blend: i128 = div_floor(num, UNIT as i128);
        proof {
            lemma_blend_bounded(a as int, b as int, factor as int);
        }
        let draw = rand_range(0, UNIT);
        if draw < chance {
            let j = rand_range(UNIT - mutation, UNIT + mutation + 1);
            proof {
                assert(-2 * POS_LIMIT * UNIT <= blend as int * j as int <= 2 * POS_LIMIT * UNIT)
                    by (nonlinear_arith)
                    requires
                        -POS_LIMIT <= blend as int <= POS_LIMIT,
                        0 <= j as int <= 2 * UNIT,
                        POS_LIMIT == 1000000000,
                        UNIT == 1000,
                ;
            }
            let jittered: i128 = div_floor(blend * j as i128, UNIT as i128);
            proof {
                vstd::arithmetic::div_mod::lemma_div_is_ordered(
                    blend as int * j as int,
                    2 * POS_LIMIT * UNIT,
                    UNIT as int,
                );
                vstd::arithmetic::div_mod::lemma_div_is_ordered(
                    -2 * POS_LIMIT * UNIT,
                    blend as int * j as int,
                    UNIT as int,
                );
                assert((-2 * POS_LIMIT * UNIT) as int / UNIT as int == -2 * POS_LIMIT);
                assert((2 * POS_LIMIT * UNIT) as int / UNIT as int == 2 * POS_LIMIT);
            }
            jittered as i64
        } else {
            proof {
                lemma_times_unit_div_unit(blend as int);
            }
            blend as i64
        }
    }
}

/// The floored blend of two bounded values stays within their bounds.
proof fn lemma_blend_bounded(a: int, b: int, factor: int)
    requires
        -POS_LIMIT <= a <= POS_LIMIT,
        -POS_LIMIT <= b <= POS_LIMIT,
        0 <= factor <= UNIT,
    ensures
        -POS_LIMIT <= blend_spec(a, b, factor) <= POS_LIMIT,
{
    let num = a * factor + b * (UNIT - factor);
    assert(-POS_LIMIT * UNIT <= num <= POS_LIMIT * UNIT) by (nonlinear_arith)
        requires
            -POS_LIMIT <= a <= POS_LIMIT,
            -POS_LIMIT <= b <= POS_LIMIT,
            0 <= factor <= UNIT,
            num == a * factor + b * (UNIT - factor),
    ;
    vstd::arithmetic::div_mod::lemma_div_is_ordered(num, POS_LIMIT * UNIT, UNIT as int);
    vstd::arithmetic::div_mod::lemma_div_is_ordered(-POS_LIMIT * UNIT, num, UNIT as int);
    assert((POS_LIMIT * UNIT) as int / UNIT as int == POS_LIMIT as int);
    assert((-POS_LIMIT * UNIT) as int / UNIT as int == -POS_LIMIT as int);
}

/// Multiplying by `UNIT` and flooring back by `UNIT` is the identity; it lets
/// the unmutated branch use the jitter witness `j == UNIT`.
proof fn lemma_times_unit_div_unit(x: int)
    ensures
        (x * UNIT) / (UNIT as int) == x,
{
    vstd::arithmetic::div_mod::lemma_div_multiples_vanish(x, UNIT as int);
}

impl Mutate for Rgba {
    open spec fn mutate_req(&self, other: &Self, factor: i64, chance: i64, mutation: i64) -> bool {
        &&& self.r.mutate_req(&other.r, factor, chance, mutation)
        &&& self.g.mutate_req(&other.g, factor, chance, mutation)
        &&& self.b.mutate_req(&other.b, factor, chance, mutation)
        &&& self.a.mutate_req(&other.a, factor, chance, mutation)
    }

    open spec fn mutate_post(
        &self,
        other: &Self,
        factor: i64,
        chance: i64,
        mutation: i64,
        r: Self,
    ) -> bool {
        &&& self.r.mutate_post(&other.r, factor, chance, mutation, r.r)
        &&& self.g.mutate_post(&other.g, factor, chance, mutation, r.g)
        &&& self.b.mutate_post(&other.b, factor, chance, mutation, r.b)
        &&& self.a.mutate_post(&other.a, factor, chance, mutation, r.a)
    }

    fn mutate(&self, other: &Self, factor: i64, chance: i64, mutation: i64) -> (r: Self) {
        let cr = self.r.mutate(&other.r, factor, chance, mutation);
        let cg = self.g.mutate(&other.g, factor, chance, mutation);
        let cb = self.b.mutate(&other.b, factor, chance, mutation);
        let ca = self.a.mutate(&other.a, factor, chance, mutation);
        Rgba { r: cr, g: cg, b: cb, a: ca }
    }
}

impl Mutate for Vec2 {
    open spec fn mutate_req(&self, other: &Self, factor: i64, chance: i64, mutation: i64) -> bool {
        &&& self.x.mutate_req(&other.x, factor, chance, mutation)
        &&& self.y.mutate_req(&other.y, factor, chance, mutation)
    }

    open spec fn mutate_post(
        &self,
        other: &Self,
        factor: i64,
        chance: i64,
        mutation: i64,
        r: Self,
    ) -> bool {
        &&& self.x.mutate_post(&other.x, factor, chance, mutation, r.x)
        &&& self.y.mutate_post(&other.y, factor, chance, mutation, r.y)
    }

    fn mutate(&self, other: &Self, factor: i64, chance: i64, mutation: i64) -> (r: Self) {
        let x = self.x.mutate(&other.x, factor, chance, mutation);
        let y = self.y.mutate(&other.y, factor, chance, mutation);
        Vec2 { x, y }
    }
}

/// Mutation bounds: with an even blend and a certain mutation, the offspring
/// value lands within `(a + b) / 2` scaled by `1 +/- m` (all floored), for
/// positive parents.
pub proof fn lemma_mutate_bounds(a: i64, b: i64, m: i64, r: i64)
    requires
        0 < a <= POS_LIMIT,
        0 < b <= POS_LIMIT,
        0 <= m <= UNIT,
        scalar_mutate_post(a as int, b as int, 500, UNIT as int, m as int, r as int),
    ensures
        ((a + b) / 2) * (UNIT - m) / (UNIT as int) <= r,
        r <= ((a + b) / 2) * (UNIT + m) / (UNIT as int),
{
    let blend = blend_spec(a as int, b as int, 500);
    assert(a * 500 + b * (UNIT - 500) == (a + b) * 500) by (nonlinear_arith)
        requires
            UNIT == 1000,
    ;
    assert(((a + b) * 500) / 1000 == (a + b) / 2) by {
        vstd::arithmetic::div_mod::lemma_div_denominator((a + b) * 500, 500, 2);
        vstd::arithmetic::div_mod::lemma_div_multiples_vanish(a + b, 500);
    }
    assert(blend == (a + b) / 2);
    assert(0 <= blend) by {
        vstd::arithmetic::div_mod::lemma_div_pos_is_pos(a + b, 2);
    }
    let j = choose|j: int|
        UNIT - m <= j <= UNIT + m && r == #[trigger] (blend_spec(a as int, b as int, 500) * j) / (
        UNIT as int);
    assert(blend * (UNIT - m) <= blend * j <= blend * (UNIT + m)) by (nonlinear_arith)
        requires
            0 <= blend,
            UNIT - m <= j <= UNIT + m,
    ;
    vstd::arithmetic::div_mod::lemma_div_is_ordered(blend * (UNIT - m), blend * j, UNIT as int);
    vstd::arithmetic::div_mod::lemma_div_is_ordered(blend * j, blend * (UNIT + m), UNIT as int);
}

impl Mutate for Vec<i64> {
    open spec fn mutate_req(&self, other: &Self, factor: i64, chance: i64, mutation: i64) -> bool {
        &&& self@.len() == other@.len()
        &&& forall|k: int|
            0 <= k < self@.len() ==> (#[trigger] self@[k]).mutate_req(
                &other@[k],
                factor,
                chance,
                mutation,
            )
    }

    open spec fn mutate_post(
        &self,
        other: &Self,
        factor: i64,
        chance: i64,
        mutation: i64,
        r: Self,
    ) -> bool {
        &&& r@.len() == self@.len()
        &&& forall|k: int|
            0 <= k < self@.len() ==> (#[trigger] self@[k]).mutate_post(
                &other@[k],
                factor,
                chance,
                mutation,
                r@[k],
            )
    }

    fn mutate(&self, other: &Self, factor: i64, chance: i64, mutation: i64) -> (r: Self) {
        let mut r: Vec<i64> = Vec::new();
        let mut k: usize = 0;
        while k < self.len()
            invariant
                k <= self@.len(),
                self@.len() == other@.len(),
                forall|t: int|
                    0 <= t < self@.len() ==> (#[trigger] self@[t]).mutate_req(
                        &other@[t],
                        factor,
                        chance,
                        mutation,
                    ),
                r@.len() == k,
                forall|t: int|
                    0 <= t < k ==> (#[trigger] self@[t]).mutate_post(
                        &other@[t],
                        factor,
                        chance,
                        mutation,
                        r@[t],
                    ),
            decreases self@.len() - k,
        {
            let a: i64 = self[k];
            let b: i64 = other[k];
            r.push(a.mutate(&b, factor, chance, mutation));
            k = k + 1;
        }
        r
    }
}

impl Mutate for Matrix {
    open spec fn mutate_req(&self, other: &Self, factor: i64, chance: i64, mutation: i64) -> bool {
        &&& self.wf()
        &&& other.wf()
        &&& self.rows == other.rows
        &&& self.cols == other.cols
        &&& self.data.mutate_req(&other.data, factor, chance, mutation)
    }

    open spec fn mutate_post(
        &self,
        other: &Self,
        factor: i64,
        chance: i64,
        mutation: i64,
        r: Self,
    ) -> bool {
        &&& r.rows == self.rows
        &&& r.cols == self.cols
        &&& self.data.mutate_post(&other.data, factor, chance, mutation, r.data)
    }

    fn mutate(&self, other: &Self, factor: i64, chance: i64, mutation: i64) -> (r: Self) {
        let data = self.data.mutate(&other.data, factor, chance, mutation);
        Matrix { rows: self.rows, cols: self.cols, data }
    }
}

} // verus!
