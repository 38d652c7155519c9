//! Population seeding and the per-tick control flow: ageing, commits at the
//! phase boundaries, physics, sensing, inference and action, strictly in
//! sequence on the single shared store.

use vstd::prelude::*;

use crate::collision::{input_system, output_system, physics_system, Body};
use crate::creature::{
    kind_starve, Creature, Direction, Food, Kind, Position, Velocity, DIR_COUNT, RAY_COUNT,
};
use crate::data::{Entity, GameData, Has, Insert};
use crate::draw::{rgba_wf, Draw, Rgba};
use crate::nn::{nn_system, Desired, Inputs, Network, Outputs};
use crate::rng::rand_range;
use crate::vec2::Vec2;
use crate::{HEIGHT, UNIT, WIDTH};

verus! {

/// Saturation bound for the ever-growing per-creature clocks.
pub const CLOCK_LIMIT: i64 = 1000000000000000;

/// A clock value moved by `dt`, saturating far beyond any plausible run.
pub open spec fn clocked(v: int, dt: int) -> int {
    if v + dt > CLOCK_LIMIT {
        CLOCK_LIMIT as int
    } else if v + dt < -CLOCK_LIMIT {
        -CLOCK_LIMIT as int
    } else {
        v + dt
    }
}

fn clock_add(v: i64, dt: i64) -> (r: i64)
    requires
        -10000000 <= dt <= 10000000,
    ensures
        r == clocked(v as int, dt as int),
{
    if v > CLOCK_LIMIT - dt {
        CLOCK_LIMIT
    } else if v < -CLOCK_LIMIT - dt {
        -CLOCK_LIMIT
    } else {
        v + dt
    }
}

/// The ageing pass: every listed creature's mating cooldown counts down,
/// its life and hunger count up, and a creature whose hunger passes its
/// kind's starvation threshold is marked for deletion. Afterwards, every
/// listed creature still visible is below its threshold. Only the creature
/// rows and the deletion marks change, and marks are only added.
pub fn age_system(data: &mut GameData, creatures: &Vec<Entity>, dt: i64)
    requires
        old(data).wf(),
        old(data).sound(),
        forall|k: int|
            0 <= k < creatures@.len() ==> (#[trigger] creatures@[k]).idx < old(data).entity,
        0 <= dt <= 10000000,
    ensures
        final(data).wf(),
        final(data).sound(),
        final(data).entity == old(data).entity,
        final(data).foods@ == old(data).foods@,
        final(data).positions@ == old(data).positions@,
        final(data).velocities@ == old(data).velocities@,
        final(data).directions@ == old(data).directions@,
        final(data).bodies@ == old(data).bodies@,
        final(data).draw@ == old(data).draw@,
        final(data).nns@ == old(data).nns@,
        final(data).inputs@ == old(data).inputs@,
        final(data).outputs@ == old(data).outputs@,
        final(data).desired@ == old(data).desired@,
        lazy_unchanged(*old(data), *final(data)),
        final(data).delete@.len() == old(data).delete@.len(),
        forall|i: int|
            0 <= i < old(data).entity && old(data).delete@[i] ==> final(data).delete@[i],
        forall|k: int|
            0 <= k < creatures@.len() ==> {
                let i = (#[trigger] creatures@[k]).idx as int;
                final(data).creatures@[i] is Some && !final(data).delete@[i] ==> final(data).creatures@[i]->0.hunger <= kind_starve(final(data).creatures@[i]->0.kind)
            },
        final(data).creatures@.len() == old(data).creatures@.len(),
        forall|k: int|
            0 <= k < creatures@.len() ==> ({
                let i = (#[trigger] creatures@[k]).idx as int;
                old(data).creatures@[i] is Some && clocked(
                    old(data).creatures@[i]->0.hunger as int,
                    dt as int,
                ) > kind_starve(old(data).creatures@[i]->0.kind) ==> final(data).delete@[i]
            }),
{
    let ghost pre = *data;
    let mut k: usize = 0;
    while k < creatures.len()
        invariant
            k <= creatures@.len(),
            forall|j: int|
                0 <= j < creatures@.len() ==> (#[trigger] creatures@[j]).idx < pre.entity,
            0 <= dt <= 10000000,
            data.wf(),
            data.sound(),
            data.entity == pre.entity,
            data.foods@ == pre.foods@,
            data.positions@ == pre.positions@,
            data.velocities@ == pre.velocities@,
            data.directions@ == pre.directions@,
            data.bodies@ == pre.bodies@,
            data.draw@ == pre.draw@,
            data.nns@ == pre.nns@,
            data.inputs@ == pre.inputs@,
            data.outputs@ == pre.outputs@,
            data.desired@ == pre.desired@,
            lazy_unchanged(pre, *data),
            data.delete@.len() == pre.delete@.len(),
            data.creatures@.len() == pre.creatures@.len(),
            forall|i: int| 0 <= i < pre.entity && pre.delete@[i] ==> data.delete@[i],
            forall|j: int|
                0 <= j < k ==> {
                    let i = (#[trigger] creatures@[j]).idx as int;
                    data.creatures@[i] is Some && !data.delete@[i] ==> data.creatures@[i]->0.hunger
                        <= kind_starve(data.creatures@[i]->0.kind)
                },
            forall|i: int|
                0 <= i < pre.creatures@.len() ==> ((#[trigger] data.creatures@[i]) is Some
                    <==> pre.creatures@[i] is Some),
            forall|i: int|
                0 <= i < pre.creatures@.len() && #[trigger] data.creatures@[i]
                    != pre.creatures@[i] ==> (pre.creatures@[i] is Some
                    && data.creatures@[i] is Some && data.creatures@[i]->0.kind
                    == pre.creatures@[i]->0.kind && (clocked(
                    pre.creatures@[i]->0.hunger as int,
                    dt as int,
                ) > kind_starve(pre.creatures@[i]->0.kind) ==> data.delete@[i])),
            forall|j: int|
                0 <= j < k ==> ({
                    let i = (#[trigger] creatures@[j]).idx as int;
                    pre.creatures@[i] is Some && clocked(
                        pre.creatures@[i]->0.hunger as int,
                        dt as int,
                    ) > kind_starve(pre.creatures@[i]->0.kind) ==> data.delete@[i]
                }),
        decreases creatures@.len() - k,
    {
        let e = creatures[k];
        k = k + 1;
        if !data.has(e.component::<Creature>()) {
            continue ;
        }
        let c = *data.get_creature(e.component());
        let mut c2 = c;
        c2.timeout = clock_add(c.timeout, -dt);
        c2.life = clock_add(c.life, dt);
        c2.hunger = clock_add(c.hunger, dt);
        data.set_creature(e.component(), c2);
        let starve: i64 = match c2.kind {
            Kind::Carnivorous => crate::creature::CARNIVORE_STARVE,
            Kind::Vegan => crate::creature::VEGAN_STARVE,
        };
        if c2.hunger > starve {
            data.delete(e);
        }
    }
}

/// The deferred buffer holds the same queued rows and requests in both.
pub open spec fn lazy_unchanged(a: GameData, b: GameData) -> bool {
    crate::lazy::lazy_eq(a.lazy, b.lazy)
}

/// Seeds one food item at a random spot, with a random bounded body.
/// Eager creation: the row is live immediately.
pub fn seed_food(data: &mut GameData) -> (e: Entity)
    requires
        old(data).wf(),
        old(data).sound(),
        old(data).entity < usize::MAX,
    ensures
        final(data).wf(),
        final(data).sound(),
        final(data).entity == old(data).entity + 1,
        e.idx == old(data).entity,
        final(data).foods@[e.idx as int] is Some,
        final(data).positions@[e.idx as int] is Some,
        final(data).velocities@[e.idx as int] is Some,
        final(data).bodies@[e.idx as int] is Some,
        final(data).draw@[e.idx as int] is Some,
        ({
            let p = final(data).positions@[e.idx as int]->0.position;
            0 <= p.x < WIDTH && 0 <= p.y < HEIGHT
        }),
        final(data).velocities@[e.idx as int]->0.velocity == (Vec2 { x: 0, y: 0 }),
        ({
            let b = final(data).bodies@[e.idx as int]->0;
            10000 <= b.radius < 20000 && 1 <= b.mass <= UNIT && 0 <= b.restitution <= UNIT
        }),
        rgba_wf(final(data).draw@[e.idx as int]->0.color),
        lazy_unchanged(*old(data), *final(data)),
{
    let e = data.add_entity();
    data.insert(e, Food);
    data.insert(e, Position::new(rand_range(0, WIDTH), rand_range(0, HEIGHT)));
    data.insert(e, Velocity::new(0, 0));
    let radius = rand_range(10000, 20000);
    let mass = rand_range(1, UNIT);
    let restitution = rand_range(0, UNIT + 1);
    data.insert(e, Body::new(radius, mass, restitution));
    let grey = rand_range(0, UNIT + 1);
    data.insert(e, Draw::new(Rgba { r: grey, g: grey, b: grey, a: UNIT }));
    e
}

/// Seeds one creature of the given kind at a random spot: a fresh creature
/// row, a kind-appropriate random body, a kind-tinted random colour, and a
/// brand-new randomly initialised decision network with its input and
/// output vectors. Eager creation: the row is live immediately.
pub fn seed_creature(data: &mut GameData, kind: Kind) -> (e: Entity)
    requires
        old(data).wf(),
        old(data).sound(),
        old(data).entity < usize::MAX,
    ensures
        final(data).wf(),
        final(data).sound(),
        final(data).entity == old(data).entity + 1,
        e.idx == old(data).entity,
        final(data).creatures@[e.idx as int] is Some,
        final(data).creatures@[e.idx as int]->0 == (Creature { kind, hunger: 0, timeout: crate::creature::kind_timeout(kind), life: 0 }),
        final(data).positions@[e.idx as int] is Some,
        ({
            let p = final(data).positions@[e.idx as int]->0.position;
            0 <= p.x < WIDTH && 0 <= p.y < HEIGHT
        }),
        final(data).velocities@[e.idx as int] is Some,
        final(data).velocities@[e.idx as int]->0.velocity == (Vec2 { x: 0, y: 0 }),
        final(data).directions@[e.idx as int] is Some,
        final(data).directions@[e.idx as int]->0.direction == 0,
        final(data).bodies@[e.idx as int] is Some,
        ({
            let b = final(data).bodies@[e.idx as int]->0;
            &&& (kind == Kind::Vegan ==> 15000 <= b.radius <= 30000)
            &&& (kind == Kind::Carnivorous ==> 7000 <= b.radius <= 14000)
            &&& 1 <= b.mass <= UNIT
            &&& 0 <= b.restitution <= UNIT
        }),
        final(data).draw@[e.idx as int] is Some,
        rgba_wf(final(data).draw@[e.idx as int]->0.color),
        final(data).nns@[e.idx as int] is Some,
        ({
            let n = final(data).nns@[e.idx as int]->0;
            n.wf() && n.input_len() == 2 * RAY_COUNT && n.output_len() == DIR_COUNT
        }),
        final(data).inputs@[e.idx as int] is Some,
        final(data).inputs@[e.idx as int]->0.input@.len() == 2 * RAY_COUNT,
        final(data).outputs@[e.idx as int] is Some,
        final(data).outputs@[e.idx as int]->0.output@.len() == DIR_COUNT,
        final(data).desired@[e.idx as int] is Some,
        final(data).desired@[e.idx as int]->0.desired@.len() == DIR_COUNT,
        lazy_unchanged(*old(data), *final(data)),
{
    let e = data.add_entity();
    data.insert(e, Creature::new(kind));
    data.insert(e, Position::new(rand_range(0, WIDTH), rand_range(0, HEIGHT)));
    data.insert(e, Velocity::new(0, 0));
    data.insert(e, Direction::new(0));
    let radius: i64 = match kind {
        Kind::Vegan => rand_range(15000, 30001),
        Kind::Carnivorous => rand_range(7000, 14001),
    };
    let mass = rand_range(1, UNIT);
    let restitution = rand_range(0, UNIT + 1);
    data.insert(e, Body::new(radius, mass, restitution));
    let color = match kind {
        Kind::Vegan => Rgba { r: 0, g: rand_range(0, UNIT + 1), b: rand_range(0, 201), a: UNIT },
        Kind::Carnivorous => Rgba {
            r: rand_range(0, UNIT + 1),
            g: 0,
            b: rand_range(0, 201),
            a: UNIT,
        },
    };
    data.insert(e, Draw::new(color));
    let mut layers: Vec<usize> = Vec::new();
    layers.push(2 * RAY_COUNT);
    layers.push(24);
    layers.push(20);
    layers.push(DIR_COUNT);
    data.insert(e, Network::new(&layers));
    data.insert(e, Inputs::new(2 * RAY_COUNT));
    data.insert(e, Outputs::new(DIR_COUNT));
    data.insert(e, Desired::new(DIR_COUNT));
    e
}

/// Whether some entity in `s` carries the row index `i`.
pub open spec fn contains_idx(s: Seq<Entity>, i: int) -> bool {
    exists|j: int| 0 <= j < s.len() && (#[trigger] s[j]).idx == i
}

/// Removes from `list` exactly the entities that appear in `removed`: what
/// stays was there before and is not removed, and everything not removed
/// stays.
pub fn prune(list: &mut Vec<Entity>, removed: &Vec<Entity>)
    ensures
        final(list)@.len() <= old(list)@.len(),
        forall|k: int|
            0 <= k < final(list)@.len() ==> old(list)@.contains(#[trigger] final(list)@[k])
                && !contains_idx(removed@, final(list)@[k].idx as int),
        forall|k: int|
            0 <= k < old(list)@.len() && !contains_idx(
                removed@,
                (#[trigger] old(list)@[k]).idx as int,
            ) ==> final(list)@.contains(old(list)@[k]),
{
    let ghost pre = list@;
    let mut kept: Vec<Entity> = Vec::new();
    let mut k: usize = 0;
    while k < list.len()
        invariant
            k <= pre.len(),
            list@ == pre,
            kept@.len() <= k,
            forall|t: int|
                0 <= t < kept@.len() ==> pre.contains(#[trigger] kept@[t]) && !contains_idx(
                    removed@,
                    kept@[t].idx as int,
                ),
            forall|t: int|
                0 <= t < k && !contains_idx(removed@, (#[trigger] pre[t]).idx as int)
                    ==> kept@.contains(pre[t]),
        decreases pre.len() - k,
    {
        let e = list[k];
        let ghost kept0 = kept@;
        let mut gone: bool = false;
        let mut j: usize = 0;
        while j < removed.len()
            invariant
                j <= removed@.len(),
                gone == (exists|t: int| 0 <= t < j && (#[trigger] removed@[t]).idx == e.idx),
            decreases removed@.len() - j,
        {
            if removed[j].idx == e.idx {
                gone = true;
            }
            j = j + 1;
        }
        proof {
            assert(gone == contains_idx(removed@, e.idx as int)) by {
                if contains_idx(removed@, e.idx as int) {
                    let w = choose|j: int|
                        0 <= j < removed@.len() && (#[trigger] removed@[j]).idx == e.idx as int;
                    assert(0 <= w < removed@.len() && removed@[w].idx == e.idx);
                }
            }
        }
        if !gone {
            kept.push(e);
            proof {
                assert(pre[k as int] == e);
                assert(kept@.last() == e);
            }
        }
        proof {
            assert forall|t: int|
                0 <= t < k + 1 && !contains_idx(removed@, (#[trigger] pre[t]).idx as int) implies kept@.contains(
                pre[t],
            ) by {
                if t == k as int {
                    assert(kept@[kept@.len() - 1] == pre[t]);
                } else {
                    assert(kept0.contains(pre[t]));
                    let w = choose|u: int| 0 <= u < kept0.len() && #[trigger] kept0[u] == pre[t];
                    assert(kept@[w] == pre[t]);
                }
            }
        }
        k = k + 1;
    }
    proof {
        assert(forall|t: int| 0 <= t < kept@.len() ==> pre.contains(#[trigger] kept@[t]));
    }
    *list = kept;
}

/// One simulation tick, the phases strictly in sequence: ageing and
/// starvation marking; a commit that clears the dead; the physics and
/// collision pass over creatures and foods together (which may queue
/// offspring and mark prey or eaten food); a second commit that splices the
/// offspring in and clears the eaten, with the caller-held entity lists
/// pruned and extended accordingly; then sensing, network inference and
/// action mapping for the creatures. `dt` is the elapsed time handed in by
/// the driver, in milliseconds.
pub fn tick(data: &mut GameData, creatures: &mut Vec<Entity>, foods: &mut Vec<Entity>, dt: i64)
    requires
        old(data).wf(),
        old(data).sound(),
        old(data).entity + old(data).lazy.entity <= usize::MAX,
        forall|k: int|
            0 <= k < old(creatures)@.len() ==> (#[trigger] old(creatures)@[k]).idx < old(
                data,
            ).entity,
        forall|k: int|
            0 <= k < old(foods)@.len() ==> (#[trigger] old(foods)@[k]).idx < old(data).entity,
        0 <= dt <= 10000000,
    ensures
        final(data).wf(),
        final(data).sound(),
        final(data).entity >= old(data).entity,
        final(data).entity + final(data).lazy.entity <= usize::MAX,
        forall|k: int|
            0 <= k < final(creatures)@.len() ==> (#[trigger] final(creatures)@[k]).idx < final(data).entity,
        forall|k: int|
            0 <= k < final(foods)@.len() ==> (#[trigger] final(foods)@[k]).idx < final(data).entity,
        forall|k: int|
            0 <= k < old(creatures)@.len() ==> ({
                let i = (#[trigger] old(creatures)@[k]).idx as int;
                old(data).creatures@[i] is Some && clocked(
                    old(data).creatures@[i]->0.hunger as int,
                    dt as int,
                ) > kind_starve(old(data).creatures@[i]->0.kind) ==> final(data).creatures@[i] is None
            }),
{
    age_system(data, creatures, dt);
    let out = data.commit();
    prune(creatures, &out.1);
    prune(foods, &out.1);

    let mut everyone: Vec<Entity> = Vec::new();
    let mut k: usize = 0;
    while k < creatures.len()
        invariant
            k <= creatures@.len(),
            forall|t: int|
                0 <= t < creatures@.len() ==> (#[trigger] creatures@[t]).idx < data.entity,
            forall|t: int|
                0 <= t < everyone@.len() ==> (#[trigger] everyone@[t]).idx < data.entity,
        decreases creatures@.len() - k,
    {
        everyone.push(creatures[k]);
        k = k + 1;
    }
    let mut k2: usize = 0;
    while k2 < foods.len()
        invariant
            k2 <= foods@.len(),
            forall|t: int| 0 <= t < foods@.len() ==> (#[trigger] foods@[t]).idx < data.entity,
            forall|t: int|
                0 <= t < everyone@.len() ==> (#[trigger] everyone@[t]).idx < data.entity,
        decreases foods@.len() - k2,
    {
        everyone.push(foods[k2]);
        k2 = k2 + 1;
    }

    physics_system(data, &everyone, dt);

    let out2 = data.commit();
    prune(creatures, &out2.1);
    prune(foods, &out2.1);
    let mut k3: usize = 0;
    while k3 < out2.0.len()
        invariant
            k3 <= out2.0@.len(),
            forall|t: int|
                0 <= t < out2.0@.len() ==> (#[trigger] out2.0@[t]).idx < data.entity,
            forall|t: int|
                0 <= t < creatures@.len() ==> (#[trigger] creatures@[t]).idx < data.entity,
        decreases out2.0@.len() - k3,
    {
        creatures.push(out2.0[k3]);
        k3 = k3 + 1;
    }

    let mut sensed: Vec<Entity> = Vec::new();
    let mut k4: usize = 0;
    while k4 < creatures.len()
        invariant
            k4 <= creatures@.len(),
            forall|t: int|
                0 <= t < creatures@.len() ==> (#[trigger] creatures@[t]).idx < data.entity,
            forall|t: int|
                0 <= t < sensed@.len() ==> (#[trigger] sensed@[t]).idx < data.entity,
        decreases creatures@.len() - k4,
    {
        sensed.push(creatures[k4]);
        k4 = k4 + 1;
    }
    let mut k5: usize = 0;
    while k5 < foods.len()
        invariant
            k5 <= foods@.len(),
            forall|t: int| 0 <= t < foods@.len() ==> (#[trigger] foods@[t]).idx < data.entity,
            forall|t: int|
                0 <= t < sensed@.len() ==> (#[trigger] sensed@[t]).idx < data.entity,
        decreases foods@.len() - k5,
    {
        sensed.push(foods[k5]);
        k5 = k5 + 1;
    }

    input_system(data, creatures, &sensed);
    nn_system(data, creatures);
    output_system(data, creatures);
}

} // verus!
