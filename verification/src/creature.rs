//! Creature and motion components, and the gameplay constants.
//!
//! Times are in milliseconds, distances in milli-units. Dimensionless factors
//! are scaled by `UNIT` (see the crate root).

use vstd::prelude::*;

use crate::collision::{body_wf, Body};
use crate::data::{Entity, GameData, Insert};
use crate::draw::{Draw, Rgba};
use crate::mutate::Mutate;
use crate::nn::{Desired, Inputs, Network, Outputs};
use crate::rng::rand_range;
use crate::vec2::{midpoint, Vec2};
use crate::{POS_LIMIT, RADIUS_LIMIT, UNIT, VEL_LIMIT};

verus! {

/// Offspring cap for a vegan pair.
pub const VEGAN_CHILDREN: i64 = 3;
/// Offspring cap for a carnivorous pair.
pub const CARNIVORE_CHILDREN: i64 = 1;
/// Mating cooldown for vegans, in milliseconds.
pub const VEGAN_TIMEOUT: i64 = 6000;
/// Mating cooldown for carnivores, in milliseconds.
pub const CARNIVORE_TIMEOUT: i64 = 16000;
/// Hunger level past which a vegan dies.
pub const VEGAN_STARVE: i64 = 72000;
/// Hunger level past which a carnivore dies.
pub const CARNIVORE_STARVE: i64 = 24000;
/// Hunger relief granted by one meal (eaten food or prey).
pub const FOOD: i64 = 2000;
/// Number of rays in a creature's sensing fan.
pub const RAY_COUNT: usize = 8;
/// Number of discrete movement directions (and network outputs).
pub const DIR_COUNT: usize = 16;
/// Blend weight toward the first parent when mixing traits.
pub const M_FACTOR: i64 = 500;
/// Probability (scaled by `UNIT`) that a blended trait also mutates.
pub const M_CHANCE: i64 = 50;
/// Largest relative jitter (scaled by `UNIT`) a mutation applies.
pub const M_MUTATION: i64 = 100;

/// Tag component marking an entity as edible food.
#[derive(Clone, Copy, Debug, PartialEq, Eq, Structural)]
pub struct Food;

/// A creature's diet, which drives predation and mating rules.
#[derive(Clone, Copy, Debug, PartialEq, Eq, Structural)]
pub enum Kind {
    Vegan,
    Carnivorous,
}

/// Mating cooldown a fresh creature of this kind starts with.
pub open spec fn kind_timeout(kind: Kind) -> i64 {
    match kind {
        Kind::Vegan => VEGAN_TIMEOUT,
        Kind::Carnivorous => CARNIVORE_TIMEOUT,
    }
}

/// Hunger threshold past which a creature of this kind starves.
pub open spec fn kind_starve(kind: Kind) -> i64 {
    match kind {
        Kind::Vegan => VEGAN_STARVE,
        Kind::Carnivorous => CARNIVORE_STARVE,
    }
}

/// Most offspring a pair of this kind can produce at once.
pub open spec fn kind_children(kind: Kind) -> i64 {
    match kind {
        Kind::Vegan => VEGAN_CHILDREN,
        Kind::Carnivorous => CARNIVORE_CHILDREN,
    }
}

/// The living-state component of a creature.
#[derive(Clone, Copy, Debug, PartialEq, Eq, Structural)]
pub struct Creature {
    /// Diet; inherited unchanged from the first parent.
    pub kind: Kind,
    /// Rises with elapsed time, falls on eating; past the kind's starvation
    /// threshold the creature is marked for deletion.
    pub hunger: i64,
    /// Mating cooldown; the creature may reproduce only when it is <= 0.
    pub timeout: i64,
    /// Total time survived, in milliseconds.
    pub life: i64,
}

impl Creature {
    pub fn new(kind: Kind) -> (r: Creature)
        ensures
            r.kind == kind,
            r.hunger == 0,
            r.life == 0,
            r.timeout == kind_timeout(kind),
    {
        let timeout: i64 = match kind {
            Kind::Vegan => VEGAN_TIMEOUT,
            Kind::Carnivorous => CARNIVORE_TIMEOUT,
        };
        Creature { kind, hunger: 0, timeout, life: 0 }
    }
}

/// A 2D position component.
#[derive(Clone, Copy, Debug, PartialEq, Eq, Structural)]
pub struct Position {
    pub position: Vec2,
}

/// Positions the store accepts are bounded, so physics intermediates fit
/// in 128 bits.
pub open spec fn position_wf(p: Position) -> bool {
    -POS_LIMIT <= p.position.x <= POS_LIMIT && -POS_LIMIT <= p.position.y <= POS_LIMIT
}

impl Position {
    pub fn new(x: i64, y: i64) -> (r: Position)
        ensures
            r.position.x == x,
            r.position.y == y,
    {
        Position { position: Vec2::new(x, y) }
    }
}

/// A 2D velocity component, in milli-units per second.
#[derive(Clone, Copy, Debug, PartialEq, Eq, Structural)]
pub struct Velocity {
    pub velocity: Vec2,
}

/// Velocities the store accepts are bounded, so impulse intermediates fit
/// in 128 bits.
pub open spec fn velocity_wf(v: Velocity) -> bool {
    -VEL_LIMIT <= v.velocity.x <= VEL_LIMIT && -VEL_LIMIT <= v.velocity.y <= VEL_LIMIT
}

impl Velocity {
    pub fn new(x: i64, y: i64) -> (r: Velocity)
        ensures
            r.velocity.x == x,
            r.velocity.y == y,
    {
        Velocity { velocity: Vec2::new(x, y) }
    }
}

/// A heading component, in sixteenths of a full turn (one movement-direction
/// step), always reduced into `[0, DIR_COUNT)`.
#[derive(Clone, Copy, Debug, PartialEq, Eq, Structural)]
pub struct Direction {
    pub direction: i64,
}

impl Direction {
    pub fn new(direction: i64) -> (r: Direction)
        ensures
            r.direction == direction,
    {
        Direction { direction }
    }
}

/// Mathematical clamp into `[lo, hi]`.
pub open spec fn clamp3(x: int, lo: int, hi: int) -> int {
    if x < lo {
        lo
    } else if x > hi {
        hi
    } else {
        x
    }
}

/// What an offspring trait value is: some outcome of the mutation operator
/// on the two parent values (even blend weight `M_FACTOR`, chance
/// `M_CHANCE`, jitter `M_MUTATION`), clamped into the trait's invariant
/// range.
pub open spec fn trait_of(pa: int, pb: int, lo: int, hi: int, v: int) -> bool {
    exists|raw: int|
        #[trigger] crate::mutate::scalar_mutate_post(
            pa,
            pb,
            M_FACTOR as int,
            M_CHANCE as int,
            M_MUTATION as int,
            raw,
        ) && v == clamp3(raw, lo, hi)
}

/// Clamps a mutated trait value into `[lo, hi]`, keeping offspring bodies
/// and colours inside their documented invariants.
fn clamp_trait(x: i64, lo: i64, hi: i64) -> (r: i64)
    requires
        lo <= hi,
    ensures
        lo <= r <= hi,
        r == clamp3(x as int, lo as int, hi as int),
{
    if x < lo {
        lo
    } else if x > hi {
        hi
    } else {
        x
    }
}

/// Reproduction: resets both parents' mating cooldown to the first parent's
/// kind-specific constant and queues one to `kind_children` offspring in the
/// deferred buffer — never touching the live arrays mid-pass.
///
/// Each child starts at the parents' midpoint, standing still, with a fresh
/// creature of the first parent's kind, physical traits and colour blended
/// from both parents and jittered by the mutation operator (clamped into
/// their invariants), and a brand-new randomly initialised network —
/// behaviour is deliberately not heritable, only traits are.
pub fn mate(data: &mut GameData, a: Entity, b: Entity)
    requires
        old(data).wf(),
        old(data).sound(),
        a.idx < old(data).entity,
        b.idx < old(data).entity,
        a.idx != b.idx,
        old(data).creatures@[a.idx as int] is Some,
        old(data).creatures@[b.idx as int] is Some,
        old(data).positions@[a.idx as int] is Some,
        old(data).positions@[b.idx as int] is Some,
        old(data).bodies@[a.idx as int] is Some,
        old(data).bodies@[b.idx as int] is Some,
        old(data).draw@[a.idx as int] is Some,
        old(data).draw@[b.idx as int] is Some,
        old(data).entity + old(data).lazy.entity + 3 <= usize::MAX,
    ensures
        final(data).wf(),
        final(data).sound(),
        final(data).entity == old(data).entity,
        final(data).delete@ == old(data).delete@,
        final(data).lazy.remove@ == old(data).lazy.remove@,
        ({
            let ka = old(data).creatures@[a.idx as int]->0.kind;
            let ca = old(data).creatures@[a.idx as int]->0;
            let cb = old(data).creatures@[b.idx as int]->0;
            &&& final(data).creatures@ == old(data).creatures@.update(
                a.idx as int,
                Some(Creature { timeout: kind_timeout(ka), ..ca }),
            ).update(b.idx as int, Some(Creature { timeout: kind_timeout(ka), ..cb }))
            &&& old(data).lazy.entity + 1 <= final(data).lazy.entity <= old(data).lazy.entity
                + kind_children(ka)
            &&& forall|j: int|
                old(data).lazy.entity <= j < final(data).lazy.entity ==> (#[trigger] final(data).lazy.creatures@[j]) == Some(
                    Creature { kind: ka, hunger: 0, timeout: kind_timeout(ka), life: 0 },
                )
            &&& forall|j: int|
                old(data).lazy.entity <= j < final(data).lazy.entity ==> (#[trigger] final(data).lazy.positions@[j]) == Some(
                    Position {
                        position: Vec2 {
                            x: ((old(data).positions@[a.idx as int]->0.position.x + old(
                                data,
                            ).positions@[b.idx as int]->0.position.x) / 2) as i64,
                            y: ((old(data).positions@[a.idx as int]->0.position.y + old(
                                data,
                            ).positions@[b.idx as int]->0.position.y) / 2) as i64,
                        },
                    },
                )
        }),
        final(data).foods@ == old(data).foods@,
        final(data).positions@ == old(data).positions@,
        final(data).velocities@ == old(data).velocities@,
        final(data).directions@ == old(data).directions@,
        final(data).bodies@ == old(data).bodies@,
        final(data).draw@ == old(data).draw@,
        final(data).nns@ == old(data).nns@,
        final(data).inputs@ == old(data).inputs@,
        final(data).outputs@ == old(data).outputs@,
        final(data).desired@ == old(data).desired@,
{
    let ghost pre = *data;
    let ca = *data.get_creature(a.component());
    let kind = ca.kind;
    let timeout: i64 = match kind {
        Kind::Vegan => VEGAN_TIMEOUT,
        Kind::Carnivorous => CARNIVORE_TIMEOUT,
    };
    let mut ca2 = ca;
    ca2.timeout = timeout;
    data.set_creature(a.component(), ca2);
    let cb = *data.get_creature(b.component());
    let mut cb2 = cb;
    cb2.timeout = timeout;
    data.set_creature(b.component(), cb2);

    let max_children: i64 = match kind {
        Kind::Vegan => VEGAN_CHILDREN,
        Kind::Carnivorous => CARNIVORE_CHILDREN,
    };
    let children: i64 = rand_range(1, max_children + 1);
    let ghost mid = *data;
    let mut made: i64 = 0;
    while made < children
        invariant
            0 <= made <= children,
            1 <= children <= 3,
            data.wf(),
            data.sound(),
            a.idx < data.entity,
            b.idx < data.entity,
            data.entity == mid.entity,
            data.delete@ == mid.delete@,
            data.lazy.remove@ == mid.lazy.remove@,
            data.lazy.entity == mid.lazy.entity + made,
            data.entity + data.lazy.entity + 1 <= usize::MAX || made == children,
            mid.entity + mid.lazy.entity + 3 <= usize::MAX,
            data.creatures@ == mid.creatures@,
            data.foods@ == mid.foods@,
            data.positions@ == mid.positions@,
            data.velocities@ == mid.velocities@,
            data.directions@ == mid.directions@,
            data.bodies@ == mid.bodies@,
            data.draw@ == mid.draw@,
            data.nns@ == mid.nns@,
            data.inputs@ == mid.inputs@,
            data.outputs@ == mid.outputs@,
            data.desired@ == mid.desired@,
            data.positions@[a.idx as int] is Some,
            data.positions@[b.idx as int] is Some,
            data.bodies@[a.idx as int] is Some,
            data.bodies@[b.idx as int] is Some,
            data.draw@[a.idx as int] is Some,
            data.draw@[b.idx as int] is Some,
            forall|j: int|
                mid.lazy.entity <= j < data.lazy.entity ==> (#[trigger] data.lazy.creatures@[j])
                    == Some(Creature { kind, hunger: 0, timeout: kind_timeout(kind), life: 0 }),
            forall|j: int|
                mid.lazy.entity <= j < data.lazy.entity ==> (#[trigger] data.lazy.positions@[j])
                    == Some(
                    Position {
                        position: Vec2 {
                            x: ((mid.positions@[a.idx as int]->0.position.x + mid.positions@[b.idx
                                as int]->0.position.x) / 2) as i64,
                            y: ((mid.positions@[a.idx as int]->0.position.y + mid.positions@[b.idx
                                as int]->0.position.y) / 2) as i64,
                        },
                    },
                ),
            forall|j: int|
                mid.lazy.entity <= j < data.lazy.entity ==> (#[trigger] data.lazy.velocities@[j])
                    == Some(Velocity { velocity: Vec2 { x: 0, y: 0 } }),
            forall|j: int|
                mid.lazy.entity <= j < data.lazy.entity ==> (#[trigger] data.lazy.directions@[j])
                    == Some(Direction { direction: 0 }),
            forall|j: int|
                mid.lazy.entity <= j < data.lazy.entity ==> ((#[trigger] data.lazy.bodies@[j]) is Some
                    && ({
                    let child = data.lazy.bodies@[j]->0;
                    let pa = mid.bodies@[a.idx as int]->0;
                    let pb = mid.bodies@[b.idx as int]->0;
                    &&& body_wf(child)
                    &&& trait_of(pa.radius as int, pb.radius as int, 1, RADIUS_LIMIT as int, child.radius as int)
                    &&& trait_of(pa.mass as int, pb.mass as int, 0, POS_LIMIT as int, child.mass as int)
                    &&& trait_of(pa.restitution as int, pb.restitution as int, 0, UNIT as int, child.restitution as int)
                })),
            forall|j: int|
                mid.lazy.entity <= j < data.lazy.entity ==> ((#[trigger] data.lazy.draw@[j]) is Some
                    && ({
                    let child = data.lazy.draw@[j]->0.color;
                    let pa = mid.draw@[a.idx as int]->0.color;
                    let pb = mid.draw@[b.idx as int]->0.color;
                    &&& trait_of(pa.r as int, pb.r as int, 0, UNIT as int, child.r as int)
                    &&& trait_of(pa.g as int, pb.g as int, 0, UNIT as int, child.g as int)
                    &&& trait_of(pa.b as int, pb.b as int, 0, UNIT as int, child.b as int)
                    &&& trait_of(pa.a as int, pb.a as int, 0, UNIT as int, child.a as int)
                })),
            forall|j: int|
                mid.lazy.entity <= j < data.lazy.entity ==> ((#[trigger] data.lazy.nns@[j]) is Some
                    && ({
                    let n = data.lazy.nns@[j]->0;
                    n.wf() && n.input_len() == 2 * RAY_COUNT && n.output_len() == DIR_COUNT
                })),
            forall|j: int|
                mid.lazy.entity <= j < data.lazy.entity ==> ((#[trigger] data.lazy.inputs@[j]) is Some
                    && data.lazy.inputs@[j]->0.input@ =~= Seq::new((2 * RAY_COUNT) as nat, |t: int| 0i64)),
            forall|j: int|
                mid.lazy.entity <= j < data.lazy.entity ==> ((#[trigger] data.lazy.outputs@[j]) is Some
                    && data.lazy.outputs@[j]->0.output@ =~= Seq::new(DIR_COUNT as nat, |t: int| 0i64)),
            forall|j: int|
                mid.lazy.entity <= j < data.lazy.entity ==> ((#[trigger] data.lazy.desired@[j]) is Some
                    && data.lazy.desired@[j]->0.desired@ =~= Seq::new(DIR_COUNT as nat, |t: int| 0i64)),
        decreases children - made,
    {
        let apos = data.get_position(a.component()).position;
        let bpos = data.get_position(b.component()).position;
        let x = midpoint(apos.x, bpos.x);
        let y = midpoint(apos.y, bpos.y);
        let abody = *data.get_body(a.component());
        let bbody = *data.get_body(b.component());
        let acolor = data.get_draw(a.component()).color;
        let bcolor = data.get_draw(b.component()).color;
        let radius = clamp_trait(
            abody.radius.mutate(&bbody.radius, M_FACTOR, M_CHANCE, M_MUTATION),
            1,
            RADIUS_LIMIT,
        );
        let mass = clamp_trait(
            abody.mass.mutate(&bbody.mass, M_FACTOR, M_CHANCE, M_MUTATION),
            0,
            POS_LIMIT,
        );
        let restitution = clamp_trait(
            abody.restitution.mutate(&bbody.restitution, M_FACTOR, M_CHANCE, M_MUTATION),
            0,
            UNIT,
        );
        let color = acolor.mutate(&bcolor, M_FACTOR, M_CHANCE, M_MUTATION);
        let color = Rgba {
            r: clamp_trait(color.r, 0, UNIT),
            g: clamp_trait(color.g, 0, UNIT),
            b: clamp_trait(color.b, 0, UNIT),
            a: clamp_trait(color.a, 0, UNIT),
        };
        let e = data.lazy.add_entity();
        data.lazy.insert(e, Creature::new(kind));
        data.lazy.insert(e, Position::new(x, y));
        data.lazy.insert(e, Velocity::new(0, 0));
        data.lazy.insert(e, Direction::new(0));
        data.lazy.insert(e, Body::new(radius, mass, restitution));
        data.lazy.insert(e, Draw::new(color));
        let mut layers: Vec<usize> = Vec::new();
        layers.push(2 * RAY_COUNT);
        layers.push(24);
        layers.push(20);
        layers.push(DIR_COUNT);
        data.lazy.insert(e, Network::new(&layers));
        data.lazy.insert(e, Inputs::new(2 * RAY_COUNT));
        data.lazy.insert(e, Outputs::new(DIR_COUNT));
        data.lazy.insert(e, Desired::new(DIR_COUNT));
        made = made + 1;
    }
}

} // verus!
