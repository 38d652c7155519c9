use evosim::collision::{
    argmax, correct, dir16, gen_manifold, physics_system, raycast, resolve, wrap_coord, Body, Ray,
    VIEW_DISTANCE,
};
use evosim::creature::{
    Creature, Direction, Food, Kind, Position, Velocity, FOOD, VEGAN_TIMEOUT,
};
use evosim::data::{Entity, GameData, Has, Insert};
use evosim::draw::{Draw, Rgba};
use evosim::vec2::Vec2;
use evosim::{RADIUS, UNIT, WIDTH};

fn body_entity(data: &mut GameData, x: i64, y: i64, radius: i64, mass: i64, rest: i64) -> Entity {
    let e = data.add_entity();
    data.insert(e, Position::new(x, y));
    data.insert(e, Velocity::new(0, 0));
    data.insert(e, Body::new(radius, mass, rest));
    e
}

fn creature_entity(
    data: &mut GameData,
    kind: Kind,
    x: i64,
    y: i64,
    radius: i64,
    timeout: i64,
) -> Entity {
    let e = body_entity(data, x, y, radius, 1000, 500);
    data.insert(
        e,
        Creature { kind, hunger: 0, timeout, life: 0 },
    );
    data.insert(e, Direction::new(0));
    data.insert(e, Draw::new(Rgba { r: 500, g: 500, b: 500, a: 1000 }));
    e
}

#[test]
fn manifold_reports_overlap_with_exact_penetration() {
    // radii 10 and 20 units, centres 25 units apart: overlapping by 5
    let mut data = GameData::new();
    let a = body_entity(&mut data, 0, 0, 10000, 1000, 500);
    let b = body_entity(&mut data, 25000, 0, 20000, 1000, 500);
    let m = gen_manifold(&data, a, b).expect("overlapping pair must collide");
    assert_eq!(m.penetration, 5000);
    assert_eq!(m.dist, 25000);
    assert_eq!(m.n, Vec2 { x: 25000, y: 0 });
}

#[test]
fn manifold_none_when_apart() {
    let mut data = GameData::new();
    let a = body_entity(&mut data, 0, 0, 10000, 1000, 500);
    let b = body_entity(&mut data, 30001, 0, 20000, 1000, 500);
    assert!(gen_manifold(&data, a, b).is_none());
}

#[test]
fn manifold_same_center_fallback() {
    let mut data = GameData::new();
    let a = body_entity(&mut data, 7, 9, 10000, 1000, 500);
    let b = body_entity(&mut data, 7, 9, 20000, 1000, 500);
    let m = gen_manifold(&data, a, b).expect("coincident centres still collide");
    assert_eq!(m.n, Vec2 { x: 1, y: 0 });
    assert_eq!(m.dist, 1);
    assert_eq!(m.penetration, 10000);
}

#[test]
fn resolve_elastic_head_on_reflects_and_conserves_momentum() {
    let mut data = GameData::new();
    let a = body_entity(&mut data, 0, 0, 10000, 1000, 1000);
    let b = body_entity(&mut data, 25000, 0, 20000, 1000, 1000);
    data.set_velocity(a.component(), Velocity::new(100000, 0));
    data.set_velocity(b.component(), Velocity::new(-100000, 0));
    let m = gen_manifold(&data, a, b).unwrap();
    resolve(&mut data, &m);
    let va = data.get_velocity(a.component()).velocity;
    let vb = data.get_velocity(b.component()).velocity;
    // equal masses, restitution 1: a perfect exchange
    assert_eq!(va, Vec2 { x: -100000, y: 0 });
    assert_eq!(vb, Vec2 { x: 100000, y: 0 });
    // equal masses: momentum (sum of velocities) unchanged
    assert_eq!(va.x + vb.x, 0);
    assert_eq!(va.y + vb.y, 0);
}

#[test]
fn resolve_conserves_momentum_with_unequal_masses() {
    let mut data = GameData::new();
    // masses 0.5 and 1.0
    let a = body_entity(&mut data, 0, 0, 10000, 500, 1000);
    let b = body_entity(&mut data, 25000, 0, 20000, 1000, 1000);
    data.set_velocity(a.component(), Velocity::new(100000, 0));
    data.set_velocity(b.component(), Velocity::new(-100000, 0));
    let m = gen_manifold(&data, a, b).unwrap();
    resolve(&mut data, &m);
    let va = data.get_velocity(a.component()).velocity;
    let vb = data.get_velocity(b.component()).velocity;
    // total momentum (mass-weighted, in milli-mass units) is unchanged
    assert_eq!(500 * va.x + 1000 * vb.x, 500 * 100000 + 1000 * -100000);
    assert_eq!(500 * va.y + 1000 * vb.y, 0);
    // the pair now separates, no faster than it approached
    assert!(vb.x >= va.x);
    assert!(vb.x - va.x <= 200000);
}

#[test]
fn resolve_skips_separating_pair() {
    let mut data = GameData::new();
    let a = body_entity(&mut data, 0, 0, 10000, 1000, 1000);
    let b = body_entity(&mut data, 25000, 0, 20000, 1000, 1000);
    data.set_velocity(a.component(), Velocity::new(-5000, 0));
    data.set_velocity(b.component(), Velocity::new(5000, 0));
    let m = gen_manifold(&data, a, b).unwrap();
    resolve(&mut data, &m);
    assert_eq!(data.get_velocity(a.component()).velocity, Vec2 { x: -5000, y: 0 });
    assert_eq!(data.get_velocity(b.component()).velocity, Vec2 { x: 5000, y: 0 });
}

#[test]
fn correct_pushes_overlapping_pair_apart() {
    let mut data = GameData::new();
    let a = body_entity(&mut data, 0, 0, 10000, 1000, 500);
    let b = body_entity(&mut data, 25000, 0, 20000, 1000, 500);
    let m = gen_manifold(&data, a, b).unwrap();
    correct(&mut data, &m);
    let pa = data.get_position(a.component()).position;
    let pb = data.get_position(b.component()).position;
    // overlap 5, slop 0.02, percent 0.2, equal masses: 498 milli-units each
    assert_eq!(pa, Vec2 { x: -498, y: 0 });
    assert_eq!(pb, Vec2 { x: 25498, y: 0 });
}

#[test]
fn raycast_reports_target_dead_ahead() {
    let mut data = GameData::new();
    let shooter = body_entity(&mut data, 0, 0, 5000, 1000, 500);
    let target = body_entity(&mut data, 500000, 0, 10000, 1000, 500);
    let ray = Ray {
        p1: Vec2 { x: 0, y: 0 },
        p2: Vec2 { x: VIEW_DISTANCE, y: 0 },
    };
    let hit = raycast(&data, &ray, shooter, &vec![shooter, target]);
    let (e, t) = hit.expect("a target on the segment must be hit");
    assert_eq!(e.idx, target.idx);
    // 500 units along a 10000-unit ray: 5% of the scale
    assert_eq!(t, 50);
}

#[test]
fn raycast_never_reports_target_behind() {
    let mut data = GameData::new();
    let shooter = body_entity(&mut data, 0, 0, 5000, 1000, 500);
    let behind = body_entity(&mut data, -500000, 0, 10000, 1000, 500);
    let ray = Ray {
        p1: Vec2 { x: 0, y: 0 },
        p2: Vec2 { x: VIEW_DISTANCE, y: 0 },
    };
    assert!(raycast(&data, &ray, shooter, &vec![shooter, behind]).is_none());
}

#[test]
fn raycast_picks_nearest_of_two() {
    let mut data = GameData::new();
    let shooter = body_entity(&mut data, 0, 0, 5000, 1000, 500);
    let far = body_entity(&mut data, 900000, 0, 10000, 1000, 500);
    let near = body_entity(&mut data, 300000, 0, 10000, 1000, 500);
    let ray = Ray {
        p1: Vec2 { x: 0, y: 0 },
        p2: Vec2 { x: VIEW_DISTANCE, y: 0 },
    };
    let (e, _) = raycast(&data, &ray, shooter, &vec![shooter, far, near]).unwrap();
    assert_eq!(e.idx, near.idx);
}

#[test]
fn predation_deletes_vegan_and_feeds_carnivore() {
    let mut data = GameData::new();
    let vegan = creature_entity(&mut data, Kind::Vegan, 0, 0, 10000, 1000);
    let carn = creature_entity(&mut data, Kind::Carnivorous, 25000, 0, 20000, 1000);
    let before = data.entity;
    physics_system(&mut data, &vec![vegan, carn], 0);
    assert!(!data.has(vegan.component::<Creature>()));
    let hunger = data.get_creature(carn.component()).hunger;
    assert_eq!(hunger, -FOOD);
    let (created, removed) = data.commit();
    assert!(created.is_empty());
    assert!(removed.iter().any(|e| e.idx == vegan.idx));
    assert_eq!(data.entity, before);
}

#[test]
fn reproduction_queues_offspring_and_resets_timeouts() {
    let mut data = GameData::new();
    let a = creature_entity(&mut data, Kind::Vegan, 0, 0, 10000, 0);
    let b = creature_entity(&mut data, Kind::Vegan, 25000, 0, 20000, -5);
    let before = data.entity;
    physics_system(&mut data, &vec![a, b], 0);
    assert_eq!(data.get_creature(a.component()).timeout, VEGAN_TIMEOUT);
    assert_eq!(data.get_creature(b.component()).timeout, VEGAN_TIMEOUT);
    let (created, removed) = data.commit();
    assert!(removed.is_empty());
    assert!(!created.is_empty());
    assert!(data.entity > before);
    let child = created[0];
    let cc = *data.get_creature(child.component());
    assert_eq!(cc.kind, Kind::Vegan);
    assert_eq!(cc.timeout, VEGAN_TIMEOUT);
    // offspring appears at the parents' midpoint
    let cp = data.get_position(child.component()).position;
    assert_eq!(cp, Vec2 { x: 12500, y: 0 });
}

#[test]
fn separating_pair_triggers_no_side_effects() {
    // overlapping, eligible to mate — but moving apart, so the pass must
    // trigger nothing from this pair this tick
    let mut data = GameData::new();
    let a = creature_entity(&mut data, Kind::Vegan, 0, 0, 10000, 0);
    let b = creature_entity(&mut data, Kind::Vegan, 25000, 0, 20000, 0);
    data.set_velocity(a.component(), Velocity::new(-50000, 0));
    data.set_velocity(b.component(), Velocity::new(50000, 0));
    physics_system(&mut data, &vec![a, b], 0);
    // no reproduction: timeouts untouched, nothing queued
    assert_eq!(data.get_creature(a.component()).timeout, 0);
    assert_eq!(data.get_creature(b.component()).timeout, 0);
    let (created, removed) = data.commit();
    assert!(created.is_empty());
    assert!(removed.is_empty());
}

#[test]
fn eating_food_deletes_it_and_feeds_creature() {
    let mut data = GameData::new();
    let c = creature_entity(&mut data, Kind::Vegan, 0, 0, 10000, 1000);
    let f = body_entity(&mut data, 25000, 0, 20000, 1000, 500);
    data.insert(f, Food);
    physics_system(&mut data, &vec![c, f], 0);
    assert!(!data.has(f.component::<Food>()));
    assert_eq!(data.get_creature(c.component()).hunger, -FOOD);
}

#[test]
fn food_with_food_has_no_effect() {
    let mut data = GameData::new();
    let f1 = body_entity(&mut data, 0, 0, 10000, 1000, 500);
    data.insert(f1, Food);
    let f2 = body_entity(&mut data, 25000, 0, 20000, 1000, 500);
    data.insert(f2, Food);
    physics_system(&mut data, &vec![f1, f2], 0);
    assert!(data.has(f1.component::<Food>()));
    assert!(data.has(f2.component::<Food>()));
}

#[test]
fn integration_moves_and_wraps() {
    let mut data = GameData::new();
    let e = body_entity(&mut data, 0, 0, 10000, 1000, 500);
    data.set_velocity(e.component(), Velocity::new(100000, 0));
    // one second: 100 units forward
    physics_system(&mut data, &vec![e], 1000);
    assert_eq!(data.get_position(e.component()).position, Vec2 { x: 100000, y: 0 });
    assert_eq!(wrap_coord(WIDTH + RADIUS + 5, WIDTH), 5 - RADIUS + RADIUS);
    assert_eq!(wrap_coord(-RADIUS - 7, WIDTH), WIDTH - 7);
    assert_eq!(wrap_coord(123, WIDTH), 123);
}

#[test]
fn argmax_takes_first_maximum() {
    assert_eq!(argmax(&vec![1, 3, 3, 2]), 1);
    assert_eq!(argmax(&vec![9]), 0);
    assert_eq!(argmax(&vec![0, 0, 7]), 2);
}

#[test]
fn dir16_cardinal_directions() {
    assert_eq!(dir16(0), Vec2 { x: 1000, y: 0 });
    assert_eq!(dir16(4), Vec2 { x: 0, y: 1000 });
    assert_eq!(dir16(8), Vec2 { x: -1000, y: 0 });
    assert_eq!(dir16(12), Vec2 { x: 0, y: -1000 });
    assert_eq!(dir16(16), dir16(0));
}

#[test]
fn body_new_precomputes_inverse_mass() {
    let b = Body::new(10000, 1000, 500);
    assert_eq!(b.rmass, 1000000);
    let immovable = Body::new(10000, 0, 500);
    assert_eq!(immovable.rmass, 0);
    assert_eq!(UNIT, 1000);
}
