use evosim::creature::{Creature, Direction, Kind, Position, Velocity, CARNIVORE_STARVE, DIR_COUNT, RAY_COUNT};
use evosim::collision::Body;
use evosim::data::{GameData, Has, Insert};
use evosim::draw::{Draw, Rgba};
use evosim::mutate::Mutate;
use evosim::nn::{cost, sigmoid, sigmoid_der, Desired, Inputs, Network, Outputs};
use evosim::world::{age_system, seed_creature, seed_food, tick};
use evosim::UNIT;

#[test]
fn commit_twice_with_nothing_queued_changes_nothing() {
    let mut data = GameData::new();
    let e = data.add_entity();
    data.insert(e, Position::new(5, 6));
    let (c1, r1) = data.commit();
    assert!(c1.is_empty());
    assert!(r1.is_empty());
    let before = data.entity;
    let (c2, r2) = data.commit();
    assert!(c2.is_empty());
    assert!(r2.is_empty());
    assert_eq!(data.entity, before);
    assert!(data.has(e.component::<Position>()));
    assert_eq!(data.get_position(e.component()).position.x, 5);
}

#[test]
fn deletion_is_visible_before_commit_and_clears_at_commit() {
    let mut data = GameData::new();
    let e = data.add_entity();
    data.insert(e, Position::new(1, 2));
    data.insert(e, Velocity::new(0, 0));
    data.insert(
        e,
        Creature { kind: Kind::Vegan, hunger: 0, timeout: 0, life: 0 },
    );
    assert!(data.has(e.component::<Position>()));
    data.delete(e);
    // invisible for every component type at once, before any commit
    assert!(!data.has(e.component::<Position>()));
    assert!(!data.has(e.component::<Velocity>()));
    assert!(!data.has(e.component::<Creature>()));
    assert!(!data.has(e.component::<Body>()));
    let (_, removed) = data.commit();
    assert_eq!(removed.len(), 1);
    assert_eq!(removed[0].idx, e.idx);
    // the row is tombstoned, not reused: still invisible after commit
    assert!(!data.has(e.component::<Position>()));
    assert!(!data.has(e.component::<Creature>()));
}

#[test]
fn lazy_entities_splice_in_at_commit_with_fresh_indices() {
    let mut data = GameData::new();
    let live = data.add_entity();
    data.insert(live, Position::new(1, 1));
    let q = data.lazy.add_entity();
    data.lazy.insert(q, Position::new(9, 9));
    let (created, removed) = data.commit();
    assert!(removed.is_empty());
    assert_eq!(created.len(), 1);
    assert_eq!(created[0].idx, 1);
    assert_eq!(data.entity, 2);
    assert_eq!(data.get_position(created[0].component()).position.x, 9);
}

#[test]
fn lazy_remove_clears_at_commit() {
    let mut data = GameData::new();
    let e = data.add_entity();
    data.insert(e, Position::new(1, 1));
    data.lazy.remove(e);
    // a queued removal, unlike a mark, stays visible until the commit
    assert!(data.has(e.component::<Position>()));
    let (_, removed) = data.commit();
    assert_eq!(removed.len(), 1);
    assert!(!data.has(e.component::<Position>()));
}

#[test]
fn starving_creature_is_removed_by_following_commit() {
    let mut data = GameData::new();
    let e = data.add_entity();
    data.insert(
        e,
        Creature { kind: Kind::Carnivorous, hunger: CARNIVORE_STARVE - 1, timeout: 0, life: 0 },
    );
    age_system(&mut data, &vec![e], 10);
    assert!(!data.has(e.component::<Creature>()));
    let (_, removed) = data.commit();
    assert!(removed.iter().any(|r| r.idx == e.idx));
}

#[test]
fn ageing_moves_all_three_clocks() {
    let mut data = GameData::new();
    let e = data.add_entity();
    data.insert(
        e,
        Creature { kind: Kind::Vegan, hunger: 10, timeout: 500, life: 20 },
    );
    age_system(&mut data, &vec![e], 100);
    let c = *data.get_creature(e.component());
    assert_eq!(c.hunger, 110);
    assert_eq!(c.timeout, 400);
    assert_eq!(c.life, 120);
}

#[test]
fn mutate_without_chance_is_the_exact_blend() {
    let a: i64 = 10000;
    let b: i64 = 20000;
    assert_eq!(a.mutate(&b, 500, 0, 100), 15000);
    assert_eq!(a.mutate(&b, 1000, 0, 100), 10000);
    assert_eq!(a.mutate(&b, 0, 0, 100), 20000);
}

#[test]
fn mutate_with_certain_mutation_stays_in_jitter_band() {
    let a: i64 = 10000;
    let b: i64 = 20000;
    for _ in 0..200 {
        let r = a.mutate(&b, 500, 1000, 100);
        // blend 15000, jitter within +/-10%
        assert!(r >= 13500, "jitter below band: {}", r);
        assert!(r <= 16500, "jitter above band: {}", r);
    }
}

#[test]
fn mutate_color_channels_stay_channelwise() {
    let a = Rgba { r: 0, g: 1000, b: 200, a: 1000 };
    let b = Rgba { r: 1000, g: 0, b: 200, a: 1000 };
    let c = a.mutate(&b, 500, 0, 100);
    assert_eq!(c.r, 500);
    assert_eq!(c.g, 500);
    assert_eq!(c.b, 200);
    assert_eq!(c.a, 1000);
}

#[test]
fn mutate_vector_is_entrywise() {
    let a: Vec<i64> = vec![100, 200, 300];
    let b: Vec<i64> = vec![300, 200, 100];
    let r = a.mutate(&b, 500, 0, 100);
    assert_eq!(r, vec![200, 200, 200]);
}

#[test]
fn sigmoid_fixed_points() {
    assert_eq!(sigmoid(0), 500);
    assert_eq!(sigmoid(1000), 750);
    assert_eq!(sigmoid(-1000), 250);
    for z in [-5000000i64, -1, 0, 1, 77777, 5000000] {
        let s = sigmoid(z);
        assert!((0..=1000).contains(&s));
    }
    assert_eq!(sigmoid_der(0), 250);
}

#[test]
fn cost_is_scaled_squared_error() {
    assert_eq!(cost(&vec![1000, 0], &vec![0, 0]), 1000);
    assert_eq!(cost(&vec![500, 500], &vec![500, 500]), 0);
}

#[test]
fn network_feedforward_produces_activations_and_updates_cache() {
    let layers: Vec<usize> = vec![2 * RAY_COUNT, 24, 20, DIR_COUNT];
    let mut nn = Network::new(&layers);
    assert_eq!(nn.cache_next.len(), DIR_COUNT);
    assert!(nn.cache_next.iter().all(|v| *v == 0));
    let input: Vec<i64> = vec![1000; 2 * RAY_COUNT];
    let out = nn.feedforward(&input);
    assert_eq!(out.len(), DIR_COUNT);
    assert!(out.iter().all(|v| (0..=1000).contains(v)));
    assert_eq!(nn.cache_next, out);
}

#[test]
fn network_update_keeps_shapes() {
    let layers: Vec<usize> = vec![4, 6, 4];
    let mut nn = Network::new(&layers);
    let input: Vec<i64> = vec![250, 500, 750, 1000];
    let out = nn.feedforward(&input);
    let desired: Vec<i64> = vec![0, 0, 0, 0];
    let eta = cost(&out, &desired);
    nn.update(&input, &desired, eta);
    assert_eq!(nn.weights.len(), 2);
    assert_eq!(nn.weights[0].rows, 6);
    assert_eq!(nn.weights[0].cols, 8);
    assert_eq!(nn.weights[1].rows, 4);
    assert_eq!(nn.weights[1].cols, 6);
}

#[test]
fn seeded_world_runs_whole_ticks() {
    let mut data = GameData::new();
    let mut creatures = Vec::new();
    let mut foods = Vec::new();
    for _ in 0..6 {
        creatures.push(seed_creature(&mut data, Kind::Vegan));
    }
    creatures.push(seed_creature(&mut data, Kind::Carnivorous));
    for _ in 0..4 {
        foods.push(seed_food(&mut data));
    }
    for _ in 0..5 {
        tick(&mut data, &mut creatures, &mut foods, 100);
    }
    // every surviving creature still has its full component row
    for e in &creatures {
        if data.has(e.component::<Creature>()) {
            assert!(data.has(e.component::<Position>()));
            assert!(data.has(e.component::<Velocity>()));
            assert!(data.has(e.component::<Direction>()));
            assert!(data.has(e.component::<Network>()));
            assert!(data.has(e.component::<Inputs>()));
            assert!(data.has(e.component::<Outputs>()));
            assert!(data.has(e.component::<Desired>()));
        }
    }
    assert!(data.entity >= 11);
}

#[test]
fn components_are_typed_handles() {
    let mut data = GameData::new();
    let e = data.add_entity();
    data.insert(e, Position::new(3, 4));
    let c = e.component::<Position>();
    assert_eq!(c.idx, e.idx);
    assert!(data.has(c));
    assert!(!data.has(e.component::<Body>()));
    assert_eq!(UNIT, 1000);
}
