//! The deferred update buffer: entity creations queued mid-pass, with their
//! component values, plus removal requests. The buffer is spliced onto the
//! live arrays only by `GameData::commit`, so iteration over the current
//! population stays index-stable for a whole pass.

use vstd::prelude::*;

use crate::collision::{body_wf, Body};
use crate::creature::{position_wf, velocity_wf, Creature, Direction, Food, Position, Velocity};
use crate::data::{Entity, Insert};
use crate::draw::{rgba_wf, Draw};
use crate::nn::{activations_wf, Desired, Inputs, Network, Outputs};
use std::marker::PhantomData;

verus! {

/// A collection of lazily applied updates: queued entities (with their queued
/// component rows, indexed from 0) and queued removals of live entities.
#[derive(Debug)]
pub struct LazyUpdate {
    pub remove: Vec<Entity>,
    pub entity: usize,

    pub creatures: Vec<Option<Creature>>,
    pub foods: Vec<Option<Food>>,
    pub positions: Vec<Option<Position>>,
    pub velocities: Vec<Option<Velocity>>,
    pub directions: Vec<Option<Direction>>,
    pub bodies: Vec<Option<Body>>,
    pub draw: Vec<Option<Draw>>,
    pub nns: Vec<Option<Network>>,
    pub inputs: Vec<Option<Inputs>>,
    pub outputs: Vec<Option<Outputs>>,
    pub desired: Vec<Option<Desired>>,
}

/// Both buffers hold the same queued rows and requests.
pub open spec fn lazy_eq(a: LazyUpdate, b: LazyUpdate) -> bool {
    &&& a.remove@ == b.remove@
    &&& a.entity == b.entity
    &&& a.creatures@ == b.creatures@
    &&& a.foods@ == b.foods@
    &&& a.positions@ == b.positions@
    &&& a.velocities@ == b.velocities@
    &&& a.directions@ == b.directions@
    &&& a.bodies@ == b.bodies@
    &&& a.draw@ == b.draw@
    &&& a.nns@ == b.nns@
    &&& a.inputs@ == b.inputs@
    &&& a.outputs@ == b.outputs@
    &&& a.desired@ == b.desired@
}

impl LazyUpdate {
    /// Every queued component array has one row per queued entity.
    pub open spec fn wf(self) -> bool {
        &&& self.creatures@.len() == self.entity
        &&& self.foods@.len() == self.entity
        &&& self.positions@.len() == self.entity
        &&& self.velocities@.len() == self.entity
        &&& self.directions@.len() == self.entity
        &&& self.bodies@.len() == self.entity
        &&& self.draw@.len() == self.entity
        &&& self.nns@.len() == self.entity
        &&& self.inputs@.len() == self.entity
        &&& self.outputs@.len() == self.entity
        &&& self.desired@.len() == self.entity
    }

    /// Every queued component value satisfies its own invariant.
    pub open spec fn sound(self) -> bool {
        &&& (forall|i: int|
        0 <= i < self.positions@.len() && self.positions@[i] is Some ==> position_wf((#[trigger] self.positions@[i])->0))
        &&& (forall|i: int|
        0 <= i < self.velocities@.len() && self.velocities@[i] is Some ==> velocity_wf((#[trigger] self.velocities@[i])->0))
        &&& (forall|i: int|
        0 <= i < self.bodies@.len() && self.bodies@[i] is Some ==> body_wf((#[trigger] self.bodies@[i])->0))
        &&& (forall|i: int|
        0 <= i < self.draw@.len() && self.draw@[i] is Some ==> rgba_wf((#[trigger] self.draw@[i])->0.color))
        &&& (forall|i: int|
        0 <= i < self.nns@.len() && self.nns@[i] is Some ==> (#[trigger] self.nns@[i])->0.wf())
        &&& (forall|i: int|
        0 <= i < self.inputs@.len() && self.inputs@[i] is Some ==> activations_wf((#[trigger] self.inputs@[i])->0.input@))
        &&& (forall|i: int|
        0 <= i < self.outputs@.len() && self.outputs@[i] is Some ==> activations_wf((#[trigger] self.outputs@[i])->0.output@))
        &&& (forall|i: int|
        0 <= i < self.desired@.len() && self.desired@[i] is Some ==> activations_wf((#[trigger] self.desired@[i])->0.desired@))
    }

    pub fn new() -> (r: LazyUpdate)
        ensures
            r.wf(),
            r.sound(),
            r.entity == 0,
            r.remove@.len() == 0,

            r.creatures@.len() == 0,
            r.foods@.len() == 0,
            r.positions@.len() == 0,
            r.velocities@.len() == 0,
            r.directions@.len() == 0,
            r.bodies@.len() == 0,
            r.draw@.len() == 0,
            r.nns@.len() == 0,
            r.inputs@.len() == 0,
            r.outputs@.len() == 0,
            r.desired@.len() == 0,
    {
        LazyUpdate {
            entity: 0,
            remove: Vec::new(),
            creatures: Vec::new(),
            foods: Vec::new(),
            positions: Vec::new(),
            velocities: Vec::new(),
            directions: Vec::new(),
            bodies: Vec::new(),
            draw: Vec::new(),
            nns: Vec::new(),
            inputs: Vec::new(),
            outputs: Vec::new(),
            desired: Vec::new(),
        }
    }

    /// Queues a fresh entity; the returned index is local to this buffer
    /// and becomes live only at the next commit.
    pub fn add_entity(&mut self) -> (e: Entity)
        requires
            old(self).wf(),
            old(self).entity < usize::MAX,
        ensures
            final(self).wf(),
            old(self).sound() ==> final(self).sound(),
            e.idx == old(self).entity,
            final(self).entity == old(self).entity + 1,
            final(self).remove@ == old(self).remove@,

            final(self).creatures@ == old(self).creatures@.push(None),
            final(self).foods@ == old(self).foods@.push(None),
            final(self).positions@ == old(self).positions@.push(None),
            final(self).velocities@ == old(self).velocities@.push(None),
            final(self).directions@ == old(self).directions@.push(None),
            final(self).bodies@ == old(self).bodies@.push(None),
            final(self).draw@ == old(self).draw@.push(None),
            final(self).nns@ == old(self).nns@.push(None),
            final(self).inputs@ == old(self).inputs@.push(None),
            final(self).outputs@ == old(self).outputs@.push(None),
            final(self).desired@ == old(self).desired@.push(None),
    {
        self.creatures.push(None);
        self.foods.push(None);
        self.positions.push(None);
        self.velocities.push(None);
        self.directions.push(None);
        self.bodies.push(None);
        self.draw.push(None);
        self.nns.push(None);
        self.inputs.push(None);
        self.outputs.push(None);
        self.desired.push(None);
        let e = Entity { idx: self.entity };
        self.entity = self.entity + 1;
        e
    }

    /// Queues a removal request for a live entity. Unlike a deletion mark
    /// set with `GameData::delete`, a queued removal does not hide the
    /// entity from `has` before the commit clears its row; a caller that
    /// needs the entity treated as absent at once marks it as well.
    pub fn remove(&mut self, e: Entity)
        ensures
            final(self).remove@ == old(self).remove@.push(e),
            final(self).entity == old(self).entity,
            old(self).wf() ==> final(self).wf(),
            old(self).sound() ==> final(self).sound(),

            final(self).creatures@ == old(self).creatures@,
            final(self).foods@ == old(self).foods@,
            final(self).positions@ == old(self).positions@,
            final(self).velocities@ == old(self).velocities@,
            final(self).directions@ == old(self).directions@,
            final(self).bodies@ == old(self).bodies@,
            final(self).draw@ == old(self).draw@,
            final(self).nns@ == old(self).nns@,
            final(self).inputs@ == old(self).inputs@,
            final(self).outputs@ == old(self).outputs@,
            final(self).desired@ == old(self).desired@,
    {
        self.remove.push(e);
    }
}

impl Insert<Creature> for LazyUpdate {
    open spec fn insert_req(&self, i: int, t: Creature) -> bool {
        &&& self.wf()
        &&& 0 <= i < self.entity
    }

    open spec fn insert_post(&self, i: int, t: Creature, post: &Self) -> bool {
            &&& post.entity == self.entity
            &&& post.remove@ == self.remove@
            &&& post.creatures@ == self.creatures@.update(i, Some(t))
            &&& post.foods@ == self.foods@
            &&& post.positions@ == self.positions@
            &&& post.velocities@ == self.velocities@
            &&& post.directions@ == self.directions@
            &&& post.bodies@ == self.bodies@
            &&& post.draw@ == self.draw@
            &&& post.nns@ == self.nns@
            &&& post.inputs@ == self.inputs@
            &&& post.outputs@ == self.outputs@
            &&& post.desired@ == self.desired@
    }

    fn insert(&mut self, e: Entity, t: Creature) {
        self.creatures.set(e.idx, Some(t));
    }
}

impl Insert<Food> for LazyUpdate {
    open spec fn insert_req(&self, i: int, t: Food) -> bool {
        &&& self.wf()
        &&& 0 <= i < self.entity
    }

    open spec fn insert_post(&self, i: int, t: Food, post: &Self) -> bool {
            &&& post.entity == self.entity
            &&& post.remove@ == self.remove@
            &&& post.creatures@ == self.creatures@
            &&& post.foods@ == self.foods@.update(i, Some(t))
            &&& post.positions@ == self.positions@
            &&& post.velocities@ == self.velocities@
            &&& post.directions@ == self.directions@
            &&& post.bodies@ == self.bodies@
            &&& post.draw@ == self.draw@
            &&& post.nns@ == self.nns@
            &&& post.inputs@ == self.inputs@
            &&& post.outputs@ == self.outputs@
            &&& post.desired@ == self.desired@
    }

    fn insert(&mut self, e: Entity, t: Food) {
        self.foods.set(e.idx, Some(t));
    }
}

impl Insert<Position> for LazyUpdate {
    open spec fn insert_req(&self, i: int, t: Position) -> bool {
        &&& self.wf()
        &&& 0 <= i < self.entity
            &&& position_wf(t)
    }

    open spec fn insert_post(&self, i: int, t: Position, post: &Self) -> bool {
            &&& post.entity == self.entity
            &&& post.remove@ == self.remove@
            &&& post.creatures@ == self.creatures@
            &&& post.foods@ == self.foods@
            &&& post.positions@ == self.positions@.update(i, Some(t))
            &&& post.velocities@ == self.velocities@
            &&& post.directions@ == self.directions@
            &&& post.bodies@ == self.bodies@
            &&& post.draw@ == self.draw@
            &&& post.nns@ == self.nns@
            &&& post.inputs@ == self.inputs@
            &&& post.outputs@ == self.outputs@
            &&& post.desired@ == self.desired@
    }

    fn insert(&mut self, e: Entity, t: Position) {
        self.positions.set(e.idx, Some(t));
    }
}

impl Insert<Velocity> for LazyUpdate {
    open spec fn insert_req(&self, i: int, t: Velocity) -> bool {
        &&& self.wf()
        &&& 0 <= i < self.entity
            &&& velocity_wf(t)
    }

    open spec fn insert_post(&self, i: int, t: Velocity, post: &Self) -> bool {
            &&& post.entity == self.entity
            &&& post.remove@ == self.remove@
            &&& post.creatures@ == self.creatures@
            &&& post.foods@ == self.foods@
            &&& post.positions@ == self.positions@
            &&& post.velocities@ == self.velocities@.update(i, Some(t))
            &&& post.directions@ == self.directions@
            &&& post.bodies@ == self.bodies@
            &&& post.draw@ == self.draw@
            &&& post.nns@ == self.nns@
            &&& post.inputs@ == self.inputs@
            &&& post.outputs@ == self.outputs@
            &&& post.desired@ == self.desired@
    }

    fn insert(&mut self, e: Entity, t: Velocity) {
        self.velocities.set(e.idx, Some(t));
    }
}

impl Insert<Direction> for LazyUpdate {
    open spec fn insert_req(&self, i: int, t: Direction) -> bool {
        &&& self.wf()
        &&& 0 <= i < self.entity
    }

    open spec fn insert_post(&self, i: int, t: Direction, post: &Self) -> bool {
            &&& post.entity == self.entity
            &&& post.remove@ == self.remove@
            &&& post.creatures@ == self.creatures@
            &&& post.foods@ == self.foods@
            &&& post.positions@ == self.positions@
            &&& post.velocities@ == self.velocities@
            &&& post.directions@ == self.directions@.update(i, Some(t))
            &&& post.bodies@ == self.bodies@
            &&& post.draw@ == self.draw@
            &&& post.nns@ == self.nns@
            &&& post.inputs@ == self.inputs@
            &&& post.outputs@ == self.outputs@
            &&& post.desired@ == self.desired@
    }

    fn insert(&mut self, e: Entity, t: Direction) {
        self.directions.set(e.idx, Some(t));
    }
}

impl Insert<Body> for LazyUpdate {
    open spec fn insert_req(&self, i: int, t: Body) -> bool {
        &&& self.wf()
        &&& 0 <= i < self.entity
            &&& body_wf(t)
    }

    open spec fn insert_post(&self, i: int, t: Body, post: &Self) -> bool {
            &&& post.entity == self.entity
            &&& post.remove@ == self.remove@
            &&& post.creatures@ == self.creatures@
            &&& post.foods@ == self.foods@
            &&& post.positions@ == self.positions@
            &&& post.velocities@ == self.velocities@
            &&& post.directions@ == self.directions@
            &&& post.bodies@ == self.bodies@.update(i, Some(t))
            &&& post.draw@ == self.draw@
            &&& post.nns@ == self.nns@
            &&& post.inputs@ == self.inputs@
            &&& post.outputs@ == self.outputs@
            &&& post.desired@ == self.desired@
    }

    fn insert(&mut self, e: Entity, t: Body) {
        self.bodies.set(e.idx, Some(t));
    }
}

impl Insert<Draw> for LazyUpdate {
    open spec fn insert_req(&self, i: int, t: Draw) -> bool {
        &&& self.wf()
        &&& 0 <= i < self.entity
            &&& rgba_wf(t.color)
    }

    open spec fn insert_post(&self, i: int, t: Draw, post: &Self) -> bool {
            &&& post.entity == self.entity
            &&& post.remove@ == self.remove@
            &&& post.creatures@ == self.creatures@
            &&& post.foods@ == self.foods@
            &&& post.positions@ == self.positions@
            &&& post.velocities@ == self.velocities@
            &&& post.directions@ == self.directions@
            &&& post.bodies@ == self.bodies@
            &&& post.draw@ == self.draw@.update(i, Some(t))
            &&& post.nns@ == self.nns@
            &&& post.inputs@ == self.inputs@
            &&& post.outputs@ == self.outputs@
            &&& post.desired@ == self.desired@
    }

    fn insert(&mut self, e: Entity, t: Draw) {
        self.draw.set(e.idx, Some(t));
    }
}

impl Insert<Network> for LazyUpdate {
    open spec fn insert_req(&self, i: int, t: Network) -> bool {
        &&& self.wf()
        &&& 0 <= i < self.entity
            &&& t.wf()
    }

    open spec fn insert_post(&self, i: int, t: Network, post: &Self) -> bool {
            &&& post.entity == self.entity
            &&& post.remove@ == self.remove@
            &&& post.creatures@ == self.creatures@
            &&& post.foods@ == self.foods@
            &&& post.positions@ == self.positions@
            &&& post.velocities@ == self.velocities@
            &&& post.directions@ == self.directions@
            &&& post.bodies@ == self.bodies@
            &&& post.draw@ == self.draw@
            &&& post.nns@ == self.nns@.update(i, Some(t))
            &&& post.inputs@ == self.inputs@
            &&& post.outputs@ == self.outputs@
            &&& post.desired@ == self.desired@
    }

    fn insert(&mut self, e: Entity, t: Network) {
        self.nns.set(e.idx, Some(t));
    }
}

impl Insert<Inputs> for LazyUpdate {
    open spec fn insert_req(&self, i: int, t: Inputs) -> bool {
        &&& self.wf()
        &&& 0 <= i < self.entity
            &&& activations_wf(t.input@)
    }

    open spec fn insert_post(&self, i: int, t: Inputs, post: &Self) -> bool {
            &&& post.entity == self.entity
            &&& post.remove@ == self.remove@
            &&& post.creatures@ == self.creatures@
            &&& post.foods@ == self.foods@
            &&& post.positions@ == self.positions@
            &&& post.velocities@ == self.velocities@
            &&& post.directions@ == self.directions@
            &&& post.bodies@ == self.bodies@
            &&& post.draw@ == self.draw@
            &&& post.nns@ == self.nns@
            &&& post.inputs@ == self.inputs@.update(i, Some(t))
            &&& post.outputs@ == self.outputs@
            &&& post.desired@ == self.desired@
    }

    fn insert(&mut self, e: Entity, t: Inputs) {
        self.inputs.set(e.idx, Some(t));
    }
}

impl Insert<Outputs> for LazyUpdate {
    open spec fn insert_req(&self, i: int, t: Outputs) -> bool {
        &&& self.wf()
        &&& 0 <= i < self.entity
            &&& activations_wf(t.output@)
    }

    open spec fn insert_post(&self, i: int, t: Outputs, post: &Self) -> bool {
            &&& post.entity == self.entity
            &&& post.remove@ == self.remove@
            &&& post.creatures@ == self.creatures@
            &&& post.foods@ == self.foods@
            &&& post.positions@ == self.positions@
            &&& post.velocities@ == self.velocities@
            &&& post.directions@ == self.directions@
            &&& post.bodies@ == self.bodies@
            &&& post.draw@ == self.draw@
            &&& post.nns@ == self.nns@
            &&& post.inputs@ == self.inputs@
            &&& post.outputs@ == self.outputs@.update(i, Some(t))
            &&& post.desired@ == self.desired@
    }

    fn insert(&mut self, e: Entity, t: Outputs) {
        self.outputs.set(e.idx, Some(t));
    }
}

impl Insert<Desired> for LazyUpdate {
    open spec fn insert_req(&self, i: int, t: Desired) -> bool {
        &&& self.wf()
        &&& 0 <= i < self.entity
            &&& activations_wf(t.desired@)
    }

    open spec fn insert_post(&self, i: int, t: Desired, post: &Self) -> bool {
            &&& post.entity == self.entity
            &&& post.remove@ == self.remove@
            &&& post.creatures@ == self.creatures@
            &&& post.foods@ == self.foods@
            &&& post.positions@ == self.positions@
            &&& post.velocities@ == self.velocities@
            &&& post.directions@ == self.directions@
            &&& post.bodies@ == self.bodies@
            &&& post.draw@ == self.draw@
            &&& post.nns@ == self.nns@
            &&& post.inputs@ == self.inputs@
            &&& post.outputs@ == self.outputs@
            &&& post.desired@ == self.desired@.update(i, Some(t))
    }

    fn insert(&mut self, e: Entity, t: Desired) {
        self.desired.set(e.idx, Some(t));
    }
}

/// Used to index into the corresponding array of a `LazyUpdate`.
#[derive(Debug)]
pub struct Component<T> {
    pub idx: usize,
    pub _phantom: PhantomData<T>,
}

} // verus!

