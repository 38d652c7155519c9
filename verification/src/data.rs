//! The entity store: one growable optional-component array per component
//! type, all kept at the same length (one row per entity ever created), a
//! pending-deletion mark per row, and the deferred update buffer that commits
//! splice in.
//!
//! Entity indices are stable for a whole run: a deleted entity's row is
//! tombstoned (every slot set to `None`), never reused.

use vstd::prelude::*;

use crate::collision::{body_wf, Body};
use crate::creature::{position_wf, velocity_wf, Creature, Direction, Food, Position, Velocity};
use crate::draw::{rgba_wf, Draw};
use crate::lazy::{lazy_eq, LazyUpdate};
use crate::nn::{activations_wf, Desired, Inputs, Network, Outputs};
use std::marker::PhantomData;

verus! {

/// An index into the parallel component arrays, identifying one entity.
#[derive(Debug, Clone, Copy, PartialEq, Eq, Hash, Structural)]
pub struct Entity {
    pub idx: usize,
}

/// Used to index into the corresponding component array of a `GameData`,
/// remembering the component type.
#[derive(Debug)]
pub struct Component<T> {
    pub idx: usize,
    pub _phantom: PhantomData<T>,
}

impl<T> Clone for Component<T> {
    fn clone(&self) -> (c: Self)
        ensures
            c.idx == self.idx,
    {
        Component { idx: self.idx, _phantom: PhantomData }
    }
}

impl<T> Copy for Component<T> {

}

impl Entity {
    /// Views this entity as a handle for one of its component slots.
    pub fn component<T>(&self) -> (c: Component<T>)
        ensures
            c.idx == self.idx,
    {
        Component { idx: self.idx, _phantom: PhantomData }
    }
}

/// Answers whether an entity currently has a component of type `T`; an entity
/// marked for deletion counts as having none, even before the next commit.
pub trait Has<T> {
    spec fn has_req(&self, i: int) -> bool;

    spec fn has_spec(&self, i: int) -> bool;

    fn has(&self, c: Component<T>) -> (r: bool)
        requires
            self.has_req(c.idx as int),
        ensures
            r == self.has_spec(c.idx as int),
    ;
}

/// Writes a component value into an entity's slot for type `T`.
pub trait Insert<T> {
    spec fn insert_req(&self, i: int, t: T) -> bool;

    spec fn insert_post(&self, i: int, t: T, post: &Self) -> bool;

    fn insert(&mut self, e: Entity, t: T)
        requires
            old(self).insert_req(e.idx as int, t),
        ensures
            old(self).insert_post(e.idx as int, t, final(self)),
    ;
}

/// A collection of all the components.
#[derive(Debug)]
pub struct GameData {
    pub entity: usize,
    pub delete: Vec<bool>,

    pub creatures: Vec<Option<Creature>>,
    pub foods: Vec<Option<Food>>,
    pub positions: Vec<Option<Position>>,
    pub velocities: Vec<Option<Velocity>>,
    pub directions: Vec<Option<Direction>>,
    pub bodies: Vec<Option<Body>>,
    pub draw: Vec<Option<Draw>>,
    pub nns: Vec<Option<Network>>,
    pub inputs: Vec<Option<Inputs>>,
    pub outputs: Vec<Option<Outputs>>,
    pub desired: Vec<Option<Desired>>,
    pub lazy: LazyUpdate,
}

/// The live component arrays of both stores hold the same rows.
pub open spec fn eq_arrays(a: GameData, b: GameData) -> bool {
    &&& a.creatures@ == b.creatures@
    &&& a.foods@ == b.foods@
    &&& a.positions@ == b.positions@
    &&& a.velocities@ == b.velocities@
    &&& a.directions@ == b.directions@
    &&& a.bodies@ == b.bodies@
    &&& a.draw@ == b.draw@
    &&& a.nns@ == b.nns@
    &&& a.inputs@ == b.inputs@
    &&& a.outputs@ == b.outputs@
    &&& a.desired@ == b.desired@
}

/// The live component arrays agree except, possibly, `creatures`.
pub open spec fn eq_arrays_except_creatures(a: GameData, b: GameData) -> bool {
    &&& a.foods@ == b.foods@
    &&& a.positions@ == b.positions@
    &&& a.velocities@ == b.velocities@
    &&& a.directions@ == b.directions@
    &&& a.bodies@ == b.bodies@
    &&& a.draw@ == b.draw@
    &&& a.nns@ == b.nns@
    &&& a.inputs@ == b.inputs@
    &&& a.outputs@ == b.outputs@
    &&& a.desired@ == b.desired@
}

/// The live component arrays agree except, possibly, `foods`.
pub open spec fn eq_arrays_except_foods(a: GameData, b: GameData) -> bool {
    &&& a.creatures@ == b.creatures@
    &&& a.positions@ == b.positions@
    &&& a.velocities@ == b.velocities@
    &&& a.directions@ == b.directions@
    &&& a.bodies@ == b.bodies@
    &&& a.draw@ == b.draw@
    &&& a.nns@ == b.nns@
    &&& a.inputs@ == b.inputs@
    &&& a.outputs@ == b.outputs@
    &&& a.desired@ == b.desired@
}

/// The live component arrays agree except, possibly, `positions`.
pub open spec fn eq_arrays_except_positions(a: GameData, b: GameData) -> bool {
    &&& a.creatures@ == b.creatures@
    &&& a.foods@ == b.foods@
    &&& a.velocities@ == b.velocities@
    &&& a.directions@ == b.directions@
    &&& a.bodies@ == b.bodies@
    &&& a.draw@ == b.draw@
    &&& a.nns@ == b.nns@
    &&& a.inputs@ == b.inputs@
    &&& a.outputs@ == b.outputs@
    &&& a.desired@ == b.desired@
}

/// The live component arrays agree except, possibly, `velocities`.
pub open spec fn eq_arrays_except_velocities(a: GameData, b: GameData) -> bool {
    &&& a.creatures@ == b.creatures@
    &&& a.foods@ == b.foods@
    &&& a.positions@ == b.positions@
    &&& a.directions@ == b.directions@
    &&& a.bodies@ == b.bodies@
    &&& a.draw@ == b.draw@
    &&& a.nns@ == b.nns@
    &&& a.inputs@ == b.inputs@
    &&& a.outputs@ == b.outputs@
    &&& a.desired@ == b.desired@
}

/// The live component arrays agree except, possibly, `directions`.
pub open spec fn eq_arrays_except_directions(a: GameData, b: GameData) -> bool {
    &&& a.creatures@ == b.creatures@
    &&& a.foods@ == b.foods@
    &&& a.positions@ == b.positions@
    &&& a.velocities@ == b.velocities@
    &&& a.bodies@ == b.bodies@
    &&& a.draw@ == b.draw@
    &&& a.nns@ == b.nns@
    &&& a.inputs@ == b.inputs@
    &&& a.outputs@ == b.outputs@
    &&& a.desired@ == b.desired@
}

/// The live component arrays agree except, possibly, `bodies`.
pub open spec fn eq_arrays_except_bodies(a: GameData, b: GameData) -> bool {
    &&& a.creatures@ == b.creatures@
    &&& a.foods@ == b.foods@
    &&& a.positions@ == b.positions@
    &&& a.velocities@ == b.velocities@
    &&& a.directions@ == b.directions@
    &&& a.draw@ == b.draw@
    &&& a.nns@ == b.nns@
    &&& a.inputs@ == b.inputs@
    &&& a.outputs@ == b.outputs@
    &&& a.desired@ == b.desired@
}

/// The live component arrays agree except, possibly, `draw`.
pub open spec fn eq_arrays_except_draw(a: GameData, b: GameData) -> bool {
    &&& a.creatures@ == b.creatures@
    &&& a.foods@ == b.foods@
    &&& a.positions@ == b.positions@
    &&& a.velocities@ == b.velocities@
    &&& a.directions@ == b.directions@
    &&& a.bodies@ == b.bodies@
    &&& a.nns@ == b.nns@
    &&& a.inputs@ == b.inputs@
    &&& a.outputs@ == b.outputs@
    &&& a.desired@ == b.desired@
}

/// The live component arrays agree except, possibly, `nns`.
pub open spec fn eq_arrays_except_nns(a: GameData, b: GameData) -> bool {
    &&& a.creatures@ == b.creatures@
    &&& a.foods@ == b.foods@
    &&& a.positions@ == b.positions@
    &&& a.velocities@ == b.velocities@
    &&& a.directions@ == b.directions@
    &&& a.bodies@ == b.bodies@
    &&& a.draw@ == b.draw@
    &&& a.inputs@ == b.inputs@
    &&& a.outputs@ == b.outputs@
    &&& a.desired@ == b.desired@
}

/// The live component arrays agree except, possibly, `inputs`.
pub open spec fn eq_arrays_except_inputs(a: GameData, b: GameData) -> bool {
    &&& a.creatures@ == b.creatures@
    &&& a.foods@ == b.foods@
    &&& a.positions@ == b.positions@
    &&& a.velocities@ == b.velocities@
    &&& a.directions@ == b.directions@
    &&& a.bodies@ == b.bodies@
    &&& a.draw@ == b.draw@
    &&& a.nns@ == b.nns@
    &&& a.outputs@ == b.outputs@
    &&& a.desired@ == b.desired@
}

/// The live component arrays agree except, possibly, `outputs`.
pub open spec fn eq_arrays_except_outputs(a: GameData, b: GameData) -> bool {
    &&& a.creatures@ == b.creatures@
    &&& a.foods@ == b.foods@
    &&& a.positions@ == b.positions@
    &&& a.velocities@ == b.velocities@
    &&& a.directions@ == b.directions@
    &&& a.bodies@ == b.bodies@
    &&& a.draw@ == b.draw@
    &&& a.nns@ == b.nns@
    &&& a.inputs@ == b.inputs@
    &&& a.desired@ == b.desired@
}

/// The live component arrays agree except, possibly, `desired`.
pub open spec fn eq_arrays_except_desired(a: GameData, b: GameData) -> bool {
    &&& a.creatures@ == b.creatures@
    &&& a.foods@ == b.foods@
    &&& a.positions@ == b.positions@
    &&& a.velocities@ == b.velocities@
    &&& a.directions@ == b.directions@
    &&& a.bodies@ == b.bodies@
    &&& a.draw@ == b.draw@
    &&& a.nns@ == b.nns@
    &&& a.inputs@ == b.inputs@
    &&& a.outputs@ == b.outputs@
}

/// The sequence of entities `count` fresh indices from `start` make.
pub open spec fn created_seq(start: int, count: int) -> Seq<Entity> {
    Seq::new(count as nat, |i: int| Entity { idx: (start + i) as usize })
}

impl GameData {
    /// Structural invariant: every component array, and the deletion-mark
    /// array, has exactly one row per entity ever created; the deferred
    /// buffer is itself well-formed and its removal requests name live rows.
    pub open spec fn wf(self) -> bool {
        &&& self.delete@.len() == self.entity

        &&& self.creatures@.len() == self.entity
        &&& self.foods@.len() == self.entity
        &&& self.positions@.len() == self.entity
        &&& self.velocities@.len() == self.entity
        &&& self.directions@.len() == self.entity
        &&& self.bodies@.len() == self.entity
        &&& self.draw@.len() == self.entity
        &&& self.nns@.len() == self.entity
        &&& self.inputs@.len() == self.entity
        &&& self.outputs@.len() == self.entity
        &&& self.desired@.len() == self.entity
        &&& self.lazy.wf()
        &&& forall|k: int|
            0 <= k < self.lazy.remove@.len() ==> (#[trigger] self.lazy.remove@[k]).idx
                < self.entity
    }

    /// Value invariant: every stored component value satisfies its own
    /// invariant (bodies are legal, coordinates bounded, networks chained).
    pub open spec fn sound(self) -> bool {

        &&& (forall|i: int|
        0 <= i < self.positions@.len() && self.positions@[i] is Some ==> position_wf((#[trigger] self.positions@[i])->0))
        &&& (forall|i: int|
        0 <= i < self.velocities@.len() && self.velocities@[i] is Some ==> velocity_wf((#[trigger] self.velocities@[i])->0))
        &&& (forall|i: int|
        0 <= i < self.bodies@.len() && self.bodies@[i] is Some ==> body_wf((#[trigger] self.bodies@[i])->0))
        &&& (forall|i: int|
        0 <= i < self.draw@.len() && self.draw@[i] is Some ==> rgba_wf((#[trigger] self.draw@[i])->0.color))
        &&& (forall|i: int|
        0 <= i < self.nns@.len() && self.nns@[i] is Some ==> (#[trigger] self.nns@[i])->0.wf())
        &&& (forall|i: int|
        0 <= i < self.inputs@.len() && self.inputs@[i] is Some ==> activations_wf((#[trigger] self.inputs@[i])->0.input@))
        &&& (forall|i: int|
        0 <= i < self.outputs@.len() && self.outputs@[i] is Some ==> activations_wf((#[trigger] self.outputs@[i])->0.output@))
        &&& (forall|i: int|
        0 <= i < self.desired@.len() && self.desired@[i] is Some ==> activations_wf((#[trigger] self.desired@[i])->0.desired@))
        &&& self.lazy.sound()
    }

    /// Whether row `i` is due to be cleared at the next commit, either by a
    /// deletion mark or by a queued removal request.
    pub open spec fn pending(self, i: int) -> bool {
        self.delete@[i] || exists|k: int|
            0 <= k < self.lazy.remove@.len() && (#[trigger] self.lazy.remove@[k]).idx == i
    }

    /// No creation, insertion or removal is queued anywhere.
    pub open spec fn nothing_queued(self) -> bool {
        &&& self.lazy.entity == 0
        &&& self.lazy.remove@.len() == 0
        &&& forall|i: int| 0 <= i < self.delete@.len() ==> !(#[trigger] self.delete@[i])
    }

    /// The entities among the first `n` rows that a commit would clear, in
    /// ascending index order.
    pub open spec fn removed_upto(self, n: int) -> Seq<Entity>
        decreases n,
    {
        if n <= 0 {
            Seq::empty()
        } else if self.pending(n - 1) {
            self.removed_upto(n - 1).push(Entity { idx: (n - 1) as usize })
        } else {
            self.removed_upto(n - 1)
        }
    }

    pub fn new() -> (r: GameData)
        ensures
            r.wf(),
            r.sound(),
            r.nothing_queued(),
            r.entity == 0,
            r.lazy.entity == 0,
    {
        GameData {
            entity: 0,
            delete: Vec::new(),

            creatures: Vec::new(),
            foods: Vec::new(),
            positions: Vec::new(),
            velocities: Vec::new(),
            directions: Vec::new(),
            bodies: Vec::new(),
            draw: Vec::new(),
            nns: Vec::new(),
            inputs: Vec::new(),
            outputs: Vec::new(),
            desired: Vec::new(),
            lazy: LazyUpdate::new(),
        }
    }

    /// Appends an empty row to every component array and returns the new,
    /// eagerly live, entity. Never fails.
    pub fn add_entity(&mut self) -> (e: Entity)
        requires
            old(self).wf(),
            old(self).entity < usize::MAX,
        ensures
            final(self).wf(),
            old(self).sound() ==> final(self).sound(),
            e.idx == old(self).entity,
            final(self).entity == old(self).entity + 1,
            final(self).delete@ == old(self).delete@.push(false),
            lazy_eq(old(self).lazy, final(self).lazy),

            final(self).creatures@ == old(self).creatures@.push(None),
            final(self).foods@ == old(self).foods@.push(None),
            final(self).positions@ == old(self).positions@.push(None),
            final(self).velocities@ == old(self).velocities@.push(None),
            final(self).directions@ == old(self).directions@.push(None),
            final(self).bodies@ == old(self).bodies@.push(None),
            final(self).draw@ == old(self).draw@.push(None),
            final(self).nns@ == old(self).nns@.push(None),
            final(self).inputs@ == old(self).inputs@.push(None),
            final(self).outputs@ == old(self).outputs@.push(None),
            final(self).desired@ == old(self).desired@.push(None),
    {
        self.creatures.push(None);
        self.foods.push(None);
        self.positions.push(None);
        self.velocities.push(None);
        self.directions.push(None);
        self.bodies.push(None);
        self.draw.push(None);
        self.nns.push(None);
        self.inputs.push(None);
        self.outputs.push(None);
        self.desired.push(None);
        self.delete.push(false);
        let e = Entity { idx: self.entity };
        self.entity = self.entity + 1;
        e
    }

    /// Marks an entity for deletion. The arrays are untouched; the entity
    /// merely stops answering `has` until the next commit clears its row.
    pub fn delete(&mut self, e: Entity)
        requires
            old(self).wf(),
            e.idx < old(self).entity,
        ensures
            final(self).wf(),
            old(self).sound() ==> final(self).sound(),
            final(self).entity == old(self).entity,
            final(self).delete@ == old(self).delete@.update(e.idx as int, true),
            lazy_eq(old(self).lazy, final(self).lazy),
            eq_arrays(*old(self), *final(self)),
            final(self).pending(e.idx as int),
    {
        self.delete.set(e.idx, true);
    }

    pub fn get_creature(&self, c: Component<Creature>) -> (r: &Creature)
        requires
            self.wf(),
            c.idx < self.entity,
            self.creatures@[c.idx as int] is Some,
        ensures
            self.creatures@[c.idx as int] == Some(*r),
    {
        self.creatures[c.idx].as_ref().unwrap()
    }

    pub fn set_creature(&mut self, c: Component<Creature>, t: Creature)
        requires
            old(self).wf(),
            c.idx < old(self).entity,
            old(self).creatures@[c.idx as int] is Some,
        ensures
            final(self).wf(),
            old(self).sound() ==> final(self).sound(),
            final(self).entity == old(self).entity,
            final(self).delete@ == old(self).delete@,
            lazy_eq(old(self).lazy, final(self).lazy),
            eq_arrays_except_creatures(*old(self), *final(self)),
            final(self).creatures@ == old(self).creatures@.update(c.idx as int, Some(t)),
    {
        self.creatures.set(c.idx, Some(t));
    }

    pub fn get_position(&self, c: Component<Position>) -> (r: &Position)
        requires
            self.wf(),
            c.idx < self.entity,
            self.positions@[c.idx as int] is Some,
        ensures
            self.positions@[c.idx as int] == Some(*r),
    {
        self.positions[c.idx].as_ref().unwrap()
    }

    pub fn set_position(&mut self, c: Component<Position>, t: Position)
        requires
            old(self).wf(),
            c.idx < old(self).entity,
            old(self).positions@[c.idx as int] is Some,
            position_wf(t),
        ensures
            final(self).wf(),
            old(self).sound() ==> final(self).sound(),
            final(self).entity == old(self).entity,
            final(self).delete@ == old(self).delete@,
            lazy_eq(old(self).lazy, final(self).lazy),
            eq_arrays_except_positions(*old(self), *final(self)),
            final(self).positions@ == old(self).positions@.update(c.idx as int, Some(t)),
    {
        self.positions.set(c.idx, Some(t));
    }

    pub fn get_velocity(&self, c: Component<Velocity>) -> (r: &Velocity)
        requires
            self.wf(),
            c.idx < self.entity,
            self.velocities@[c.idx as int] is Some,
        ensures
            self.velocities@[c.idx as int] == Some(*r),
    {
        self.velocities[c.idx].as_ref().unwrap()
    }

    pub fn set_velocity(&mut self, c: Component<Velocity>, t: Velocity)
        requires
            old(self).wf(),
            c.idx < old(self).entity,
            old(self).velocities@[c.idx as int] is Some,
            velocity_wf(t),
        ensures
            final(self).wf(),
            old(self).sound() ==> final(self).sound(),
            final(self).entity == old(self).entity,
            final(self).delete@ == old(self).delete@,
            lazy_eq(old(self).lazy, final(self).lazy),
            eq_arrays_except_velocities(*old(self), *final(self)),
            final(self).velocities@ == old(self).velocities@.update(c.idx as int, Some(t)),
    {
        self.velocities.set(c.idx, Some(t));
    }

    pub fn get_direction(&self, c: Component<Direction>) -> (r: &Direction)
        requires
            self.wf(),
            c.idx < self.entity,
            self.directions@[c.idx as int] is Some,
        ensures
            self.directions@[c.idx as int] == Some(*r),
    {
        self.directions[c.idx].as_ref().unwrap()
    }

    pub fn set_direction(&mut self, c: Component<Direction>, t: Direction)
        requires
            old(self).wf(),
            c.idx < old(self).entity,
            old(self).directions@[c.idx as int] is Some,
        ensures
            final(self).wf(),
            old(self).sound() ==> final(self).sound(),
            final(self).entity == old(self).entity,
            final(self).delete@ == old(self).delete@,
            lazy_eq(old(self).lazy, final(self).lazy),
            eq_arrays_except_directions(*old(self), *final(self)),
            final(self).directions@ == old(self).directions@.update(c.idx as int, Some(t)),
    {
        self.directions.set(c.idx, Some(t));
    }

    pub fn get_body(&self, c: Component<Body>) -> (r: &Body)
        requires
            self.wf(),
            c.idx < self.entity,
            self.bodies@[c.idx as int] is Some,
        ensures
            self.bodies@[c.idx as int] == Some(*r),
    {
        self.bodies[c.idx].as_ref().unwrap()
    }

    pub fn get_draw(&self, c: Component<Draw>) -> (r: &Draw)
        requires
            self.wf(),
            c.idx < self.entity,
            self.draw@[c.idx as int] is Some,
        ensures
            self.draw@[c.idx as int] == Some(*r),
    {
        self.draw[c.idx].as_ref().unwrap()
    }

    pub fn get_network(&self, c: Component<Network>) -> (r: &Network)
        requires
            self.wf(),
            c.idx < self.entity,
            self.nns@[c.idx as int] is Some,
        ensures
            self.nns@[c.idx as int] == Some(*r),
    {
        self.nns[c.idx].as_ref().unwrap()
    }

    pub fn get_inputs(&self, c: Component<Inputs>) -> (r: &Inputs)
        requires
            self.wf(),
            c.idx < self.entity,
            self.inputs@[c.idx as int] is Some,
        ensures
            self.inputs@[c.idx as int] == Some(*r),
    {
        self.inputs[c.idx].as_ref().unwrap()
    }

    pub fn set_inputs(&mut self, c: Component<Inputs>, t: Inputs)
        requires
            old(self).wf(),
            c.idx < old(self).entity,
            old(self).inputs@[c.idx as int] is Some,
            activations_wf(t.input@),
        ensures
            final(self).wf(),
            old(self).sound() ==> final(self).sound(),
            final(self).entity == old(self).entity,
            final(self).delete@ == old(self).delete@,
            lazy_eq(old(self).lazy, final(self).lazy),
            eq_arrays_except_inputs(*old(self), *final(self)),
            final(self).inputs@ == old(self).inputs@.update(c.idx as int, Some(t)),
    {
        self.inputs.set(c.idx, Some(t));
    }

    pub fn get_outputs(&self, c: Component<Outputs>) -> (r: &Outputs)
        requires
            self.wf(),
            c.idx < self.entity,
            self.outputs@[c.idx as int] is Some,
        ensures
            self.outputs@[c.idx as int] == Some(*r),
    {
        self.outputs[c.idx].as_ref().unwrap()
    }

    pub fn set_outputs(&mut self, c: Component<Outputs>, t: Outputs)
        requires
            old(self).wf(),
            c.idx < old(self).entity,
            old(self).outputs@[c.idx as int] is Some,
            activations_wf(t.output@),
        ensures
            final(self).wf(),
            old(self).sound() ==> final(self).sound(),
            final(self).entity == old(self).entity,
            final(self).delete@ == old(self).delete@,
            lazy_eq(old(self).lazy, final(self).lazy),
            eq_arrays_except_outputs(*old(self), *final(self)),
            final(self).outputs@ == old(self).outputs@.update(c.idx as int, Some(t)),
    {
        self.outputs.set(c.idx, Some(t));
    }

    pub fn get_desired(&self, c: Component<Desired>) -> (r: &Desired)
        requires
            self.wf(),
            c.idx < self.entity,
            self.desired@[c.idx as int] is Some,
        ensures
            self.desired@[c.idx as int] == Some(*r),
    {
        self.desired[c.idx].as_ref().unwrap()
    }


    /// Applies every queued update: gives the queued entities the next live
    /// indices and splices their rows onto the live arrays, clears the row of
    /// every entity in the pending-deletion set (marked or queued for
    /// removal), and empties all buffers. Returns the entities created and
    /// the entities removed.
    ///
    /// Running it twice in a row with nothing queued in between returns two
    /// empty lists both times and leaves the store unchanged: every commit
    /// establishes `nothing_queued`, and the last clause below then gives the
    /// arrays back untouched.
    pub fn commit(&mut self) -> (r: (Vec<Entity>, Vec<Entity>))
        requires
            old(self).wf(),
            old(self).entity + old(self).lazy.entity <= usize::MAX,
        ensures
            final(self).wf(),
            old(self).sound() ==> final(self).sound(),
            final(self).entity == old(self).entity + old(self).lazy.entity,
            final(self).nothing_queued(),
            r.0@ == created_seq(old(self).entity as int, old(self).lazy.entity as int),
            r.1@ == old(self).removed_upto(old(self).entity as int),
            forall|i: int|
                0 <= i < old(self).entity ==> #[trigger] final(self).creatures@[i] == (if old(
                    self,
                ).pending(i) {
                    None::<Creature>
                } else {
                    old(self).creatures@[i]
                }),
            forall|i: int|
                old(self).entity <= i < final(self).entity ==> #[trigger] final(self).creatures@[i]
                    == old(self).lazy.creatures@[i - old(self).entity],
            forall|i: int|
                0 <= i < old(self).entity ==> #[trigger] final(self).foods@[i] == (if old(
                    self,
                ).pending(i) {
                    None::<Food>
                } else {
                    old(self).foods@[i]
                }),
            forall|i: int|
                old(self).entity <= i < final(self).entity ==> #[trigger] final(self).foods@[i]
                    == old(self).lazy.foods@[i - old(self).entity],
            forall|i: int|
                0 <= i < old(self).entity ==> #[trigger] final(self).positions@[i] == (if old(
                    self,
                ).pending(i) {
                    None::<Position>
                } else {
                    old(self).positions@[i]
                }),
            forall|i: int|
                old(self).entity <= i < final(self).entity ==> #[trigger] final(self).positions@[i]
                    == old(self).lazy.positions@[i - old(self).entity],
            forall|i: int|
                0 <= i < old(self).entity ==> #[trigger] final(self).velocities@[i] == (if old(
                    self,
                ).pending(i) {
                    None::<Velocity>
                } else {
                    old(self).velocities@[i]
                }),
            forall|i: int|
                old(self).entity <= i < final(self).entity ==> #[trigger] final(self).velocities@[i]
                    == old(self).lazy.velocities@[i - old(self).entity],
            forall|i: int|
                0 <= i < old(self).entity ==> #[trigger] final(self).directions@[i] == (if old(
                    self,
                ).pending(i) {
                    None::<Direction>
                } else {
                    old(self).directions@[i]
                }),
            forall|i: int|
                old(self).entity <= i < final(self).entity ==> #[trigger] final(self).directions@[i]
                    == old(self).lazy.directions@[i - old(self).entity],
            forall|i: int|
                0 <= i < old(self).entity ==> #[trigger] final(self).bodies@[i] == (if old(
                    self,
                ).pending(i) {
                    None::<Body>
                } else {
                    old(self).bodies@[i]
                }),
            forall|i: int|
                old(self).entity <= i < final(self).entity ==> #[trigger] final(self).bodies@[i]
                    == old(self).lazy.bodies@[i - old(self).entity],
            forall|i: int|
                0 <= i < old(self).entity ==> #[trigger] final(self).draw@[i] == (if old(
                    self,
                ).pending(i) {
                    None::<Draw>
                } else {
                    old(self).draw@[i]
                }),
            forall|i: int|
                old(self).entity <= i < final(self).entity ==> #[trigger] final(self).draw@[i]
                    == old(self).lazy.draw@[i - old(self).entity],
            forall|i: int|
                0 <= i < old(self).entity ==> #[trigger] final(self).nns@[i] == (if old(
                    self,
                ).pending(i) {
                    None::<Network>
                } else {
                    old(self).nns@[i]
                }),
            forall|i: int|
                old(self).entity <= i < final(self).entity ==> #[trigger] final(self).nns@[i]
                    == old(self).lazy.nns@[i - old(self).entity],
            forall|i: int|
                0 <= i < old(self).entity ==> #[trigger] final(self).inputs@[i] == (if old(
                    self,
                ).pending(i) {
                    None::<Inputs>
                } else {
                    old(self).inputs@[i]
                }),
            forall|i: int|
                old(self).entity <= i < final(self).entity ==> #[trigger] final(self).inputs@[i]
                    == old(self).lazy.inputs@[i - old(self).entity],
            forall|i: int|
                0 <= i < old(self).entity ==> #[trigger] final(self).outputs@[i] == (if old(
                    self,
                ).pending(i) {
                    None::<Outputs>
                } else {
                    old(self).outputs@[i]
                }),
            forall|i: int|
                old(self).entity <= i < final(self).entity ==> #[trigger] final(self).outputs@[i]
                    == old(self).lazy.outputs@[i - old(self).entity],
            forall|i: int|
                0 <= i < old(self).entity ==> #[trigger] final(self).desired@[i] == (if old(
                    self,
                ).pending(i) {
                    None::<Desired>
                } else {
                    old(self).desired@[i]
                }),
            forall|i: int|
                old(self).entity <= i < final(self).entity ==> #[trigger] final(self).desired@[i]
                    == old(self).lazy.desired@[i - old(self).entity],
            old(self).nothing_queued() ==> (r.0@.len() == 0 && r.1@.len() == 0 && eq_arrays(
                *old(self),
                *final(self),
            ) && final(self).delete@ == old(self).delete@),
    {
        let ghost pre = *old(self);
        let old_entity = self.entity;
        let delta = self.lazy.entity;

        // Fold the queued removal requests into the deletion marks, so one
        // sweep below serves both.
        let mut k: usize = 0;
        while k < self.lazy.remove.len()
            invariant
                pre.wf(),
                k <= self.lazy.remove@.len(),
                self.entity == pre.entity,
                lazy_eq(self.lazy, pre.lazy),
                eq_arrays(pre, *self),
                self.delete@.len() == pre.delete@.len(),
                forall|i: int|
                    0 <= i < self.delete@.len() ==> #[trigger] self.delete@[i] == (pre.delete@[i]
                        || exists|j: int|
                        0 <= j < k && (#[trigger] pre.lazy.remove@[j]).idx == i),
            decreases self.lazy.remove@.len() - k,
        {
            let e = self.lazy.remove[k];
            self.delete.set(e.idx, true);
            k = k + 1;
        }
        assert(forall|i: int|
            0 <= i < self.delete@.len() ==> #[trigger] self.delete@[i] == pre.pending(i));

        // The queued rows become the next contiguous indices.
        let mut created: Vec<Entity> = Vec::new();
        let mut idx: usize = old_entity;
        while idx < old_entity + delta
            invariant
                old_entity <= idx <= old_entity + delta <= usize::MAX,
                created@.len() == idx - old_entity,
                forall|m: int|
                    0 <= m < created@.len() ==> #[trigger] created@[m] == (Entity {
                        idx: (old_entity + m) as usize,
                    }),
            decreases old_entity + delta - idx,
        {
            created.push(Entity { idx });
            idx = idx + 1;
        }
        proof {
            assert(created@ =~= created_seq(pre.entity as int, pre.lazy.entity as int));
        }

        // Fresh rows start unmarked.
        let mut c: usize = 0;
        while c < delta
            invariant
                c <= delta,
                self.entity == pre.entity,
                lazy_eq(self.lazy, pre.lazy),
                eq_arrays(pre, *self),
                self.delete@.len() == pre.delete@.len() + c,
                forall|i: int|
                    0 <= i < pre.delete@.len() ==> #[trigger] self.delete@[i] == pre.pending(i),
                forall|i: int|
                    pre.delete@.len() <= i < self.delete@.len() ==> !(#[trigger] self.delete@[i]),
            decreases delta - c,
        {
            self.delete.push(false);
            c = c + 1;
        }

        // Splice the queued rows onto the live arrays and empty the buffer.
        self.creatures.append(&mut self.lazy.creatures);
        self.foods.append(&mut self.lazy.foods);
        self.positions.append(&mut self.lazy.positions);
        self.velocities.append(&mut self.lazy.velocities);
        self.directions.append(&mut self.lazy.directions);
        self.bodies.append(&mut self.lazy.bodies);
        self.draw.append(&mut self.lazy.draw);
        self.nns.append(&mut self.lazy.nns);
        self.inputs.append(&mut self.lazy.inputs);
        self.outputs.append(&mut self.lazy.outputs);
        self.desired.append(&mut self.lazy.desired);
        self.entity = old_entity + delta;
        self.lazy.entity = 0;
        self.lazy.remove.clear();

        // Clear every pending row, returning the cleared entities in index
        // order, and reset the marks.
        let mut removed: Vec<Entity> = Vec::new();
        let mut i: usize = 0;
        while i < old_entity
            invariant
                pre.wf(),
                i <= old_entity,
                old_entity == pre.entity,
                self.entity == pre.entity + pre.lazy.entity,
                self.delete@.len() == self.entity,
                self.lazy.wf(),
                self.lazy.entity == 0,
                self.lazy.remove@.len() == 0,
                forall|j: int| 0 <= j < i ==> !(#[trigger] self.delete@[j]),
                forall|j: int|
                    i <= j < old_entity ==> #[trigger] self.delete@[j] == pre.pending(j),
                forall|j: int|
                    old_entity <= j < self.entity ==> !(#[trigger] self.delete@[j]),
                removed@ == pre.removed_upto(i as int),
                self.creatures@.len() == self.entity,
                forall|j: int|
                    0 <= j < i ==> #[trigger] self.creatures@[j] == (if pre.pending(j) {
                        None::<Creature>
                    } else {
                        pre.creatures@[j]
                    }),
                forall|j: int| i <= j < old_entity ==> #[trigger] self.creatures@[j] == pre.creatures@[j],
                forall|j: int|
                    old_entity <= j < self.entity ==> #[trigger] self.creatures@[j] == pre.lazy.creatures@[j
                        - old_entity],
                self.foods@.len() == self.entity,
                forall|j: int|
                    0 <= j < i ==> #[trigger] self.foods@[j] == (if pre.pending(j) {
                        None::<Food>
                    } else {
                        pre.foods@[j]
                    }),
                forall|j: int| i <= j < old_entity ==> #[trigger] self.foods@[j] == pre.foods@[j],
                forall|j: int|
                    old_entity <= j < self.entity ==> #[trigger] self.foods@[j] == pre.lazy.foods@[j
                        - old_entity],
                self.positions@.len() == self.entity,
                forall|j: int|
                    0 <= j < i ==> #[trigger] self.positions@[j] == (if pre.pending(j) {
                        None::<Position>
                    } else {
                        pre.positions@[j]
                    }),
                forall|j: int| i <= j < old_entity ==> #[trigger] self.positions@[j] == pre.positions@[j],
                forall|j: int|
                    old_entity <= j < self.entity ==> #[trigger] self.positions@[j] == pre.lazy.positions@[j
                        - old_entity],
                self.velocities@.len() == self.entity,
                forall|j: int|
                    0 <= j < i ==> #[trigger] self.velocities@[j] == (if pre.pending(j) {
                        None::<Velocity>
                    } else {
                        pre.velocities@[j]
                    }),
                forall|j: int| i <= j < old_entity ==> #[trigger] self.velocities@[j] == pre.velocities@[j],
                forall|j: int|
                    old_entity <= j < self.entity ==> #[trigger] self.velocities@[j] == pre.lazy.velocities@[j
                        - old_entity],
                self.directions@.len() == self.entity,
                forall|j: int|
                    0 <= j < i ==> #[trigger] self.directions@[j] == (if pre.pending(j) {
                        None::<Direction>
                    } else {
                        pre.directions@[j]
                    }),
                forall|j: int| i <= j < old_entity ==> #[trigger] self.directions@[j] == pre.directions@[j],
                forall|j: int|
                    old_entity <= j < self.entity ==> #[trigger] self.directions@[j] == pre.lazy.directions@[j
                        - old_entity],
                self.bodies@.len() == self.entity,
                forall|j: int|
                    0 <= j < i ==> #[trigger] self.bodies@[j] == (if pre.pending(j) {
                        None::<Body>
                    } else {
                        pre.bodies@[j]
                    }),
                forall|j: int| i <= j < old_entity ==> #[trigger] self.bodies@[j] == pre.bodies@[j],
                forall|j: int|
                    old_entity <= j < self.entity ==> #[trigger] self.bodies@[j] == pre.lazy.bodies@[j
                        - old_entity],
                self.draw@.len() == self.entity,
                forall|j: int|
                    0 <= j < i ==> #[trigger] self.draw@[j] == (if pre.pending(j) {
                        None::<Draw>
                    } else {
                        pre.draw@[j]
                    }),
                forall|j: int| i <= j < old_entity ==> #[trigger] self.draw@[j] == pre.draw@[j],
                forall|j: int|
                    old_entity <= j < self.entity ==> #[trigger] self.draw@[j] == pre.lazy.draw@[j
                        - old_entity],
                self.nns@.len() == self.entity,
                forall|j: int|
                    0 <= j < i ==> #[trigger] self.nns@[j] == (if pre.pending(j) {
                        None::<Network>
                    } else {
                        pre.nns@[j]
                    }),
                forall|j: int| i <= j < old_entity ==> #[trigger] self.nns@[j] == pre.nns@[j],
                forall|j: int|
                    old_entity <= j < self.entity ==> #[trigger] self.nns@[j] == pre.lazy.nns@[j
                        - old_entity],
                self.inputs@.len() == self.entity,
                forall|j: int|
                    0 <= j < i ==> #[trigger] self.inputs@[j] == (if pre.pending(j) {
                        None::<Inputs>
                    } else {
                        pre.inputs@[j]
                    }),
                forall|j: int| i <= j < old_entity ==> #[trigger] self.inputs@[j] == pre.inputs@[j],
                forall|j: int|
                    old_entity <= j < self.entity ==> #[trigger] self.inputs@[j] == pre.lazy.inputs@[j
                        - old_entity],
                self.outputs@.len() == self.entity,
                forall|j: int|
                    0 <= j < i ==> #[trigger] self.outputs@[j] == (if pre.pending(j) {
                        None::<Outputs>
                    } else {
                        pre.outputs@[j]
                    }),
                forall|j: int| i <= j < old_entity ==> #[trigger] self.outputs@[j] == pre.outputs@[j],
                forall|j: int|
                    old_entity <= j < self.entity ==> #[trigger] self.outputs@[j] == pre.lazy.outputs@[j
                        - old_entity],
                self.desired@.len() == self.entity,
                forall|j: int|
                    0 <= j < i ==> #[trigger] self.desired@[j] == (if pre.pending(j) {
                        None::<Desired>
                    } else {
                        pre.desired@[j]
                    }),
                forall|j: int| i <= j < old_entity ==> #[trigger] self.desired@[j] == pre.desired@[j],
                forall|j: int|
                    old_entity <= j < self.entity ==> #[trigger] self.desired@[j] == pre.lazy.desired@[j
                        - old_entity],
            decreases old_entity - i,
        {
            if self.delete[i] {
                self.creatures.set(i, None);
                self.foods.set(i, None);
                self.positions.set(i, None);
                self.velocities.set(i, None);
                self.directions.set(i, None);
                self.bodies.set(i, None);
                self.draw.set(i, None);
                self.nns.set(i, None);
                self.inputs.set(i, None);
                self.outputs.set(i, None);
                self.desired.set(i, None);
                self.delete.set(i, false);
                removed.push(Entity { idx: i });
            }
            i = i + 1;
        }

        proof {
            if pre.nothing_queued() {
                lemma_removed_upto_all_clear(pre, pre.entity as int);
                let final_gd = *self;
                assert(final_gd.creatures@ =~= pre.creatures@);
                assert(final_gd.foods@ =~= pre.foods@);
                assert(final_gd.positions@ =~= pre.positions@);
                assert(final_gd.velocities@ =~= pre.velocities@);
                assert(final_gd.directions@ =~= pre.directions@);
                assert(final_gd.bodies@ =~= pre.bodies@);
                assert(final_gd.draw@ =~= pre.draw@);
                assert(final_gd.nns@ =~= pre.nns@);
                assert(final_gd.inputs@ =~= pre.inputs@);
                assert(final_gd.outputs@ =~= pre.outputs@);
                assert(final_gd.desired@ =~= pre.desired@);
                assert(final_gd.delete@ =~= pre.delete@);
            }
        }
        (created, removed)
    }

    /// Moves an entity's network out of the store, leaving the slot empty;
    /// the caller is expected to put an updated network back with `insert`.
    pub fn take_network(&mut self, c: Component<Network>) -> (r: Network)
        requires
            old(self).wf(),
            c.idx < old(self).entity,
            old(self).nns@[c.idx as int] is Some,
        ensures
            final(self).wf(),
            old(self).sound() ==> final(self).sound(),
            old(self).sound() ==> r.wf(),
            final(self).entity == old(self).entity,
            final(self).delete@ == old(self).delete@,
            lazy_eq(old(self).lazy, final(self).lazy),
            eq_arrays_except_nns(*old(self), *final(self)),
            old(self).nns@[c.idx as int] == Some(r),
            final(self).nns@ == old(self).nns@.update(c.idx as int, None),
    {
        let mut t: Option<Network> = None;
        self.nns.set_and_swap(c.idx, &mut t);
        t.unwrap()
    }

}

impl Has<Creature> for GameData {
    open spec fn has_req(&self, i: int) -> bool {
        self.wf() && 0 <= i < self.entity
    }

    open spec fn has_spec(&self, i: int) -> bool {
        !self.delete@[i] && self.creatures@[i] is Some
    }

    fn has(&self, c: Component<Creature>) -> (r: bool) {
        if self.delete[c.idx] {
            return false;
        }
        self.creatures[c.idx].is_some()
    }
}

impl Has<Food> for GameData {
    open spec fn has_req(&self, i: int) -> bool {
        self.wf() && 0 <= i < self.entity
    }

    open spec fn has_spec(&self, i: int) -> bool {
        !self.delete@[i] && self.foods@[i] is Some
    }

    fn has(&self, c: Component<Food>) -> (r: bool) {
        if self.delete[c.idx] {
            return false;
        }
        self.foods[c.idx].is_some()
    }
}

impl Has<Position> for GameData {
    open spec fn has_req(&self, i: int) -> bool {
        self.wf() && 0 <= i < self.entity
    }

    open spec fn has_spec(&self, i: int) -> bool {
        !self.delete@[i] && self.positions@[i] is Some
    }

    fn has(&self, c: Component<Position>) -> (r: bool) {
        if self.delete[c.idx] {
            return false;
        }
        self.positions[c.idx].is_some()
    }
}

impl Has<Velocity> for GameData {
    open spec fn has_req(&self, i: int) -> bool {
        self.wf() && 0 <= i < self.entity
    }

    open spec fn has_spec(&self, i: int) -> bool {
        !self.delete@[i] && self.velocities@[i] is Some
    }

    fn has(&self, c: Component<Velocity>) -> (r: bool) {
        if self.delete[c.idx] {
            return false;
        }
        self.velocities[c.idx].is_some()
    }
}

impl Has<Direction> for GameData {
    open spec fn has_req(&self, i: int) -> bool {
        self.wf() && 0 <= i < self.entity
    }

    open spec fn has_spec(&self, i: int) -> bool {
        !self.delete@[i] && self.directions@[i] is Some
    }

    fn has(&self, c: Component<Direction>) -> (r: bool) {
        if self.delete[c.idx] {
            return false;
        }
        self.directions[c.idx].is_some()
    }
}

impl Has<Body> for GameData {
    open spec fn has_req(&self, i: int) -> bool {
        self.wf() && 0 <= i < self.entity
    }

    open spec fn has_spec(&self, i: int) -> bool {
        !self.delete@[i] && self.bodies@[i] is Some
    }

    fn has(&self, c: Component<Body>) -> (r: bool) {
        if self.delete[c.idx] {
            return false;
        }
        self.bodies[c.idx].is_some()
    }
}

impl Has<Draw> for GameData {
    open spec fn has_req(&self, i: int) -> bool {
        self.wf() && 0 <= i < self.entity
    }

    open spec fn has_spec(&self, i: int) -> bool {
        !self.delete@[i] && self.draw@[i] is Some
    }

    fn has(&self, c: Component<Draw>) -> (r: bool) {
        if self.delete[c.idx] {
            return false;
        }
        self.draw[c.idx].is_some()
    }
}

impl Has<Network> for GameData {
    open spec fn has_req(&self, i: int) -> bool {
        self.wf() && 0 <= i < self.entity
    }

    open spec fn has_spec(&self, i: int) -> bool {
        !self.delete@[i] && self.nns@[i] is Some
    }

    fn has(&self, c: Component<Network>) -> (r: bool) {
        if self.delete[c.idx] {
            return false;
        }
        self.nns[c.idx].is_some()
    }
}

impl Has<Inputs> for GameData {
    open spec fn has_req(&self, i: int) -> bool {
        self.wf() && 0 <= i < self.entity
    }

    open spec fn has_spec(&self, i: int) -> bool {
        !self.delete@[i] && self.inputs@[i] is Some
    }

    fn has(&self, c: Component<Inputs>) -> (r: bool) {
        if self.delete[c.idx] {
            return false;
        }
        self.inputs[c.idx].is_some()
    }
}

impl Has<Outputs> for GameData {
    open spec fn has_req(&self, i: int) -> bool {
        self.wf() && 0 <= i < self.entity
    }

    open spec fn has_spec(&self, i: int) -> bool {
        !self.delete@[i] && self.outputs@[i] is Some
    }

    fn has(&self, c: Component<Outputs>) -> (r: bool) {
        if self.delete[c.idx] {
            return false;
        }
        self.outputs[c.idx].is_some()
    }
}

impl Has<Desired> for GameData {
    open spec fn has_req(&self, i: int) -> bool {
        self.wf() && 0 <= i < self.entity
    }

    open spec fn has_spec(&self, i: int) -> bool {
        !self.delete@[i] && self.desired@[i] is Some
    }

    fn has(&self, c: Component<Desired>) -> (r: bool) {
        if self.delete[c.idx] {
            return false;
        }
        self.desired[c.idx].is_some()
    }
}

impl Insert<Creature> for GameData {
    open spec fn insert_req(&self, i: int, t: Creature) -> bool {
        &&& self.wf()
        &&& 0 <= i < self.entity
    }

    open spec fn insert_post(&self, i: int, t: Creature, post: &Self) -> bool {
        &&& post.wf()
        &&& (self.sound() ==> post.sound())
        &&& post.entity == self.entity
        &&& post.delete@ == self.delete@
        &&& lazy_eq(self.lazy, post.lazy)
        &&& eq_arrays_except_creatures(*self, *post)
        &&& post.creatures@ == self.creatures@.update(i, Some(t))
    }

    fn insert(&mut self, e: Entity, t: Creature) {
        self.creatures.set(e.idx, Some(t));
    }
}

impl Insert<Food> for GameData {
    open spec fn insert_req(&self, i: int, t: Food) -> bool {
        &&& self.wf()
        &&& 0 <= i < self.entity
    }

    open spec fn insert_post(&self, i: int, t: Food, post: &Self) -> bool {
        &&& post.wf()
        &&& (self.sound() ==> post.sound())
        &&& post.entity == self.entity
        &&& post.delete@ == self.delete@
        &&& lazy_eq(self.lazy, post.lazy)
        &&& eq_arrays_except_foods(*self, *post)
        &&& post.foods@ == self.foods@.update(i, Some(t))
    }

    fn insert(&mut self, e: Entity, t: Food) {
        self.foods.set(e.idx, Some(t));
    }
}

impl Insert<Position> for GameData {
    open spec fn insert_req(&self, i: int, t: Position) -> bool {
        &&& self.wf()
        &&& 0 <= i < self.entity
        &&& position_wf(t)
    }

    open spec fn insert_post(&self, i: int, t: Position, post: &Self) -> bool {
        &&& post.wf()
        &&& (self.sound() ==> post.sound())
        &&& post.entity == self.entity
        &&& post.delete@ == self.delete@
        &&& lazy_eq(self.lazy, post.lazy)
        &&& eq_arrays_except_positions(*self, *post)
        &&& post.positions@ == self.positions@.update(i, Some(t))
    }

    fn insert(&mut self, e: Entity, t: Position) {
        self.positions.set(e.idx, Some(t));
    }
}

impl Insert<Velocity> for GameData {
    open spec fn insert_req(&self, i: int, t: Velocity) -> bool {
        &&& self.wf()
        &&& 0 <= i < self.entity
        &&& velocity_wf(t)
    }

    open spec fn insert_post(&self, i: int, t: Velocity, post: &Self) -> bool {
        &&& post.wf()
        &&& (self.sound() ==> post.sound())
        &&& post.entity == self.entity
        &&& post.delete@ == self.delete@
        &&& lazy_eq(self.lazy, post.lazy)
        &&& eq_arrays_except_velocities(*self, *post)
        &&& post.velocities@ == self.velocities@.update(i, Some(t))
    }

    fn insert(&mut self, e: Entity, t: Velocity) {
        self.velocities.set(e.idx, Some(t));
    }
}

impl Insert<Direction> for GameData {
    open spec fn insert_req(&self, i: int, t: Direction) -> bool {
        &&& self.wf()
        &&& 0 <= i < self.entity
    }

    open spec fn insert_post(&self, i: int, t: Direction, post: &Self) -> bool {
        &&& post.wf()
        &&& (self.sound() ==> post.sound())
        &&& post.entity == self.entity
        &&& post.delete@ == self.delete@
        &&& lazy_eq(self.lazy, post.lazy)
        &&& eq_arrays_except_directions(*self, *post)
        &&& post.directions@ == self.directions@.update(i, Some(t))
    }

    fn insert(&mut self, e: Entity, t: Direction) {
        self.directions.set(e.idx, Some(t));
    }
}

impl Insert<Body> for GameData {
    open spec fn insert_req(&self, i: int, t: Body) -> bool {
        &&& self.wf()
        &&& 0 <= i < self.entity
        &&& body_wf(t)
    }

    open spec fn insert_post(&self, i: int, t: Body, post: &Self) -> bool {
        &&& post.wf()
        &&& (self.sound() ==> post.sound())
        &&& post.entity == self.entity
        &&& post.delete@ == self.delete@
        &&& lazy_eq(self.lazy, post.lazy)
        &&& eq_arrays_except_bodies(*self, *post)
        &&& post.bodies@ == self.bodies@.update(i, Some(t))
    }

    fn insert(&mut self, e: Entity, t: Body) {
        self.bodies.set(e.idx, Some(t));
    }
}

impl Insert<Draw> for GameData {
    open spec fn insert_req(&self, i: int, t: Draw) -> bool {
        &&& self.wf()
        &&& 0 <= i < self.entity
        &&& rgba_wf(t.color)
    }

    open spec fn insert_post(&self, i: int, t: Draw, post: &Self) -> bool {
        &&& post.wf()
        &&& (self.sound() ==> post.sound())
        &&& post.entity == self.entity
        &&& post.delete@ == self.delete@
        &&& lazy_eq(self.lazy, post.lazy)
        &&& eq_arrays_except_draw(*self, *post)
        &&& post.draw@ == self.draw@.update(i, Some(t))
    }

    fn insert(&mut self, e: Entity, t: Draw) {
        self.draw.set(e.idx, Some(t));
    }
}

impl Insert<Network> for GameData {
    open spec fn insert_req(&self, i: int, t: Network) -> bool {
        &&& self.wf()
        &&& 0 <= i < self.entity
        &&& t.wf()
    }

    open spec fn insert_post(&self, i: int, t: Network, post: &Self) -> bool {
        &&& post.wf()
        &&& (self.sound() ==> post.sound())
        &&& post.entity == self.entity
        &&& post.delete@ == self.delete@
        &&& lazy_eq(self.lazy, post.lazy)
        &&& eq_arrays_except_nns(*self, *post)
        &&& post.nns@ == self.nns@.update(i, Some(t))
    }

    fn insert(&mut self, e: Entity, t: Network) {
        self.nns.set(e.idx, Some(t));
    }
}

impl Insert<Inputs> for GameData {
    open spec fn insert_req(&self, i: int, t: Inputs) -> bool {
        &&& self.wf()
        &&& 0 <= i < self.entity
        &&& activations_wf(t.input@)
    }

    open spec fn insert_post(&self, i: int, t: Inputs, post: &Self) -> bool {
        &&& post.wf()
        &&& (self.sound() ==> post.sound())
        &&& post.entity == self.entity
        &&& post.delete@ == self.delete@
        &&& lazy_eq(self.lazy, post.lazy)
        &&& eq_arrays_except_inputs(*self, *post)
        &&& post.inputs@ == self.inputs@.update(i, Some(t))
    }

    fn insert(&mut self, e: Entity, t: Inputs) {
        self.inputs.set(e.idx, Some(t));
    }
}

impl Insert<Outputs> for GameData {
    open spec fn insert_req(&self, i: int, t: Outputs) -> bool {
        &&& self.wf()
        &&& 0 <= i < self.entity
        &&& activations_wf(t.output@)
    }

    open spec fn insert_post(&self, i: int, t: Outputs, post: &Self) -> bool {
        &&& post.wf()
        &&& (self.sound() ==> post.sound())
        &&& post.entity == self.entity
        &&& post.delete@ == self.delete@
        &&& lazy_eq(self.lazy, post.lazy)
        &&& eq_arrays_except_outputs(*self, *post)
        &&& post.outputs@ == self.outputs@.update(i, Some(t))
    }

    fn insert(&mut self, e: Entity, t: Outputs) {
        self.outputs.set(e.idx, Some(t));
    }
}

impl Insert<Desired> for GameData {
    open spec fn insert_req(&self, i: int, t: Desired) -> bool {
        &&& self.wf()
        &&& 0 <= i < self.entity
        &&& activations_wf(t.desired@)
    }

    open spec fn insert_post(&self, i: int, t: Desired, post: &Self) -> bool {
        &&& post.wf()
        &&& (self.sound() ==> post.sound())
        &&& post.entity == self.entity
        &&& post.delete@ == self.delete@
        &&& lazy_eq(self.lazy, post.lazy)
        &&& eq_arrays_except_desired(*self, *post)
        &&& post.desired@ == self.desired@.update(i, Some(t))
    }

    fn insert(&mut self, e: Entity, t: Desired) {
        self.desired.set(e.idx, Some(t));
    }
}

/// With nothing pending among the first `n` rows, a commit removes nothing.
pub proof fn lemma_removed_upto_all_clear(d: GameData, n: int)
    requires
        forall|i: int| 0 <= i < n ==> !d.pending(i),
    ensures
        d.removed_upto(n).len() == 0,
    decreases n,
{
    if n > 0 {
        lemma_removed_upto_all_clear(d, n - 1);
    }
}

/// Deletion visibility: an entity marked for deletion answers `has` with
/// `false` for every component type at once, even before the next commit
/// physically clears its row.
pub proof fn lemma_marked_entity_has_nothing(d: GameData, i: int)
    requires
        d.wf(),
        0 <= i < d.entity,
        d.delete@[i],
    ensures
        !<GameData as Has<Creature>>::has_spec(&d, i),
        !<GameData as Has<Food>>::has_spec(&d, i),
        !<GameData as Has<Position>>::has_spec(&d, i),
        !<GameData as Has<Velocity>>::has_spec(&d, i),
        !<GameData as Has<Direction>>::has_spec(&d, i),
        !<GameData as Has<Body>>::has_spec(&d, i),
        !<GameData as Has<Draw>>::has_spec(&d, i),
        !<GameData as Has<Network>>::has_spec(&d, i),
        !<GameData as Has<Inputs>>::has_spec(&d, i),
        !<GameData as Has<Outputs>>::has_spec(&d, i),
        !<GameData as Has<Desired>>::has_spec(&d, i),
{
}

} // verus!
