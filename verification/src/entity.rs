//! The entity model: the three kinds, their tuning, the per-tick rules of a
//! single entity and the two pairwise exchanges.

use vstd::prelude::*;
use rand::rngs::StdRng;
use crate::chance::{pick_inclusive, roll};
use crate::position::{clamp_axis, Position};

verus! {

/// Identifies an entity for as long as the simulation runs.
pub type EntityId = u64;

/// One second, in the time unit of the simulation.
pub const SECOND: u64 = 1_000_000;

/// A gatherer pays upkeep once this much time has gathered.
pub const GATHERER_UPKEEP_PERIOD: u64 = 2_000_000;

/// A resource regrows once this much time has gathered.
pub const RESOURCE_REGROWTH_PERIOD: u64 = 1_000_000;

/// A predator pays upkeep once this much time has gathered.
pub const PREDATOR_UPKEEP_PERIOD: u64 = 3_000_000;

/// A predator that has not hunted for longer than this is hungry.
pub const HUNGER_AFTER: u64 = 18_000_000;

/// A predator that has not hunted for longer than this is starving.
pub const STARVATION_AFTER: u64 = 25_000_000;

/// A predator older than this dies.
pub const PREDATOR_LIFESPAN: u64 = 180_000_000;

/// The most energy a gatherer takes from a resource in one exchange.
pub const MEAL_SIZE: u32 = 30;

/// The most energy a predator takes from a gatherer in one hunt.
pub const PREY_SIZE: u32 = 40;

/// The kinds of entity.
#[derive(Debug, Clone, Copy, PartialEq, Eq, Structural)]
pub enum EntityType {
    Gatherer,
    Resource,
    Predator,
}

/// One inhabitant of the world. Times are in microseconds, `speed` in tenths
/// of a grid unit.
#[derive(Debug, Clone, Copy, PartialEq, Eq, Structural)]
pub struct Entity {
    pub id: EntityId,
    pub position: Position,
    pub energy: u32,
    pub entity_type: EntityType,
    pub color: u32,
    pub max_energy: u32,
    pub speed: u32,
    pub size: u32,
    pub age: u64,
    pub energy_consumption_timer: u64,
    pub time_since_last_hunt: u64,
}

/// The sum of two times, held at the largest representable time.
pub open spec fn time_sum(a: u64, b: u64) -> u64 {
    if a + b > u64::MAX { u64::MAX } else { (a + b) as u64 }
}

/// The brightness, out of 255, that shows `energy` out of `max_energy`.
pub open spec fn intensity(energy: u32, max_energy: u32) -> int {
    255 * energy / (max_energy as int)
}

/// The upkeep a predator pays after `since_hunt` without a hunt.
pub open spec fn predator_upkeep(since_hunt: u64) -> u32 {
    if since_hunt > STARVATION_AFTER { 3 } else if since_hunt > HUNGER_AFTER { 2 } else { 1 }
}

/// The colour that shows an entity's state: green for a gatherer, yellow for a
/// resource, red for a predator, dimmed by half for a hungry one.
pub open spec fn color_of(
    entity_type: EntityType,
    energy: u32,
    max_energy: u32,
    since_hunt: u64,
) -> int {
    let level = intensity(energy, max_energy);
    match entity_type {
        EntityType::Gatherer => level * 0x100,
        EntityType::Resource => level * 0x1_0000 + level * 0x100,
        EntityType::Predator => if since_hunt > HUNGER_AFTER {
            (level / 2) * 0x1_0000
        } else {
            level * 0x1_0000
        },
    }
}

impl EntityType {
    /// The energy no entity of this kind exceeds.
    pub open spec fn max_energy(self) -> u32 {
        match self {
            EntityType::Gatherer => 200,
            EntityType::Resource => 80,
            EntityType::Predator => 220,
        }
    }

    /// The energy an entity of this kind starts with.
    pub open spec fn initial_energy(self) -> u32 {
        match self {
            EntityType::Gatherer => 150,
            EntityType::Resource => 80,
            EntityType::Predator => 150,
        }
    }

    /// The speed of this kind, in tenths of a grid unit.
    pub open spec fn speed(self) -> u32 {
        match self {
            EntityType::Gatherer => 20,
            EntityType::Resource => 0,
            EntityType::Predator => 45,
        }
    }

    /// The size of this kind.
    pub open spec fn size(self) -> u32 {
        match self {
            EntityType::Gatherer => 3,
            EntityType::Resource => 2,
            EntityType::Predator => 4,
        }
    }

    /// The colour an entity of this kind starts with.
    pub open spec fn initial_color(self) -> u32 {
        match self {
            EntityType::Gatherer => 0x00FF00,
            EntityType::Resource => 0xFFFF00,
            EntityType::Predator => 0xFF0000,
        }
    }

    /// How much time gathers between two upkeep or regrowth events.
    pub open spec fn upkeep_period(self) -> u64 {
        match self {
            EntityType::Gatherer => GATHERER_UPKEEP_PERIOD,
            EntityType::Resource => RESOURCE_REGROWTH_PERIOD,
            EntityType::Predator => PREDATOR_UPKEEP_PERIOD,
        }
    }

    /// The farthest a random step of this kind goes on one axis: the whole
    /// part of the speed for a gatherer, of 1.2 times the speed for a predator.
    pub open spec fn wander_reach(self) -> int {
        match self {
            EntityType::Gatherer => self.speed() as int / 10,
            EntityType::Resource => 0,
            EntityType::Predator => (self.speed() * 12) / 100,
        }
    }
}

/// The sum of two times, held at the largest representable time.
pub fn add_time(a: u64, b: u64) -> (s: u64)
    ensures
        s == time_sum(a, b),
{
    if b > u64::MAX - a { u64::MAX } else { a + b }
}

/// The brightness, out of 255, that shows `energy` out of `max_energy`.
fn intensity_of(energy: u32, max_energy: u32) -> (level: u32)
    requires
        energy <= max_energy,
        0 < max_energy,
    ensures
        level == intensity(energy, max_energy),
        level <= 255,
{
    assert(255 * energy / (max_energy as int) <= 255) by (nonlinear_arith)
        requires 0 <= energy <= max_energy, 0 < max_energy;
    ((255 * (energy as u64)) / (max_energy as u64)) as u32
}

/// The colour that shows an entity's state.
pub fn derive_color(entity_type: EntityType, energy: u32, max_energy: u32, since_hunt: u64) -> (color: u32)
    requires
        energy <= max_energy,
        0 < max_energy,
    ensures
        color == color_of(entity_type, energy, max_energy, since_hunt),
        color <= 0xFFFFFF,
{
    let level: u32 = intensity_of(energy, max_energy);
    match entity_type {
        EntityType::Gatherer => level * 0x100,
        EntityType::Resource => level * 0x1_0000 + level * 0x100,
        EntityType::Predator => {
            if since_hunt > HUNGER_AFTER {
                (level / 2) * 0x1_0000
            } else {
                level * 0x1_0000
            }
        },
    }
}

impl Entity {
    /// A newly made entity of the given kind.
    pub open spec fn fresh(entity_type: EntityType, id: EntityId, position: Position) -> Entity {
        Entity {
            id,
            position,
            energy: entity_type.initial_energy(),
            entity_type,
            color: entity_type.initial_color(),
            max_energy: entity_type.max_energy(),
            speed: entity_type.speed(),
            size: entity_type.size(),
            age: 0,
            energy_consumption_timer: 0,
            time_since_last_hunt: 0,
        }
    }

    /// The entity carries the tuning of its kind and no more energy than its
    /// kind holds.
    pub open spec fn wf(self) -> bool {
        &&& self.max_energy == self.entity_type.max_energy()
        &&& self.speed == self.entity_type.speed()
        &&& self.size == self.entity_type.size()
        &&& self.energy <= self.max_energy
    }

    /// The entity has no energy left.
    pub open spec fn dead(self) -> bool {
        self.energy == 0
    }

    /// The two entities are close enough to interact: no farther apart than
    /// three times the sum of their sizes.
    pub open spec fn in_range(self, other: Entity) -> bool {
        self.position.distance_squared(other.position) <= (3 * (self.size + other.size)) * (3 * (
            self.size + other.size))
    }

    /// The entity once its clocks have run for `delta`: its age and upkeep
    /// timer, and for a predator the time since its last hunt.
    pub open spec fn clocked(self, delta: u64) -> Entity {
        Entity {
            age: time_sum(self.age, delta),
            energy_consumption_timer: time_sum(self.energy_consumption_timer, delta),
            time_since_last_hunt: if self.entity_type == EntityType::Predator {
                time_sum(self.time_since_last_hunt, delta)
            } else {
                self.time_since_last_hunt
            },
            ..self
        }
    }

    /// Enough time has gathered for the next upkeep or regrowth.
    pub open spec fn upkeep_due(self) -> bool {
        self.energy_consumption_timer >= self.entity_type.upkeep_period()
    }

    /// The energy left after paying `cost`, never below zero.
    pub open spec fn energy_less(self, cost: u32) -> u32 {
        if self.energy >= cost { (self.energy - cost) as u32 } else { 0 }
    }

    /// The energy after gaining `gain`, never above the kind's maximum.
    pub open spec fn energy_plus(self, gain: u32) -> u32 {
        if self.energy + gain <= self.max_energy { (self.energy + gain) as u32 } else { self.max_energy }
    }

    /// Where a random step leaves the entity in a world of the given extent.
    pub open spec fn wandered(self, width: usize, height: usize, wander: Option<(i32, i32)>) -> Position {
        match wander {
            Some((dx, dy)) => Position {
                x: clamp_axis(self.position.x + dx, width as int) as i32,
                y: clamp_axis(self.position.y + dy, height as int) as i32,
            },
            None => self.position,
        }
    }

    /// The entity with the colour that shows its state.
    pub open spec fn recolored(self) -> Entity {
        Entity {
            color: color_of(
                self.entity_type,
                self.energy,
                self.max_energy,
                self.time_since_last_hunt,
            ) as u32,
            ..self
        }
    }

    /// A gatherer's tick after its clocks have run: one energy of upkeep when
    /// due, the random step, the new colour.
    pub open spec fn gatherer_updated(
        self,
        width: usize,
        height: usize,
        wander: Option<(i32, i32)>,
    ) -> Entity {
        Entity {
            energy: if self.upkeep_due() { self.energy_less(1) } else { self.energy },
            energy_consumption_timer: if self.upkeep_due() { 0 } else { self.energy_consumption_timer },
            position: self.wandered(width, height, wander),
            ..self
        }.recolored()
    }

    /// A resource's tick after its clocks have run: two energy of regrowth
    /// when due, the new colour.
    pub open spec fn resource_updated(self) -> Entity {
        Entity {
            energy: if self.upkeep_due() { self.energy_plus(2) } else { self.energy },
            energy_consumption_timer: if self.upkeep_due() { 0 } else { self.energy_consumption_timer },
            ..self
        }.recolored()
    }

    /// A predator's tick after its clocks have run: upkeep when due, heavier
    /// the longer the last hunt lies back; then death if it has outlived its
    /// lifespan, with nothing else changed; else the random step and the new
    /// colour.
    pub open spec fn predator_updated(
        self,
        width: usize,
        height: usize,
        wander: Option<(i32, i32)>,
    ) -> Entity {
        let paid = Entity {
            energy: if self.upkeep_due() {
                self.energy_less(predator_upkeep(self.time_since_last_hunt))
            } else {
                self.energy
            },
            energy_consumption_timer: if self.upkeep_due() { 0 } else { self.energy_consumption_timer },
            ..self
        };
        if paid.age > PREDATOR_LIFESPAN {
            Entity { energy: 0, ..paid }
        } else {
            Entity { position: paid.wandered(width, height, wander), ..paid }.recolored()
        }
    }

    /// The entity after one tick of `delta` in a world of the given extent,
    /// where `wander` is the random step it takes, if it takes one.
    pub open spec fn advanced(
        self,
        delta: u64,
        width: usize,
        height: usize,
        wander: Option<(i32, i32)>,
    ) -> Entity {
        let c = self.clocked(delta);
        match self.entity_type {
            EntityType::Gatherer => c.gatherer_updated(width, height, wander),
            EntityType::Resource => c.resource_updated(),
            EntityType::Predator => c.predator_updated(width, height, wander),
        }
    }

    /// The entity may take a random step in a tick of `delta`: a gatherer
    /// always, a resource never, a predator unless the tick takes it past its
    /// lifespan.
    pub open spec fn roams(self, delta: u64) -> bool {
        match self.entity_type {
            EntityType::Gatherer => true,
            EntityType::Resource => false,
            EntityType::Predator => time_sum(self.age, delta) <= PREDATOR_LIFESPAN,
        }
    }

    /// A random step that the rules allow the entity in a tick of `delta`:
    /// none, or for an entity that roams one within its kind's reach on both
    /// axes.
    pub open spec fn admits(self, delta: u64, wander: Option<(i32, i32)>) -> bool {
        match wander {
            None => true,
            Some((dx, dy)) => {
                let reach = self.entity_type.wander_reach();
                &&& self.roams(delta)
                &&& -reach <= dx <= reach
                &&& -reach <= dy <= reach
            },
        }
    }

    /// The gatherer `self` can feed on `resource`: the kinds fit, the two are
    /// in range and the resource has energy left.
    pub open spec fn can_consume(self, resource: Entity) -> bool {
        &&& self.entity_type == EntityType::Gatherer
        &&& resource.entity_type == EntityType::Resource
        &&& self.in_range(resource)
        &&& resource.energy > 0
    }

    /// What one meal moves from the resource to the gatherer.
    pub open spec fn meal(resource: Entity) -> u32 {
        if resource.energy <= MEAL_SIZE { resource.energy } else { MEAL_SIZE }
    }

    /// The gatherer `self` after a meal from `resource`.
    pub open spec fn fed_by(self, resource: Entity) -> Entity {
        Entity { energy: self.energy_plus(Entity::meal(resource)), ..self }
    }

    /// The resource `self` after giving a meal.
    pub open spec fn grazed(self) -> Entity {
        Entity { energy: (self.energy - Entity::meal(self)) as u32, ..self }
    }

    /// The predator `self` can hunt `gatherer`: the kinds fit and the two are
    /// in range.
    pub open spec fn can_hunt(self, gatherer: Entity) -> bool {
        &&& self.entity_type == EntityType::Predator
        &&& gatherer.entity_type == EntityType::Gatherer
        &&& self.in_range(gatherer)
    }

    /// What one hunt takes from the gatherer.
    pub open spec fn prey(gatherer: Entity) -> u32 {
        if gatherer.energy <= PREY_SIZE { gatherer.energy } else { PREY_SIZE }
    }

    /// The predator `self` after hunting `gatherer`: half the prey gained,
    /// rounded down, and the time since the last hunt at zero.
    pub open spec fn sated_by(self, gatherer: Entity) -> Entity {
        Entity {
            energy: self.energy_plus(Entity::prey(gatherer) / 2),
            time_since_last_hunt: 0,
            ..self
        }
    }

    /// The gatherer `self` after being hunted.
    pub open spec fn mauled(self) -> Entity {
        Entity { energy: (self.energy - Entity::prey(self)) as u32, ..self }
    }

    /// `other` is one that `self` may seek: alive, of the wanted kind, and not
    /// `self`.
    pub open spec fn seeks(self, other: Entity, target_type: EntityType) -> bool {
        other.entity_type == target_type && other.id != self.id && other.energy > 0
    }

    /// `k` is the place of the entity that `self` seeks among `entities`: the
    /// first of those of the wanted kind that are nearest.
    pub open spec fn is_closest(self, entities: Seq<Entity>, target_type: EntityType, k: int) -> bool {
        &&& 0 <= k < entities.len()
        &&& self.seeks(entities[k], target_type)
        &&& forall|j: int|
            0 <= j < entities.len() && self.seeks(#[trigger] entities[j], target_type)
                ==> self.position.distance_squared(entities[k].position)
                <= self.position.distance_squared(entities[j].position)
        &&& forall|j: int|
            0 <= j < k && self.seeks(#[trigger] entities[j], target_type)
                ==> self.position.distance_squared(entities[k].position)
                < self.position.distance_squared(entities[j].position)
    }

    /// A new gatherer at `position`.
    pub fn new_gatherer(id: EntityId, position: Position) -> (e: Entity)
        ensures
            e == Entity::fresh(EntityType::Gatherer, id, position),
            e.wf(),
    {
        Entity {
            id,
            position,
            energy: 150,
            entity_type: EntityType::Gatherer,
            color: 0x00FF00,
            max_energy: 200,
            speed: 20,
            size: 3,
            age: 0,
            energy_consumption_timer: 0,
            time_since_last_hunt: 0,
        }
    }

    /// A new resource at `position`.
    pub fn new_resource(id: EntityId, position: Position) -> (e: Entity)
        ensures
            e == Entity::fresh(EntityType::Resource, id, position),
            e.wf(),
    {
        Entity {
            id,
            position,
            energy: 80,
            entity_type: EntityType::Resource,
            color: 0xFFFF00,
            max_energy: 80,
            speed: 0,
            size: 2,
            age: 0,
            energy_consumption_timer: 0,
            time_since_last_hunt: 0,
        }
    }

    /// A new predator at `position`.
    pub fn new_predator(id: EntityId, position: Position) -> (e: Entity)
        ensures
            e == Entity::fresh(EntityType::Predator, id, position),
            e.wf(),
    {
        Entity {
            id,
            position,
            energy: 150,
            entity_type: EntityType::Predator,
            color: 0xFF0000,
            max_energy: 220,
            speed: 45,
            size: 4,
            age: 0,
            energy_consumption_timer: 0,
            time_since_last_hunt: 0,
        }
    }

    /// Whether the entity carries the tuning of its kind and no more energy
    /// than its kind holds.
    pub fn is_well_formed(&self) -> (ok: bool)
        ensures
            ok == self.wf(),
    {
        let tuned: bool = match self.entity_type {
            EntityType::Gatherer => self.max_energy == 200 && self.speed == 20 && self.size == 3,
            EntityType::Resource => self.max_energy == 80 && self.speed == 0 && self.size == 2,
            EntityType::Predator => self.max_energy == 220 && self.speed == 45 && self.size == 4,
        };
        tuned && self.energy <= self.max_energy
    }

    /// Whether the entity has no energy left.
    pub fn is_dead(&self) -> (dead: bool)
        ensures
            dead == self.dead(),
    {
        self.energy == 0
    }

    /// Whether the two entities are close enough to interact.
    pub fn can_interact_with(&self, other: &Entity) -> (near: bool)
        ensures
            near == self.in_range(*other),
    {
        let distance: i128 = self.position.wide_distance_squared_to(&other.position);
        let range: i128 = 3 * (self.size as i128 + other.size as i128);
        assert(0 <= range * range <= 0x6_0000_0000 * 0x6_0000_0000) by (nonlinear_arith)
            requires 0 <= range <= 0x6_0000_0000;
        distance <= range * range
    }

    /// Advances the entity by one tick of `delta_time`, drawing from `rng`
    /// whether and where it wanders.
    pub fn update(&mut self, delta_time: u64, world_width: usize, world_height: usize, rng: &mut StdRng)
        requires
            old(self).wf(),
            world_width <= i32::MAX,
            world_height <= i32::MAX,
        ensures
            final(self).wf(),
            exists|wander: Option<(i32, i32)>|
                old(self).admits(delta_time, wander) && *final(self) == old(self).advanced(
                    delta_time,
                    world_width,
                    world_height,
                    wander,
                ),
    {
        let wander: Option<(i32, i32)> = self.draw_wander(delta_time, rng);
        self.advance(delta_time, world_width, world_height, wander);
    }

    /// Draws the random step of one tick: none for an entity that does not
    /// roam; else, with the chance of its kind, one within its kind's reach.
    fn draw_wander(&self, delta_time: u64, rng: &mut StdRng) -> (wander: Option<(i32, i32)>)
        requires
            self.wf(),
        ensures
            self.admits(delta_time, wander),
    {
        match self.entity_type {
            EntityType::Resource => None,
            EntityType::Gatherer => {
                if roll(rng, 3, 5) {
                    let reach: i32 = (self.speed / 10) as i32;
                    let dx: i32 = pick_inclusive(rng, -reach, reach);
                    let dy: i32 = pick_inclusive(rng, -reach, reach);
                    Some((dx, dy))
                } else {
                    None
                }
            },
            EntityType::Predator => {
                if add_time(self.age, delta_time) > PREDATOR_LIFESPAN {
                    None
                } else if roll(rng, 7, 10) {
                    let reach: i32 = (self.speed * 12 / 100) as i32;
                    let dx: i32 = pick_inclusive(rng, -reach, reach);
                    let dy: i32 = pick_inclusive(rng, -reach, reach);
                    Some((dx, dy))
                } else {
                    None
                }
            },
        }
    }

    /// Advances the entity by one tick of `delta_time`, taking the random
    /// step `wander` if its kind and age let it move.
    pub fn advance(
        &mut self,
        delta_time: u64,
        world_width: usize,
        world_height: usize,
        wander: Option<(i32, i32)>,
    )
        requires
            old(self).wf(),
            world_width <= i32::MAX,
            world_height <= i32::MAX,
        ensures
            *final(self) == old(self).advanced(delta_time, world_width, world_height, wander),
            final(self).wf(),
    {
        self.age = add_time(self.age, delta_time);
        self.energy_consumption_timer = add_time(self.energy_consumption_timer, delta_time);
        if self.entity_type == EntityType::Predator {
            self.time_since_last_hunt = add_time(self.time_since_last_hunt, delta_time);
        }
        match self.entity_type {
            EntityType::Gatherer => self.update_gatherer(world_width, world_height, wander),
            EntityType::Resource => self.update_resource(),
            EntityType::Predator => self.update_predator(world_width, world_height, wander),
        }
    }

    /// Takes the random step, if there is one, and stays inside the world.
    fn wander_by(&mut self, world_width: usize, world_height: usize, wander: Option<(i32, i32)>)
        requires
            world_width <= i32::MAX,
            world_height <= i32::MAX,
        ensures
            *final(self) == (Entity {
                position: old(self).wandered(world_width, world_height, wander),
                ..*old(self)
            }),
    {
        if let Some((dx, dy)) = wander {
            self.position.x = clamp_wide(self.position.x as i64 + dx as i64, world_width);
            self.position.y = clamp_wide(self.position.y as i64 + dy as i64, world_height);
        }
    }

    /// Gives the entity the colour that shows its state.
    fn recolor(&mut self)
        requires
            old(self).energy <= old(self).max_energy,
            0 < old(self).max_energy,
        ensures
            *final(self) == old(self).recolored(),
    {
        self.color = derive_color(
            self.entity_type,
            self.energy,
            self.max_energy,
            self.time_since_last_hunt,
        );
    }

    /// A gatherer's tick, after the clocks: upkeep, random step, colour.
    fn update_gatherer(&mut self, world_width: usize, world_height: usize, wander: Option<(i32, i32)>)
        requires
            old(self).wf(),
            old(self).entity_type == EntityType::Gatherer,
            world_width <= i32::MAX,
            world_height <= i32::MAX,
        ensures
            *final(self) == old(self).gatherer_updated(world_width, world_height, wander),
            final(self).wf(),
    {
        if self.energy_consumption_timer >= GATHERER_UPKEEP_PERIOD {
            if self.energy > 0 {
                self.energy = self.energy - 1;
            }
            self.energy_consumption_timer = 0;
        }
        self.wander_by(world_width, world_height, wander);
        self.recolor();
    }

    /// A resource's tick, after the clocks: regrowth, colour.
    fn update_resource(&mut self)
        requires
            old(self).wf(),
            old(self).entity_type == EntityType::Resource,
        ensures
            *final(self) == old(self).resource_updated(),
            final(self).wf(),
    {
        if self.energy_consumption_timer >= RESOURCE_REGROWTH_PERIOD {
            if self.energy < self.max_energy {
                self.energy = if self.energy + 2 <= self.max_energy {
                    self.energy + 2
                } else {
                    self.max_energy
                };
            }
            self.energy_consumption_timer = 0;
        }
        self.recolor();
    }

    /// A predator's tick, after the clocks: upkeep, death of old age, random
    /// step, colour.
    fn update_predator(&mut self, world_width: usize, world_height: usize, wander: Option<(i32, i32)>)
        requires
            old(self).wf(),
            old(self).entity_type == EntityType::Predator,
            world_width <= i32::MAX,
            world_height <= i32::MAX,
        ensures
            *final(self) == old(self).predator_updated(world_width, world_height, wander),
            final(self).wf(),
    {
        if self.energy_consumption_timer >= PREDATOR_UPKEEP_PERIOD {
            let energy_loss: u32 = if self.time_since_last_hunt > STARVATION_AFTER {
                3
            } else if self.time_since_last_hunt > HUNGER_AFTER {
                2
            } else {
                1
            };
            self.energy = if self.energy >= energy_loss { self.energy - energy_loss } else { 0 };
            self.energy_consumption_timer = 0;
        }
        if self.age > PREDATOR_LIFESPAN {
            self.energy = 0;
            return ;
        }
        self.wander_by(world_width, world_height, wander);
        self.recolor();
    }

    /// Lets the gatherer `self` feed on `resource`: where it can, a meal of at
    /// most `MEAL_SIZE` leaves the resource and fills the gatherer up to its
    /// maximum. Says whether it fed.
    pub fn consume_resource(&mut self, resource: &mut Entity) -> (fed: bool)
        ensures
            fed == old(self).can_consume(*old(resource)),
            fed ==> *final(self) == old(self).fed_by(*old(resource)),
            fed ==> *final(resource) == old(resource).grazed(),
            !fed ==> *final(self) == *old(self) && *final(resource) == *old(resource),
            old(resource).energy == 0 ==> !fed,
            old(self).wf() ==> final(self).wf(),
            old(resource).wf() ==> final(resource).wf(),
    {
        if self.entity_type == EntityType::Gatherer && resource.entity_type == EntityType::Resource
            && self.can_interact_with(resource) && resource.energy > 0 {
            let energy_transfer: u32 = if resource.energy <= MEAL_SIZE { resource.energy } else { MEAL_SIZE };
            resource.energy = resource.energy - energy_transfer;
            self.energy = raised_energy(self.energy, energy_transfer, self.max_energy);
            true
        } else {
            false
        }
    }

    /// Lets the predator `self` hunt `gatherer`: where it can, the gatherer
    /// loses at most `PREY_SIZE`, the predator gains half of that, rounded
    /// down, up to its maximum, and its time since the last hunt starts anew.
    /// Says whether it hunted.
    pub fn hunt_gatherer(&mut self, gatherer: &mut Entity) -> (hunted: bool)
        ensures
            hunted == old(self).can_hunt(*old(gatherer)),
            hunted ==> *final(self) == old(self).sated_by(*old(gatherer)),
            hunted ==> *final(gatherer) == old(gatherer).mauled(),
            !hunted ==> *final(self) == *old(self) && *final(gatherer) == *old(gatherer),
            old(self).wf() ==> final(self).wf(),
            old(gatherer).wf() ==> final(gatherer).wf(),
    {
        if self.entity_type == EntityType::Predator && gatherer.entity_type == EntityType::Gatherer
            && self.can_interact_with(gatherer) {
            let energy_stolen: u32 = if gatherer.energy <= PREY_SIZE { gatherer.energy } else { PREY_SIZE };
            gatherer.energy = gatherer.energy - energy_stolen;
            self.energy = raised_energy(self.energy, energy_stolen / 2, self.max_energy);
            self.time_since_last_hunt = 0;
            true
        } else {
            false
        }
    }

    /// The place among `entities` of the one that `self` seeks: the nearest
    /// living entity of the wanted kind other than `self`, the first of them
    /// where several are equally near; none where there is no such entity.
    pub fn closest_index(&self, entities: &[Entity], target_type: EntityType) -> (found: Option<usize>)
        ensures
            match found {
                Some(k) => self.is_closest(entities@, target_type, k as int),
                None => forall|j: int|
                    0 <= j < entities@.len() ==> !self.seeks(#[trigger] entities@[j], target_type),
            },
    {
        let mut best: Option<usize> = None;
        let mut best_distance: i128 = 0;
        let mut i: usize = 0;
        while i < entities.len()
            invariant
                i <= entities@.len(),
                match best {
                    Some(k) => k < i && best_distance == self.position.distance_squared(
                        entities@[k as int].position,
                    ) && self.is_closest(entities@.take(i as int), target_type, k as int),
                    None => forall|j: int|
                        0 <= j < i ==> !self.seeks(#[trigger] entities@[j], target_type),
                },
            decreases entities@.len() - i,
        {
            let candidate: &Entity = &entities[i];
            if candidate.entity_type == target_type && candidate.id != self.id && candidate.energy > 0 {
                let distance: i128 = self.position.wide_distance_squared_to(&candidate.position);
                if best.is_none() || distance < best_distance {
                    best = Some(i);
                    best_distance = distance;
                }
            }
            i = i + 1;
        }
        assert(entities@.take(i as int) =~= entities@);
        best
    }

    /// The entity among `entities` that `self` seeks, as `closest_index`
    /// places it.
    pub fn find_closest_entity<'a>(&self, entities: &'a [Entity], target_type: EntityType) -> (found:
        Option<&'a Entity>)
        ensures
            match found {
                Some(e) => exists|k: int|
                    self.is_closest(entities@, target_type, k) && *e == entities@[k],
                None => forall|j: int|
                    0 <= j < entities@.len() ==> !self.seeks(#[trigger] entities@[j], target_type),
            },
    {
        match self.closest_index(entities, target_type) {
            Some(k) => Some(&entities[k]),
            None => None,
        }
    }
}

/// A tick keeps a well-formed entity well formed, leaves its identity, kind
/// and tuning alone, leaves it inside the world if it was inside before, and
/// puts it inside the world whenever it takes a random step.
pub proof fn lemma_advanced_is_sound(
    e: Entity,
    delta: u64,
    width: usize,
    height: usize,
    wander: Option<(i32, i32)>,
)
    requires
        e.wf(),
        1 <= width <= i32::MAX,
        1 <= height <= i32::MAX,
    ensures
        e.advanced(delta, width, height, wander).wf(),
        e.advanced(delta, width, height, wander).energy <= e.advanced(
            delta,
            width,
            height,
            wander,
        ).max_energy,
        e.advanced(delta, width, height, wander).id == e.id,
        e.advanced(delta, width, height, wander).entity_type == e.entity_type,
        e.position.within(width as int, height as int) ==> e.advanced(
            delta,
            width,
            height,
            wander,
        ).position.within(width as int, height as int),
        wander.is_some() && e.roams(delta) ==> e.advanced(
            delta,
            width,
            height,
            wander,
        ).position.within(width as int, height as int),
{
}

/// The colour is a function of kind, energy, maximum energy and the time
/// since the last hunt: two entities that agree in these are given the same
/// colour, and recolouring twice changes nothing more.
pub proof fn lemma_color_depends_on_state_only(a: Entity, b: Entity)
    requires
        a.entity_type == b.entity_type,
        a.energy == b.energy,
        a.max_energy == b.max_energy,
        a.time_since_last_hunt == b.time_since_last_hunt,
    ensures
        a.recolored().color == b.recolored().color,
        a.recolored().recolored() == a.recolored(),
{
}

/// The energy after gaining `gain`, never above `max_energy`.
fn raised_energy(energy: u32, gain: u32, max_energy: u32) -> (raised: u32)
    ensures
        raised == if energy + gain <= max_energy { (energy + gain) as u32 } else { max_energy },
{
    let sum: u64 = energy as u64 + gain as u64;
    if sum <= max_energy as u64 { sum as u32 } else { max_energy }
}

/// A coordinate brought into `0 ..= extent - 1`.
fn clamp_wide(v: i64, extent: usize) -> (r: i32)
    requires
        extent <= i32::MAX,
    ensures
        r == clamp_axis(v as int, extent as int),
{
    let raised: i64 = if v < 0 { 0 } else { v };
    let top: i64 = extent as i64 - 1;
    if raised > top { top as i32 } else { raised as i32 }
}

} // verus!
