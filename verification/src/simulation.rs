//! The simulation engine: the world, its clocks and the tick that advances
//! every entity, lets neighbours interact, draws seekers to their targets,
//! removes the dead and brings new entities in.

use vstd::prelude::*;
use rand::rngs::StdRng;
use crate::chance::{pick_inclusive, roll, seeded};
use crate::entity::{add_time, lemma_advanced_is_sound, time_sum, Entity, EntityId, EntityType};
use crate::interaction::{lemma_resolved_keeps_cast, resolve_interactions, resolved};
use crate::population::{
    arriving_kinds,
    count_entities_of_type,
    count_of,
    kinds_of,
    lemma_count_arriving,
    lemma_count_of_concat,
    lemma_count_of_kinds,
    lemma_count_of_survivors,
    lemma_survivors_embed,
    plan_spawn,
    remove_dead,
    spawn_plan,
    survivors,
    SpawnPlan,
    PREDATOR_CAP,
    RESOURCE_BATCH,
    RESOURCE_FLOOR,
};
use crate::position::Position;
use crate::pursuit::{
    apply_pursuits,
    lemma_pursued_only_moves,
    lemma_pursuits_in_bounds,
    odds_of_pursuit,
    plan_pursuits,
    planned_pursuits,
    pursued,
};

verus! {

/// New entities may arrive once more than this much time has gathered.
pub const SPAWN_PERIOD: u64 = 5_000_000;

/// The time between two passes of interaction.
pub const INTERACTION_COOLDOWN: u64 = 50_000;

/// New entities arrive at least this far from the edge of the world.
pub const SPAWN_MARGIN: i32 = 10;

/// The most entities that arrive at one spawn.
pub const LARGEST_SPAWN: u64 = 6;

/// How many gatherers a new world holds.
pub const INITIAL_GATHERERS: usize = 10;

/// How many resources a new world holds.
pub const INITIAL_RESOURCES: usize = 25;

/// How many predators a new world holds.
pub const INITIAL_PREDATORS: usize = 2;

/// The simulation: the entities in their order of arrival, the extent of the
/// world, the clocks and the random source.
pub struct Simulation {
    entities: Vec<Entity>,
    world_width: usize,
    world_height: usize,
    next_entity_id: EntityId,
    simulation_time: u64,
    rng: StdRng,
    spawn_timer: u64,
    interaction_cooldown: u64,
}

/// What the simulation holds, but for its random source.
pub struct World {
    pub entities: Seq<Entity>,
    pub width: usize,
    pub height: usize,
    pub next_id: EntityId,
    pub time: u64,
    pub spawn_timer: u64,
    pub cooldown: u64,
}

/// What chance decides in one tick: the random step of each entity, which of
/// the planned pursuits take place, whether a predator may arrive, and where
/// the arriving entities are placed.
pub struct Fortune {
    pub wanders: Seq<Option<(i32, i32)>>,
    pub moves: Seq<bool>,
    pub predator_roll: bool,
    pub places: Seq<Position>,
}

/// Every entity of `s` is allowed its random step of `wanders`.
pub open spec fn all_admitted(s: Seq<Entity>, delta: u64, wanders: Seq<Option<(i32, i32)>>) -> bool {
    &&& wanders.len() == s.len()
    &&& forall|k: int| 0 <= k < s.len() ==> (#[trigger] s[k]).admits(delta, wanders[k])
}

/// The entities of `s`, each after one tick with its random step of
/// `wanders`.
pub open spec fn all_advanced(
    s: Seq<Entity>,
    delta: u64,
    width: usize,
    height: usize,
    wanders: Seq<Option<(i32, i32)>>,
) -> Seq<Entity> {
    Seq::new(s.len(), |k: int| s[k].advanced(delta, width, height, wanders[k]))
}

/// `p` lies where new entities arrive: at least the spawn margin inside a
/// world of the given extent.
pub open spec fn in_spawn_area(p: Position, width: usize, height: usize) -> bool {
    SPAWN_MARGIN <= p.x < width - SPAWN_MARGIN && SPAWN_MARGIN <= p.y < height - SPAWN_MARGIN
}

/// Every place of `places` lies where new entities arrive.
pub open spec fn all_in_spawn_area(places: Seq<Position>, width: usize, height: usize) -> bool {
    forall|k: int| 0 <= k < places.len() ==> in_spawn_area(#[trigger] places[k], width, height)
}

/// New entities of the given kinds at the given places, numbered from
/// `first_id` on.
pub open spec fn newcomers(kinds: Seq<EntityType>, first_id: EntityId, places: Seq<Position>) -> Seq<
    Entity,
> {
    Seq::new(kinds.len(), |k: int| Entity::fresh(kinds[k], (first_id + k) as u64, places[k]))
}

/// The kinds of the entities of a new world, in their order.
pub open spec fn founding_kinds() -> Seq<EntityType> {
    Seq::new(INITIAL_GATHERERS as nat, |k: int| EntityType::Gatherer) + Seq::new(
        INITIAL_RESOURCES as nat,
        |k: int| EntityType::Resource,
    ) + Seq::new(INITIAL_PREDATORS as nat, |k: int| EntityType::Predator)
}

impl World {
    /// The world is large enough to spawn in and small enough to address,
    /// every entity is well formed and inside it, and the entities stand in
    /// the order of their identifiers, all of which have been handed out.
    pub open spec fn wf(self) -> bool {
        &&& 2 * SPAWN_MARGIN < self.width <= i32::MAX
        &&& 2 * SPAWN_MARGIN < self.height <= i32::MAX
        &&& forall|k: int|
            0 <= k < self.entities.len() ==> {
                &&& (#[trigger] self.entities[k]).wf()
                &&& self.entities[k].position.within(self.width as int, self.height as int)
                &&& self.entities[k].id < self.next_id
            }
        &&& forall|i: int, j: int|
            0 <= i < j < self.entities.len() ==> (#[trigger] self.entities[i]).id
                < (#[trigger] self.entities[j]).id
    }

    /// Every entity of the world has energy left.
    pub open spec fn all_alive(self) -> bool {
        forall|k: int| 0 <= k < self.entities.len() ==> (#[trigger] self.entities[k]).energy > 0
    }

    /// The world after new entities of the given kinds have arrived at the
    /// given places.
    pub open spec fn with_arrivals(self, kinds: Seq<EntityType>, places: Seq<Position>) -> World {
        World {
            entities: self.entities + newcomers(kinds, self.next_id, places),
            next_id: (self.next_id + kinds.len()) as u64,
            ..self
        }
    }

    /// A pass of interaction is due in a tick of `delta`.
    pub open spec fn interaction_due(self, delta: u64) -> bool {
        self.cooldown <= delta
    }

    /// A spawn is due at the end of a tick of `delta`.
    pub open spec fn spawn_due(self, delta: u64) -> bool {
        time_sum(self.spawn_timer, delta) > SPAWN_PERIOD
    }

    /// The entities once every one has had its tick and, where a pass of
    /// interaction is due, the pass has run.
    pub open spec fn settled(self, delta: u64, fortune: Fortune) -> Seq<Entity> {
        let advanced = all_advanced(self.entities, delta, self.width, self.height, fortune.wanders);
        if self.interaction_due(delta) { resolved(advanced) } else { advanced }
    }

    /// The entities that are left at the end of a tick, before any arrive:
    /// the settled ones after their pursuits, without the dead.
    pub open spec fn remaining(self, delta: u64, fortune: Fortune) -> Seq<Entity> {
        let settled = self.settled(delta, fortune);
        survivors(pursued(settled, planned_pursuits(settled), fortune.moves, self.width, self.height))
    }

    /// The kinds of the entities that arrive at the end of a tick.
    pub open spec fn arrivals(self, delta: u64, fortune: Fortune) -> Seq<EntityType> {
        let remaining = self.remaining(delta, fortune);
        if self.spawn_due(delta) {
            arriving_kinds(
                (World { entities: remaining, ..self }).spawn_plan(fortune.predator_roll),
            )
        } else {
            Seq::empty()
        }
    }

    /// `fortune` is one that chance can deal this world in a tick of `delta`:
    /// a random step for each entity, as its kind allows; a decision for each
    /// planned pursuit; a place in the spawn area for each arrival.
    pub open spec fn admits(self, delta: u64, fortune: Fortune) -> bool {
        &&& all_admitted(self.entities, delta, fortune.wanders)
        &&& fortune.moves.len() == planned_pursuits(self.settled(delta, fortune)).len()
        &&& fortune.places.len() == self.arrivals(delta, fortune).len()
        &&& all_in_spawn_area(fortune.places, self.width, self.height)
    }

    /// The world after a tick of `delta` in which chance dealt `fortune`:
    /// every entity has its tick; a pass of interaction runs if it is due;
    /// seekers follow their targets; the dead leave; and, if a spawn is due,
    /// new entities arrive.
    pub open spec fn after_update(self, delta: u64, fortune: Fortune) -> World {
        World {
            entities: self.remaining(delta, fortune) + newcomers(
                self.arrivals(delta, fortune),
                self.next_id,
                fortune.places,
            ),
            next_id: (self.next_id + self.arrivals(delta, fortune).len()) as u64,
            time: time_sum(self.time, delta),
            spawn_timer: if self.spawn_due(delta) { 0 } else { time_sum(self.spawn_timer, delta) },
            cooldown: if self.interaction_due(delta) {
                INTERACTION_COOLDOWN
            } else {
                (self.cooldown - delta) as u64
            },
            ..self
        }
    }

    /// What arrives at a spawn in this world, given the roll for a predator.
    pub open spec fn spawn_plan(self, predator_roll: bool) -> SpawnPlan {
        spawn_plan(
            count_of(self.entities, EntityType::Resource),
            count_of(self.entities, EntityType::Gatherer),
            count_of(self.entities, EntityType::Predator),
            predator_roll,
        )
    }

    /// A new world of the given extent, its founders at the given places.
    pub open spec fn founded(width: usize, height: usize, places: Seq<Position>) -> World {
        World {
            entities: newcomers(founding_kinds(), 1, places),
            width,
            height,
            next_id: (1 + founding_kinds().len()) as u64,
            time: 0,
            spawn_timer: 0,
            cooldown: 0,
        }
    }
}

/// Population bounds of a tick. Nothing but removal and spawn changes how
/// many entities of a kind there are. So the predators never pass their cap
/// unless they were past it before, in which case they do not grow; and
/// whenever a spawn is due and fewer resources than their floor are left,
/// a whole batch of resources arrives, so that the resources cannot stay
/// below their floor.
pub proof fn lemma_update_respects_population_bounds(w: World, delta: u64, fortune: Fortune)
    requires
        w.wf(),
        w.entities.len() <= usize::MAX,
        w.admits(delta, fortune),
    ensures
        count_of(w.remaining(delta, fortune), EntityType::Predator) <= count_of(
            w.entities,
            EntityType::Predator,
        ),
        count_of(w.remaining(delta, fortune), EntityType::Resource) <= count_of(
            w.entities,
            EntityType::Resource,
        ),
        count_of(w.after_update(delta, fortune).entities, EntityType::Predator) <= PREDATOR_CAP
            || count_of(w.after_update(delta, fortune).entities, EntityType::Predator) <= count_of(
            w.entities,
            EntityType::Predator,
        ),
        w.spawn_due(delta) && count_of(w.remaining(delta, fortune), EntityType::Resource)
            < RESOURCE_FLOOR ==> count_of(
            w.after_update(delta, fortune).entities,
            EntityType::Resource,
        ) == count_of(w.remaining(delta, fortune), EntityType::Resource) + RESOURCE_BATCH,
        !w.spawn_due(delta) ==> w.after_update(delta, fortune).entities == w.remaining(
            delta,
            fortune,
        ),
{
    let advanced = all_advanced(w.entities, delta, w.width, w.height, fortune.wanders);
    assert forall|k: int| 0 <= k < w.entities.len() implies (#[trigger] advanced[k]).entity_type
        == w.entities[k].entity_type by {
        lemma_advanced_is_sound(w.entities[k], delta, w.width, w.height, fortune.wanders[k]);
    }
    let settled = w.settled(delta, fortune);
    if w.interaction_due(delta) {
        lemma_resolved_keeps_cast(advanced);
    }
    let plan = planned_pursuits(settled);
    lemma_pursuits_in_bounds(settled, settled.len() as int);
    lemma_pursued_only_moves(settled, plan, fortune.moves, w.width, w.height);
    let stirred = pursued(settled, plan, fortune.moves, w.width, w.height);
    assert(kinds_of(stirred) =~= kinds_of(w.entities));
    let remaining = w.remaining(delta, fortune);
    let arrivals = w.arrivals(delta, fortune);
    let arrived = newcomers(arrivals, w.next_id, fortune.places);
    assert(kinds_of(arrived) =~= arrivals);
    assert(w.after_update(delta, fortune).entities == remaining + arrived);
    assert(remaining + Seq::<Entity>::empty() =~= remaining);
    lemma_count_of_kinds(stirred, EntityType::Predator);
    lemma_count_of_kinds(w.entities, EntityType::Predator);
    lemma_count_of_survivors(stirred, EntityType::Predator);
    lemma_count_of_concat(remaining, arrived, EntityType::Predator);
    lemma_count_of_kinds(arrived, EntityType::Predator);
    lemma_count_of_kinds(stirred, EntityType::Resource);
    lemma_count_of_kinds(w.entities, EntityType::Resource);
    lemma_count_of_survivors(stirred, EntityType::Resource);
    lemma_count_of_concat(remaining, arrived, EntityType::Resource);
    lemma_count_of_kinds(arrived, EntityType::Resource);
    if w.spawn_due(delta) {
        let plan = (World { entities: remaining, ..w }).spawn_plan(fortune.predator_roll);
        lemma_count_arriving(plan, EntityType::Predator);
        lemma_count_arriving(plan, EntityType::Resource);
    } else {
        assert(arrived =~= Seq::<Entity>::empty());
    }
}

impl Simulation {
    /// What the simulation holds, but for its random source.
    pub closed spec fn view(&self) -> World {
        World {
            entities: self.entities@,
            width: self.world_width,
            height: self.world_height,
            next_id: self.next_entity_id,
            time: self.simulation_time,
            spawn_timer: self.spawn_timer,
            cooldown: self.interaction_cooldown,
        }
    }

    /// The simulation holds a well-formed world.
    pub open spec fn wf(&self) -> bool {
        self@.wf()
    }

    /// A new simulation of the given extent, its random source seeded with
    /// `seed`: ten gatherers, twenty-five resources and two predators, each
    /// at a random place, numbered from 1 on in that order.
    pub fn new(world_width: usize, world_height: usize, seed: u64) -> (simulation: Simulation)
        requires
            2 * SPAWN_MARGIN < world_width <= i32::MAX,
            2 * SPAWN_MARGIN < world_height <= i32::MAX,
        ensures
            simulation.wf(),
            simulation@.all_alive(),
            exists|places: Seq<Position>|
                places.len() == founding_kinds().len() && all_in_spawn_area(
                    places,
                    world_width,
                    world_height,
                ) && simulation@ == World::founded(world_width, world_height, places),
    {
        let mut simulation = Simulation {
            entities: Vec::new(),
            world_width,
            world_height,
            next_entity_id: 1,
            simulation_time: 0,
            rng: seeded(seed),
            spawn_timer: 0,
            interaction_cooldown: 0,
        };
        let places = simulation.initialize_world();
        simulation
    }

    /// Brings the founders into an empty world and reports their places.
    fn initialize_world(&mut self) -> (places: Ghost<Seq<Position>>)
        requires
            old(self).wf(),
            old(self)@.entities.len() == 0,
            old(self)@.next_id == 1,
        ensures
            final(self).wf(),
            final(self)@.all_alive(),
            places@.len() == founding_kinds().len(),
            all_in_spawn_area(places@, old(self)@.width, old(self)@.height),
            final(self)@ == old(self)@.with_arrivals(founding_kinds(), places@),
    {
        let gatherers = self.spawn(EntityType::Gatherer, INITIAL_GATHERERS);
        let resources = self.spawn(EntityType::Resource, INITIAL_RESOURCES);
        let predators = self.spawn(EntityType::Predator, INITIAL_PREDATORS);
        proof {
            assert(self@.entities =~= old(self)@.entities + newcomers(
                founding_kinds(),
                old(self)@.next_id,
                gatherers@ + resources@ + predators@,
            ));
        }
        Ghost(gatherers@ + resources@ + predators@)
    }

    /// Gives every entity its tick, and reports the random steps drawn.
    fn advance_entities(&mut self, delta_time: u64) -> (wanders: Ghost<Seq<Option<(i32, i32)>>>)
        requires
            old(self).wf(),
        ensures
            final(self).wf(),
            all_admitted(old(self)@.entities, delta_time, wanders@),
            final(self)@ == (World {
                entities: all_advanced(
                    old(self)@.entities,
                    delta_time,
                    old(self)@.width,
                    old(self)@.height,
                    wanders@,
                ),
                ..old(self)@
            }),
    {
        let ghost mut wanders: Seq<Option<(i32, i32)>> = Seq::empty();
        let n: usize = self.entities.len();
        let mut i: usize = 0;
        while i < n
            invariant
                i <= n,
                n == old(self)@.entities.len(),
                self.wf(),
                self@ == (World { entities: self@.entities, ..old(self)@ }),
                self@.entities.len() == n,
                wanders.len() == i,
                forall|k: int|
                    0 <= k < i ==> (#[trigger] old(self)@.entities[k]).admits(delta_time, wanders[k])
                        && self@.entities[k] == old(self)@.entities[k].advanced(
                        delta_time,
                        old(self)@.width,
                        old(self)@.height,
                        wanders[k],
                    ),
                forall|k: int| i <= k < n ==> self@.entities[k] == #[trigger] old(self)@.entities[k],
            decreases n - i,
        {
            let mut entity: Entity = self.entities[i];
            let ghost before = entity;
            entity.update(delta_time, self.world_width, self.world_height, &mut self.rng);
            proof {
                let wander = choose|wander: Option<(i32, i32)>|
                    before.admits(delta_time, wander) && entity == before.advanced(
                        delta_time,
                        self.world_width,
                        self.world_height,
                        wander,
                    );
                lemma_advanced_is_sound(
                    before,
                    delta_time,
                    self.world_width,
                    self.world_height,
                    wander,
                );
                wanders = wanders.push(wander);
            }
            self.entities.set(i, entity);
            i = i + 1;
        }
        proof {
            assert(self@.entities =~= all_advanced(
                old(self)@.entities,
                delta_time,
                old(self)@.width,
                old(self)@.height,
                wanders,
            ));
        }
        Ghost(wanders)
    }

    /// Runs one pass of interaction over the world.
    fn handle_entity_interactions(&mut self)
        requires
            old(self).wf(),
        ensures
            final(self).wf(),
            final(self)@ == (World { entities: resolved(old(self)@.entities), ..old(self)@ }),
    {
        resolve_interactions(&mut self.entities);
    }

    /// Draws every seeker to its target, with the chance that its need
    /// gives, and reports which pursuits took place.
    fn implement_smart_behaviors(&mut self) -> (moves: Ghost<Seq<bool>>)
        requires
            old(self).wf(),
        ensures
            final(self).wf(),
            moves@.len() == planned_pursuits(old(self)@.entities).len(),
            final(self)@ == (World {
                entities: pursued(
                    old(self)@.entities,
                    planned_pursuits(old(self)@.entities),
                    moves@,
                    old(self)@.width,
                    old(self)@.height,
                ),
                ..old(self)@
            }),
    {
        let plan: Vec<(usize, Position)> = plan_pursuits(&self.entities);
        let mut moves: Vec<bool> = Vec::new();
        let mut k: usize = 0;
        while k < plan.len()
            invariant
                k <= plan@.len(),
                moves@.len() == k,
                self@ == old(self)@,
                forall|m: int| 0 <= m < plan@.len() ==> (#[trigger] plan@[m]).0 < self@.entities.len(),
            decreases plan@.len() - k,
        {
            let odds: (u32, u32) = odds_of_pursuit(&self.entities[plan[k].0]);
            let follows: bool = roll(&mut self.rng, odds.0, odds.1);
            moves.push(follows);
            k = k + 1;
        }
        apply_pursuits(&mut self.entities, &plan, &moves, self.world_width, self.world_height);
        Ghost(moves@)
    }

    /// Removes the dead from the world. Returns how many were removed.
    fn remove_dead_entities(&mut self) -> (removed: usize)
        requires
            old(self).wf(),
        ensures
            final(self).wf(),
            final(self)@.all_alive(),
            final(self)@ == (World { entities: survivors(old(self)@.entities), ..old(self)@ }),
            removed == old(self)@.entities.len() - final(self)@.entities.len(),
    {
        proof {
            lemma_survivors_embed(self@.entities);
        }
        remove_dead(&mut self.entities)
    }

    /// Brings in what the world has grown short of, and reports the roll that
    /// decided on a predator and the places of the arrivals.
    fn spawn_periodic_entities(&mut self) -> (drawn: Ghost<(bool, Seq<Position>)>)
        requires
            old(self).wf(),
            old(self)@.all_alive(),
            old(self)@.next_id + LARGEST_SPAWN <= u64::MAX,
        ensures
            final(self).wf(),
            final(self)@.all_alive(),
            drawn@.1.len() == arriving_kinds(old(self)@.spawn_plan(drawn@.0)).len(),
            all_in_spawn_area(drawn@.1, old(self)@.width, old(self)@.height),
            final(self)@ == old(self)@.with_arrivals(
                arriving_kinds(old(self)@.spawn_plan(drawn@.0)),
                drawn@.1,
            ),
    {
        let resources: usize = count_entities_of_type(self.entities.as_slice(), EntityType::Resource);
        let gatherers: usize = count_entities_of_type(self.entities.as_slice(), EntityType::Gatherer);
        let predators: usize = count_entities_of_type(self.entities.as_slice(), EntityType::Predator);
        let sure: SpawnPlan = plan_spawn(resources, gatherers, predators, false);
        let resource_places = self.spawn(EntityType::Resource, sure.resources);
        let gatherer_places = self.spawn(EntityType::Gatherer, sure.gatherers);
        let predator_roll: bool = roll(&mut self.rng, 3, 20);
        let plan: SpawnPlan = plan_spawn(resources, gatherers, predators, predator_roll);
        let predator_places = self.spawn(EntityType::Predator, plan.predators);
        proof {
            assert(self@.entities =~= old(self)@.entities + newcomers(
                arriving_kinds(plan),
                old(self)@.next_id,
                resource_places@ + gatherer_places@ + predator_places@,
            ));
        }
        Ghost((predator_roll, resource_places@ + gatherer_places@ + predator_places@))
    }

    /// Advances the simulation by `delta_time`.
    pub fn update(&mut self, delta_time: u64)
        requires
            old(self).wf(),
            old(self)@.next_id + LARGEST_SPAWN <= u64::MAX,
        ensures
            final(self).wf(),
            final(self)@.all_alive(),
            exists|fortune: Fortune|
                old(self)@.admits(delta_time, fortune) && final(self)@ == old(self)@.after_update(
                    delta_time,
                    fortune,
                ),
    {
        self.simulation_time = add_time(self.simulation_time, delta_time);
        self.spawn_timer = add_time(self.spawn_timer, delta_time);
        let interaction_due: bool = self.interaction_cooldown <= delta_time;
        if !interaction_due {
            self.interaction_cooldown = self.interaction_cooldown - delta_time;
        }
        let wanders = self.advance_entities(delta_time);
        if interaction_due {
            self.handle_entity_interactions();
            self.interaction_cooldown = INTERACTION_COOLDOWN;
        }
        let moves = self.implement_smart_behaviors();
        self.remove_dead_entities();
        let ghost mut predator_roll: bool = false;
        let ghost mut places: Seq<Position> = Seq::empty();
        if self.spawn_timer > SPAWN_PERIOD {
            let drawn = self.spawn_periodic_entities();
            self.spawn_timer = 0;
            proof {
                predator_roll = drawn@.0;
                places = drawn@.1;
            }
        }
        proof {
            let fortune = Fortune { wanders: wanders@, moves: moves@, predator_roll, places };
            assert(old(self)@.admits(delta_time, fortune));
            assert(self@.entities =~= old(self)@.after_update(delta_time, fortune).entities);
            assert(self@ == old(self)@.after_update(delta_time, fortune));
        }
    }

    /// Draws a place for a new entity.
    fn random_position(&mut self) -> (p: Position)
        requires
            old(self).wf(),
        ensures
            final(self)@ == old(self)@,
            in_spawn_area(p, final(self)@.width, final(self)@.height),
    {
        let x: i32 = pick_inclusive(
            &mut self.rng,
            SPAWN_MARGIN,
            self.world_width as i32 - SPAWN_MARGIN - 1,
        );
        let y: i32 = pick_inclusive(
            &mut self.rng,
            SPAWN_MARGIN,
            self.world_height as i32 - SPAWN_MARGIN - 1,
        );
        Position::new(x, y)
    }

    /// Brings `count` new entities of one kind into the world, each at a
    /// random place, and reports the places.
    fn spawn(&mut self, entity_type: EntityType, count: usize) -> (places: Ghost<Seq<Position>>)
        requires
            old(self).wf(),
            old(self)@.next_id + count <= u64::MAX,
        ensures
            final(self).wf(),
            places@.len() == count,
            all_in_spawn_area(places@, old(self)@.width, old(self)@.height),
            final(self)@ == old(self)@.with_arrivals(
                Seq::new(count as nat, |k: int| entity_type),
                places@,
            ),
            old(self)@.all_alive() ==> final(self)@.all_alive(),
    {
        let ghost mut places: Seq<Position> = Seq::empty();
        let mut i: usize = 0;
        while i < count
            invariant
                i <= count,
                self.wf(),
                old(self)@.next_id + count <= u64::MAX,
                places.len() == i,
                all_in_spawn_area(places, old(self)@.width, old(self)@.height),
                self@ == old(self)@.with_arrivals(Seq::new(i as nat, |k: int| entity_type), places),
                old(self)@.all_alive() ==> self@.all_alive(),
            decreases count - i,
        {
            let position: Position = self.random_position();
            let entity: Entity = match entity_type {
                EntityType::Gatherer => Entity::new_gatherer(self.next_entity_id, position),
                EntityType::Resource => Entity::new_resource(self.next_entity_id, position),
                EntityType::Predator => Entity::new_predator(self.next_entity_id, position),
            };
            let ghost before = self@;
            self.entities.push(entity);
            self.next_entity_id = self.next_entity_id + 1;
            proof {
                let grown = places.push(position);
                assert(self@.entities =~= old(self)@.entities + newcomers(
                    Seq::new((i + 1) as nat, |k: int| entity_type),
                    old(self)@.next_id,
                    grown,
                ));
                places = grown;
            }
            i = i + 1;
        }
        Ghost(places)
    }

    /// Brings `count` new gatherers into the world, each at a random place.
    pub fn add_random_gatherers(&mut self, count: usize)
        requires
            old(self).wf(),
            old(self)@.next_id + count <= u64::MAX,
        ensures
            final(self).wf(),
            exists|places: Seq<Position>|
                places.len() == count && all_in_spawn_area(
                    places,
                    old(self)@.width,
                    old(self)@.height,
                ) && final(self)@ == old(self)@.with_arrivals(
                    Seq::new(count as nat, |k: int| EntityType::Gatherer),
                    places,
                ),
    {
        let places = self.spawn(EntityType::Gatherer, count);
    }

    /// Brings `count` new resources into the world, each at a random place.
    pub fn add_random_resources(&mut self, count: usize)
        requires
            old(self).wf(),
            old(self)@.next_id + count <= u64::MAX,
        ensures
            final(self).wf(),
            exists|places: Seq<Position>|
                places.len() == count && all_in_spawn_area(
                    places,
                    old(self)@.width,
                    old(self)@.height,
                ) && final(self)@ == old(self)@.with_arrivals(
                    Seq::new(count as nat, |k: int| EntityType::Resource),
                    places,
                ),
    {
        let places = self.spawn(EntityType::Resource, count);
    }

    /// Brings `count` new predators into the world, each at a random place.
    pub fn add_random_predators(&mut self, count: usize)
        requires
            old(self).wf(),
            old(self)@.next_id + count <= u64::MAX,
        ensures
            final(self).wf(),
            exists|places: Seq<Position>|
                places.len() == count && all_in_spawn_area(
                    places,
                    old(self)@.width,
                    old(self)@.height,
                ) && final(self)@ == old(self)@.with_arrivals(
                    Seq::new(count as nat, |k: int| EntityType::Predator),
                    places,
                ),
    {
        let places = self.spawn(EntityType::Predator, count);
    }

    /// How many identifiers are left to hand out.
    pub fn ids_left(&self) -> (left: u64)
        ensures
            left == u64::MAX - self@.next_id,
    {
        u64::MAX - self.next_entity_id
    }

    /// The entities of the world, in their order.
    pub fn get_entities(&self) -> (entities: &[Entity])
        ensures
            entities@ == self@.entities,
    {
        self.entities.as_slice()
    }
}

} // verus!
