//! Goal seeking: each gatherer is drawn to the nearest resource and each
//! predator to the nearest gatherer, the more surely the more it needs one.

use vstd::prelude::*;
use crate::entity::{Entity, EntityType};
use crate::position::{clamp_axis, Position};

verus! {

/// A predator that has not hunted for longer than this seeks prey most
/// eagerly.
pub const EAGER_AFTER: u64 = 15_000_000;

/// A predator that has not hunted for longer than this seeks prey more
/// eagerly than one that has just fed.
pub const KEEN_AFTER: u64 = 8_000_000;

/// The kind that an entity of kind `kind` seeks, if it seeks any.
pub open spec fn quarry(kind: EntityType) -> Option<EntityType> {
    match kind {
        EntityType::Gatherer => Some(EntityType::Resource),
        EntityType::Predator => Some(EntityType::Gatherer),
        EntityType::Resource => None,
    }
}

/// The place among `s` of the entity that `seeker` seeks, if there is one.
pub open spec fn closest(seeker: Entity, s: Seq<Entity>, target_type: EntityType) -> Option<int> {
    if exists|k: int| seeker.is_closest(s, target_type, k) {
        Some(choose|k: int| seeker.is_closest(s, target_type, k))
    } else {
        None
    }
}

/// Where the entity at `i` is drawn to, if anywhere: the position of the
/// nearest entity of the kind it seeks.
pub open spec fn target_of(s: Seq<Entity>, i: int) -> Option<Position> {
    match quarry(s[i].entity_type) {
        None => None,
        Some(target_type) => match closest(s[i], s, target_type) {
            Some(k) => Some(s[k].position),
            None => None,
        },
    }
}

/// The entities before `n` that are drawn somewhere, each with its target, in
/// the world's order.
pub open spec fn pursuits_before(s: Seq<Entity>, n: int) -> Seq<(usize, Position)>
    recommends
        n <= s.len() <= usize::MAX,
    decreases n,
{
    if n <= 0 {
        Seq::empty()
    } else {
        match target_of(s, n - 1) {
            Some(target) => pursuits_before(s, n - 1).push(((n - 1) as usize, target)),
            None => pursuits_before(s, n - 1),
        }
    }
}

/// Every entity that is drawn somewhere, with its target, in the world's
/// order.
pub open spec fn planned_pursuits(s: Seq<Entity>) -> Seq<(usize, Position)> {
    pursuits_before(s, s.len() as int)
}

/// The chance, as numerator and denominator, that an entity follows its
/// target in one tick. A gatherer: 4 in 5 below three tenths of its energy,
/// 2 in 5 below six tenths, else 1 in 5. A predator: 9 in 10 when its last
/// hunt lies back more than `EAGER_AFTER`, 3 in 5 when more than
/// `KEEN_AFTER`, else 2 in 5. A resource never does.
pub open spec fn pursuit_odds(e: Entity) -> (u32, u32) {
    match e.entity_type {
        EntityType::Gatherer => if 10 * e.energy < 3 * e.max_energy {
            (4, 5)
        } else if 10 * e.energy < 6 * e.max_energy {
            (2, 5)
        } else {
            (1, 5)
        },
        EntityType::Predator => if e.time_since_last_hunt > EAGER_AFTER {
            (9, 10)
        } else if e.time_since_last_hunt > KEEN_AFTER {
            (3, 5)
        } else {
            (2, 5)
        },
        EntityType::Resource => (0, 1),
    }
}

/// The entity after following `target` for one tick: a walk of its speed
/// straight at the target, ended inside the world.
pub open spec fn pursuing(e: Entity, target: Position, width: usize, height: usize) -> Entity {
    let reached = e.position.stepped_towards(target, e.speed as int);
    Entity {
        position: Position {
            x: clamp_axis(reached.0, width as int) as i32,
            y: clamp_axis(reached.1, height as int) as i32,
        },
        ..e
    }
}

/// The world after the pursuits of `plan`, one after the other, of which
/// exactly those marked in `moves` take place.
pub open spec fn pursued(
    s: Seq<Entity>,
    plan: Seq<(usize, Position)>,
    moves: Seq<bool>,
    width: usize,
    height: usize,
) -> Seq<Entity>
    recommends
        moves.len() == plan.len(),
    decreases plan.len(),
{
    if plan.len() == 0 {
        s
    } else {
        let earlier = pursued(s, plan.drop_last(), moves.drop_last(), width, height);
        let i = plan.last().0 as int;
        if moves.last() {
            earlier.update(i, pursuing(earlier[i], plan.last().1, width, height))
        } else {
            earlier
        }
    }
}

/// `after` holds the same entities as `before`, in the same order; only
/// positions may differ, and those that differ lie inside the world.
pub open spec fn same_but_moved(
    before: Seq<Entity>,
    after: Seq<Entity>,
    width: usize,
    height: usize,
) -> bool {
    &&& after.len() == before.len()
    &&& forall|k: int|
        0 <= k < before.len() ==> {
            &&& #[trigger] after[k] == (Entity { position: after[k].position, ..before[k] })
            &&& after[k].position == before[k].position || after[k].position.within(
                width as int,
                height as int,
            )
        }
}

/// No two places hold the entity that a seeker seeks.
pub proof fn lemma_closest_unique(
    seeker: Entity,
    s: Seq<Entity>,
    target_type: EntityType,
    a: int,
    b: int,
)
    requires
        seeker.is_closest(s, target_type, a),
        seeker.is_closest(s, target_type, b),
    ensures
        a == b,
{
    if a < b {
        assert(seeker.seeks(s[a], target_type));
        assert(seeker.seeks(s[b], target_type));
    } else if b < a {
        assert(seeker.seeks(s[a], target_type));
        assert(seeker.seeks(s[b], target_type));
    }
}

/// Every planned pursuit names an entity of the world.
pub proof fn lemma_pursuits_in_bounds(s: Seq<Entity>, n: int)
    requires
        n <= s.len() <= usize::MAX,
    ensures
        forall|k: int|
            0 <= k < pursuits_before(s, n).len() ==> 0 <= (#[trigger] pursuits_before(s, n)[k]).0
                < n,
    decreases n,
{
    if n > 0 {
        lemma_pursuits_in_bounds(s, n - 1);
        let plan = pursuits_before(s, n);
        let shorter = pursuits_before(s, n - 1);
        assert forall|k: int| 0 <= k < plan.len() implies 0 <= (#[trigger] plan[k]).0 < n by {
            if k < shorter.len() {
                assert(plan[k] == shorter[k]);
            }
        }
    }
}

/// Pursuits change nothing but positions, and every position they change
/// lies inside the world.
pub proof fn lemma_pursued_only_moves(
    s: Seq<Entity>,
    plan: Seq<(usize, Position)>,
    moves: Seq<bool>,
    width: usize,
    height: usize,
)
    requires
        moves.len() == plan.len(),
        forall|k: int| 0 <= k < plan.len() ==> (#[trigger] plan[k]).0 < s.len(),
        1 <= width <= i32::MAX,
        1 <= height <= i32::MAX,
    ensures
        same_but_moved(s, pursued(s, plan, moves, width, height), width, height),
    decreases plan.len(),
{
    if plan.len() > 0 {
        lemma_pursued_only_moves(s, plan.drop_last(), moves.drop_last(), width, height);
        let earlier = pursued(s, plan.drop_last(), moves.drop_last(), width, height);
        let i = plan.last().0 as int;
        assert(earlier[i] == (Entity { position: earlier[i].position, ..s[i] }));
    }
}

/// The chance that `entity` follows its target in one tick.
pub fn odds_of_pursuit(entity: &Entity) -> (odds: (u32, u32))
    ensures
        odds == pursuit_odds(*entity),
        odds.0 <= odds.1,
        0 < odds.1,
{
    match entity.entity_type {
        EntityType::Gatherer => {
            let energy: u64 = 10 * (entity.energy as u64);
            let full: u64 = entity.max_energy as u64;
            if energy < 3 * full {
                (4, 5)
            } else if energy < 6 * full {
                (2, 5)
            } else {
                (1, 5)
            }
        },
        EntityType::Predator => {
            if entity.time_since_last_hunt > EAGER_AFTER {
                (9, 10)
            } else if entity.time_since_last_hunt > KEEN_AFTER {
                (3, 5)
            } else {
                (2, 5)
            }
        },
        EntityType::Resource => (0, 1),
    }
}

/// Lets `entity` follow `target` for one tick.
pub fn pursue(entity: &mut Entity, target: &Position, world_width: usize, world_height: usize)
    ensures
        *final(entity) == pursuing(*old(entity), *target, world_width, world_height),
        world_width >= 1 && world_height >= 1 ==> final(entity).position.within(
            world_width as int,
            world_height as int,
        ),
{
    entity.position.move_towards(target, entity.speed);
    entity.position.clamp_to_bounds(world_width, world_height);
}

/// Where the entity at `i` is drawn to, if anywhere.
pub fn find_target(entities: &Vec<Entity>, i: usize) -> (target: Option<Position>)
    requires
        i < entities@.len(),
    ensures
        target == target_of(entities@, i as int),
{
    let seeker: &Entity = &entities[i];
    let wanted: EntityType = match seeker.entity_type {
        EntityType::Gatherer => EntityType::Resource,
        EntityType::Predator => EntityType::Gatherer,
        EntityType::Resource => {
            return None;
        },
    };
    match seeker.closest_index(entities.as_slice(), wanted) {
        Some(k) => {
            proof {
                let c = choose|c: int| seeker.is_closest(entities@, wanted, c);
                lemma_closest_unique(*seeker, entities@, wanted, c, k as int);
            }
            Some(entities[k].position)
        },
        None => {
            assert forall|k: int| !seeker.is_closest(entities@, wanted, k) by {
                if 0 <= k < entities@.len() {
                    assert(!seeker.seeks(entities@[k], wanted));
                }
            }
            None
        },
    }
}

/// Finds, for every entity that seeks another, where it is drawn to. The
/// targets are those of the world as it stands, before any pursuit.
pub fn plan_pursuits(entities: &Vec<Entity>) -> (plan: Vec<(usize, Position)>)
    ensures
        plan@ == planned_pursuits(entities@),
        forall|k: int| 0 <= k < plan@.len() ==> (#[trigger] plan@[k]).0 < entities@.len(),
{
    let mut plan: Vec<(usize, Position)> = Vec::new();
    let n: usize = entities.len();
    let mut i: usize = 0;
    while i < n
        invariant
            i <= n,
            n == entities@.len(),
            plan@ == pursuits_before(entities@, i as int),
            forall|k: int| 0 <= k < plan@.len() ==> (#[trigger] plan@[k]).0 < n,
        decreases n - i,
    {
        if let Some(target) = find_target(entities, i) {
            plan.push((i, target));
        }
        i = i + 1;
    }
    plan
}

/// Carries out the pursuits of `plan`, one after the other, of which exactly
/// those marked in `moves` take place.
pub fn apply_pursuits(
    entities: &mut Vec<Entity>,
    plan: &Vec<(usize, Position)>,
    moves: &Vec<bool>,
    world_width: usize,
    world_height: usize,
)
    requires
        moves@.len() == plan@.len(),
        forall|k: int| 0 <= k < plan@.len() ==> (#[trigger] plan@[k]).0 < old(entities)@.len(),
    ensures
        final(entities)@ == pursued(old(entities)@, plan@, moves@, world_width, world_height),
        world_width >= 1 && world_height >= 1 ==> same_but_moved(
            old(entities)@,
            final(entities)@,
            world_width,
            world_height,
        ),
{
    let mut k: usize = 0;
    while k < plan.len()
        invariant
            k <= plan@.len(),
            moves@.len() == plan@.len(),
            entities@.len() == old(entities)@.len(),
            forall|m: int| 0 <= m < plan@.len() ==> (#[trigger] plan@[m]).0 < entities@.len(),
            entities@ == pursued(
                old(entities)@,
                plan@.take(k as int),
                moves@.take(k as int),
                world_width,
                world_height,
            ),
            world_width >= 1 && world_height >= 1 ==> same_but_moved(
                old(entities)@,
                entities@,
                world_width,
                world_height,
            ),
        decreases plan@.len() - k,
    {
        proof {
            assert(plan@.take(k + 1).drop_last() =~= plan@.take(k as int));
            assert(moves@.take(k + 1).drop_last() =~= moves@.take(k as int));
        }
        if moves[k] {
            let index: usize = plan[k].0;
            let target: Position = plan[k].1;
            let mut entity: Entity = entities[index];
            pursue(&mut entity, &target, world_width, world_height);
            entities.set(index, entity);
        }
        k = k + 1;
    }
    proof {
        assert(plan@.take(k as int) =~= plan@);
        assert(moves@.take(k as int) =~= moves@);
    }
}

} // verus!
