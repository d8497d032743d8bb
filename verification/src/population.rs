//! Population upkeep: the dead leave the world, and every few seconds new
//! entities arrive where a kind has grown scarce.

use vstd::prelude::*;
use crate::entity::{Entity, EntityType};

verus! {

/// Resources arrive while there are fewer than this many.
pub const RESOURCE_FLOOR: usize = 30;

/// How many resources arrive at once.
pub const RESOURCE_BATCH: usize = 3;

/// Gatherers arrive while there are fewer than this many.
pub const GATHERER_FLOOR: usize = 3;

/// How many gatherers arrive at once.
pub const GATHERER_BATCH: usize = 2;

/// A predator may arrive while there are fewer than this many.
pub const PREDATOR_CAP: usize = 5;

/// How many entities of each kind arrive at one spawn.
#[derive(Debug, Clone, Copy, PartialEq, Eq, Structural)]
pub struct SpawnPlan {
    pub resources: usize,
    pub gatherers: usize,
    pub predators: usize,
}

/// The entities of `s` that have energy left, in their order.
pub open spec fn survivors(s: Seq<Entity>) -> Seq<Entity>
    decreases s.len(),
{
    if s.len() == 0 {
        Seq::empty()
    } else if s.last().energy > 0 {
        survivors(s.drop_last()).push(s.last())
    } else {
        survivors(s.drop_last())
    }
}

/// How many entities of `s` are of kind `kind`.
pub open spec fn count_of(s: Seq<Entity>, kind: EntityType) -> nat
    decreases s.len(),
{
    if s.len() == 0 {
        0
    } else if s.last().entity_type == kind {
        count_of(s.drop_last(), kind) + 1
    } else {
        count_of(s.drop_last(), kind)
    }
}

/// What arrives at one spawn in a world with the given numbers of each kind:
/// a batch of resources below the resource floor, a batch of gatherers below
/// the gatherer floor, and one predator where the roll allows it and the
/// predators are below their cap. The three are decided independently.
pub open spec fn spawn_plan(resources: nat, gatherers: nat, predators: nat, predator_roll: bool) -> SpawnPlan {
    SpawnPlan {
        resources: if resources < RESOURCE_FLOOR { RESOURCE_BATCH } else { 0 },
        gatherers: if gatherers < GATHERER_FLOOR { GATHERER_BATCH } else { 0 },
        predators: if predator_roll && predators < PREDATOR_CAP { 1 } else { 0 },
    }
}

/// The kinds of the entities that arrive under `plan`, in their order of
/// arrival: resources, then gatherers, then predators.
pub open spec fn arriving_kinds(plan: SpawnPlan) -> Seq<EntityType> {
    Seq::new(plan.resources as nat, |k: int| EntityType::Resource) + Seq::new(
        plan.gatherers as nat,
        |k: int| EntityType::Gatherer,
    ) + Seq::new(plan.predators as nat, |k: int| EntityType::Predator)
}

/// The numbers of resources, gatherers and predators after spawns decided by
/// `rolls`, one spawn for each roll, in a world where nothing else happens.
pub open spec fn after_spawns(start: (nat, nat, nat), rolls: Seq<bool>) -> (nat, nat, nat)
    decreases rolls.len(),
{
    if rolls.len() == 0 {
        start
    } else {
        let before = after_spawns(start, rolls.drop_last());
        let plan = spawn_plan(before.0, before.1, before.2, rolls.last());
        (
            (before.0 + plan.resources) as nat,
            (before.1 + plan.gatherers) as nat,
            (before.2 + plan.predators) as nat,
        )
    }
}

/// Every survivor stood in the world before, the survivors keep their order,
/// and each has energy left.
pub proof fn lemma_survivors_embed(s: Seq<Entity>)
    ensures
        survivors(s).len() <= s.len(),
        forall|k: int|
            0 <= k < survivors(s).len() ==> (#[trigger] survivors(s)[k]).energy > 0,
        forall|k: int|
            0 <= k < survivors(s).len() ==> exists|j: int|
                k <= j < s.len() && s[j] == #[trigger] survivors(s)[k],
        forall|k: int, m: int|
            0 <= k < m < survivors(s).len() ==> exists|i: int, j: int|
                0 <= i < j < s.len() && s[i] == #[trigger] survivors(s)[k] && s[j]
                    == #[trigger] survivors(s)[m],
    decreases s.len(),
{
    if s.len() > 0 {
        let front = s.drop_last();
        lemma_survivors_embed(front);
        let r = survivors(s);
        let rf = survivors(front);
        assert forall|k: int| 0 <= k < r.len() implies exists|j: int|
            k <= j < s.len() && s[j] == #[trigger] r[k] by {
            if k < rf.len() {
                let j = choose|j: int| k <= j < front.len() && front[j] == rf[k];
                assert(s[j] == r[k]);
            } else {
                assert(s[s.len() - 1] == r[k]);
            }
        }
        assert forall|k: int, m: int| 0 <= k < m < r.len() implies exists|i: int, j: int|
            0 <= i < j < s.len() && s[i] == #[trigger] r[k] && s[j] == #[trigger] r[m] by {
            if m < rf.len() {
                let (i, j) = choose|i: int, j: int|
                    0 <= i < j < front.len() && front[i] == rf[k] && front[j] == rf[m];
                assert(s[i] == r[k] && s[j] == r[m]);
            } else {
                let i = choose|i: int| k <= i < front.len() && front[i] == rf[k];
                assert(s[i] == r[k] && s[s.len() - 1] == r[m]);
            }
        }
    }
}

/// How many kinds of `kinds` are `kind`.
pub open spec fn count_kind(kinds: Seq<EntityType>, kind: EntityType) -> nat
    decreases kinds.len(),
{
    if kinds.len() == 0 {
        0
    } else if kinds.last() == kind {
        count_kind(kinds.drop_last(), kind) + 1
    } else {
        count_kind(kinds.drop_last(), kind)
    }
}

/// The kinds of the entities of `s`, in their order.
pub open spec fn kinds_of(s: Seq<Entity>) -> Seq<EntityType> {
    Seq::new(s.len(), |k: int| s[k].entity_type)
}

/// Counting the entities of a kind is counting that kind among their kinds.
pub proof fn lemma_count_of_kinds(s: Seq<Entity>, kind: EntityType)
    ensures
        count_of(s, kind) == count_kind(kinds_of(s), kind),
    decreases s.len(),
{
    if s.len() > 0 {
        lemma_count_of_kinds(s.drop_last(), kind);
        assert(kinds_of(s).drop_last() =~= kinds_of(s.drop_last()));
    }
}

/// The count over two runs of kinds is the sum of the counts.
pub proof fn lemma_count_kind_concat(a: Seq<EntityType>, b: Seq<EntityType>, kind: EntityType)
    ensures
        count_kind(a + b, kind) == count_kind(a, kind) + count_kind(b, kind),
    decreases b.len(),
{
    if b.len() == 0 {
        assert(a + b =~= a);
    } else {
        lemma_count_kind_concat(a, b.drop_last(), kind);
        assert((a + b).drop_last() =~= a + b.drop_last());
    }
}

/// A run of `n` times the same kind counts `n` of that kind and none of any
/// other.
pub proof fn lemma_count_kind_uniform(n: nat, of: EntityType, kind: EntityType)
    ensures
        count_kind(Seq::new(n, |k: int| of), kind) == if of == kind { n } else { 0 },
    decreases n,
{
    if n > 0 {
        lemma_count_kind_uniform((n - 1) as nat, of, kind);
        assert(Seq::new(n, |k: int| of).drop_last() =~= Seq::new((n - 1) as nat, |k: int| of));
    }
}

/// What arrives under a plan holds as many of each kind as the plan says.
pub proof fn lemma_count_arriving(plan: SpawnPlan, kind: EntityType)
    ensures
        count_kind(arriving_kinds(plan), kind) == match kind {
            EntityType::Resource => plan.resources,
            EntityType::Gatherer => plan.gatherers,
            EntityType::Predator => plan.predators,
        },
{
    let resources = Seq::new(plan.resources as nat, |k: int| EntityType::Resource);
    let gatherers = Seq::new(plan.gatherers as nat, |k: int| EntityType::Gatherer);
    let predators = Seq::new(plan.predators as nat, |k: int| EntityType::Predator);
    lemma_count_kind_uniform(plan.resources as nat, EntityType::Resource, kind);
    lemma_count_kind_uniform(plan.gatherers as nat, EntityType::Gatherer, kind);
    lemma_count_kind_uniform(plan.predators as nat, EntityType::Predator, kind);
    lemma_count_kind_concat(resources, gatherers, kind);
    lemma_count_kind_concat(resources + gatherers, predators, kind);
}

/// The count over two runs of entities is the sum of the counts.
pub proof fn lemma_count_of_concat(a: Seq<Entity>, b: Seq<Entity>, kind: EntityType)
    ensures
        count_of(a + b, kind) == count_of(a, kind) + count_of(b, kind),
{
    lemma_count_of_kinds(a, kind);
    lemma_count_of_kinds(b, kind);
    lemma_count_of_kinds(a + b, kind);
    assert(kinds_of(a + b) =~= kinds_of(a) + kinds_of(b));
    lemma_count_kind_concat(kinds_of(a), kinds_of(b), kind);
}

/// Removing the dead raises no count.
pub proof fn lemma_count_of_survivors(s: Seq<Entity>, kind: EntityType)
    ensures
        count_of(survivors(s), kind) <= count_of(s, kind),
    decreases s.len(),
{
    if s.len() > 0 {
        lemma_count_of_survivors(s.drop_last(), kind);
        if s.last().energy > 0 {
            assert(survivors(s).drop_last() =~= survivors(s.drop_last()));
        }
    }
}

/// One spawn never lowers a count; it raises the resources by a batch exactly
/// when they are below their floor, and it never takes the predators past
/// their cap.
pub proof fn lemma_spawn_plan_bounds(resources: nat, gatherers: nat, predators: nat, predator_roll: bool)
    ensures
        resources < RESOURCE_FLOOR ==> spawn_plan(
            resources,
            gatherers,
            predators,
            predator_roll,
        ).resources == RESOURCE_BATCH,
        resources >= RESOURCE_FLOOR ==> spawn_plan(
            resources,
            gatherers,
            predators,
            predator_roll,
        ).resources == 0,
        predators <= PREDATOR_CAP ==> predators + spawn_plan(
            resources,
            gatherers,
            predators,
            predator_roll,
        ).predators <= PREDATOR_CAP,
        predators >= PREDATOR_CAP ==> spawn_plan(
            resources,
            gatherers,
            predators,
            predator_roll,
        ).predators == 0,
{
}

/// Starting from an empty world, spawn after spawn: the resources climb by a
/// batch each time until they stand at their floor, and stay there; the
/// gatherers climb until their floor is met; and the predators never pass
/// their cap, whatever the rolls.
pub proof fn lemma_spawns_from_empty(rolls: Seq<bool>)
    ensures
        after_spawns((0, 0, 0), rolls).0 == if rolls.len() < 10 {
            3 * rolls.len()
        } else {
            RESOURCE_FLOOR as nat
        },
        after_spawns((0, 0, 0), rolls).1 == if rolls.len() < 2 { 2 * rolls.len() } else { 4 },
        after_spawns((0, 0, 0), rolls).2 <= PREDATOR_CAP,
        after_spawns((0, 0, 0), rolls).2 <= rolls.len(),
    decreases rolls.len(),
{
    if rolls.len() > 0 {
        lemma_spawns_from_empty(rolls.drop_last());
    }
}

/// Removes every entity without energy, keeping the others in their order.
/// Returns how many were removed.
pub fn remove_dead(entities: &mut Vec<Entity>) -> (removed: usize)
    ensures
        final(entities)@ == survivors(old(entities)@),
        removed == old(entities)@.len() - final(entities)@.len(),
{
    let mut kept: Vec<Entity> = Vec::new();
    let n: usize = entities.len();
    let mut i: usize = 0;
    while i < n
        invariant
            i <= n,
            n == entities@.len(),
            entities@ == old(entities)@,
            kept@ == survivors(entities@.take(i as int)),
            kept@.len() <= i,
        decreases n - i,
    {
        proof {
            assert(entities@.take(i + 1).drop_last() =~= entities@.take(i as int));
        }
        if !entities[i].is_dead() {
            kept.push(entities[i]);
        }
        i = i + 1;
    }
    proof {
        assert(entities@.take(n as int) =~= entities@);
    }
    let removed: usize = n - kept.len();
    *entities = kept;
    removed
}

/// Counts the entities of one kind.
pub fn count_entities_of_type(entities: &[Entity], entity_type: EntityType) -> (count: usize)
    ensures
        count == count_of(entities@, entity_type),
{
    let mut count: usize = 0;
    let n: usize = entities.len();
    let mut i: usize = 0;
    while i < n
        invariant
            i <= n,
            n == entities@.len(),
            count == count_of(entities@.take(i as int), entity_type),
            count <= i,
        decreases n - i,
    {
        proof {
            assert(entities@.take(i + 1).drop_last() =~= entities@.take(i as int));
        }
        if entities[i].entity_type == entity_type {
            count = count + 1;
        }
        i = i + 1;
    }
    proof {
        assert(entities@.take(n as int) =~= entities@);
    }
    count
}

/// Decides what arrives at one spawn.
pub fn plan_spawn(resources: usize, gatherers: usize, predators: usize, predator_roll: bool) -> (plan:
    SpawnPlan)
    ensures
        plan == spawn_plan(resources as nat, gatherers as nat, predators as nat, predator_roll),
{
    SpawnPlan {
        resources: if resources < RESOURCE_FLOOR { RESOURCE_BATCH } else { 0 },
        gatherers: if gatherers < GATHERER_FLOOR { GATHERER_BATCH } else { 0 },
        predators: if predator_roll && predators < PREDATOR_CAP { 1 } else { 0 },
    }
}

} // verus!
