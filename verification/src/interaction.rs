//! Pairwise interaction: which entities are close enough to act on each
//! other, and what the pass over all such pairs leaves behind. The dead take
//! no part: an entity without energy neither gives nor takes.

use vstd::prelude::*;
use crate::entity::{Entity, EntityType};

verus! {

/// What an encounter leaves of two living entities, `a` standing before `b`
/// in the world's order: a gatherer feeds on a resource, a predator hunts a
/// gatherer, whichever of the two comes first; every other pairing changes
/// nothing.
pub open spec fn met(a: Entity, b: Entity) -> (Entity, Entity) {
    match (a.entity_type, b.entity_type) {
        (EntityType::Gatherer, EntityType::Resource) => if a.can_consume(b) {
            (a.fed_by(b), b.grazed())
        } else {
            (a, b)
        },
        (EntityType::Resource, EntityType::Gatherer) => if b.can_consume(a) {
            (a.grazed(), b.fed_by(a))
        } else {
            (a, b)
        },
        (EntityType::Predator, EntityType::Gatherer) => if a.can_hunt(b) {
            (a.sated_by(b), b.mauled())
        } else {
            (a, b)
        },
        (EntityType::Gatherer, EntityType::Predator) => if b.can_hunt(a) {
            (a.mauled(), b.sated_by(a))
        } else {
            (a, b)
        },
        _ => (a, b),
    }
}

/// What an encounter leaves of two entities, `a` standing before `b` in the
/// world's order: the dead take no part, so nothing changes where either has
/// no energy; else the two meet.
pub open spec fn exchanged(a: Entity, b: Entity) -> (Entity, Entity) {
    if a.dead() || b.dead() { (a, b) } else { met(a, b) }
}

/// The world after the encounter of the entities at `i` and `j`.
pub open spec fn interacted(s: Seq<Entity>, i: int, j: int) -> Seq<Entity> {
    s.update(i, exchanged(s[i], s[j]).0).update(j, exchanged(s[i], s[j]).1)
}

/// The pairs `(i, k)` with `i < k < j` whose entities are in range of each
/// other, by ascending `k`.
pub open spec fn pairs_in_row(s: Seq<Entity>, i: int, j: int) -> Seq<(usize, usize)>
    recommends
        0 <= i,
        j <= s.len() <= usize::MAX,
    decreases j - i,
{
    if j <= i + 1 {
        Seq::empty()
    } else if s[i].in_range(s[j - 1]) {
        pairs_in_row(s, i, j - 1).push((i as usize, (j - 1) as usize))
    } else {
        pairs_in_row(s, i, j - 1)
    }
}

/// The pairs in range whose first entity stands before `i`: by ascending
/// first entity, then by ascending second.
pub open spec fn pairs_before(s: Seq<Entity>, i: int) -> Seq<(usize, usize)>
    recommends
        i <= s.len() <= usize::MAX,
    decreases i,
{
    if i <= 0 {
        Seq::empty()
    } else {
        pairs_before(s, i - 1) + pairs_in_row(s, i - 1, s.len() as int)
    }
}

/// Every pair of entities in range of each other, each once, the earlier
/// entity first: by ascending first entity, then by ascending second.
pub open spec fn interacting_pairs(s: Seq<Entity>) -> Seq<(usize, usize)> {
    pairs_before(s, s.len() as int)
}

/// The world after the encounters of `pairs`, one after the other.
pub open spec fn applied(s: Seq<Entity>, pairs: Seq<(usize, usize)>) -> Seq<Entity>
    decreases pairs.len(),
{
    if pairs.len() == 0 {
        s
    } else {
        interacted(applied(s, pairs.drop_last()), pairs.last().0 as int, pairs.last().1 as int)
    }
}

/// The world after one pass of interaction: the pairs in range are found
/// first, then their encounters take place in that order.
pub open spec fn resolved(s: Seq<Entity>) -> Seq<Entity> {
    applied(s, interacting_pairs(s))
}

/// `after` holds the same entities as `before`, in the same places of the
/// world and of its order; only energy and the time since the last hunt may
/// differ, no well-formed entity is spoiled, and the dead are as they were.
pub open spec fn same_cast(before: Seq<Entity>, after: Seq<Entity>) -> bool {
    &&& after.len() == before.len()
    &&& forall|k: int|
        0 <= k < before.len() ==> {
            &&& (#[trigger] after[k]).id == before[k].id
            &&& after[k].entity_type == before[k].entity_type
            &&& after[k].position == before[k].position
            &&& after[k].size == before[k].size
            &&& before[k].wf() ==> after[k].wf()
            &&& before[k].dead() ==> after[k] == before[k]
        }
}

/// `p` comes before `q` where pairs are ordered by their first entity, then
/// by their second.
pub open spec fn pair_before(p: (usize, usize), q: (usize, usize)) -> bool {
    p.0 < q.0 || (p.0 == q.0 && p.1 < q.1)
}

/// A row holds exactly the pairs of its entity with the later entities in
/// range of it, by ascending second entity.
pub proof fn lemma_pairs_in_row_exact(s: Seq<Entity>, i: int, j: int)
    requires
        0 <= i,
        j <= s.len() <= usize::MAX,
    ensures
        forall|k: int|
            0 <= k < pairs_in_row(s, i, j).len() ==> (#[trigger] pairs_in_row(s, i, j)[k]).0 == i
                && i < pairs_in_row(s, i, j)[k].1 < j && s[i].in_range(
                s[pairs_in_row(s, i, j)[k].1 as int],
            ),
        forall|k: int, m: int|
            0 <= k < m < pairs_in_row(s, i, j).len() ==> (#[trigger] pairs_in_row(s, i, j)[k]).1 < (
            #[trigger] pairs_in_row(s, i, j)[m]).1,
        forall|b: int|
            i < b < j && s[i].in_range(#[trigger] s[b]) ==> pairs_in_row(s, i, j).contains(
                (i as usize, b as usize),
            ),
    decreases j - i,
{
    if j > i + 1 {
        lemma_pairs_in_row_exact(s, i, j - 1);
        let row = pairs_in_row(s, i, j);
        let shorter = pairs_in_row(s, i, j - 1);
        assert forall|k: int| 0 <= k < row.len() implies (#[trigger] row[k]).0 == i && i
            < row[k].1 < j && s[i].in_range(s[row[k].1 as int]) by {
            if k < shorter.len() {
                assert(row[k] == shorter[k]);
            }
        }
        assert forall|k: int, m: int| 0 <= k < m < row.len() implies (#[trigger] row[k]).1 < (
        #[trigger] row[m]).1 by {
            assert(row[k] == shorter[k]);
            if m < shorter.len() {
                assert(row[m] == shorter[m]);
            }
        }
        assert forall|b: int| i < b < j && s[i].in_range(#[trigger] s[b]) implies row.contains(
            (i as usize, b as usize),
        ) by {
            if b < j - 1 {
                let k = choose|k: int|
                    0 <= k < shorter.len() && shorter[k] == (i as usize, b as usize);
                assert(row[k] == (i as usize, b as usize));
            } else {
                assert(row[row.len() - 1] == (i as usize, b as usize));
            }
        }
    }
}

/// The pairs whose first entity stands before `i` are exactly the pairs of
/// such an entity with a later one in range of it, in ascending order.
pub proof fn lemma_pairs_before_exact(s: Seq<Entity>, i: int)
    requires
        i <= s.len() <= usize::MAX,
    ensures
        forall|k: int|
            0 <= k < pairs_before(s, i).len() ==> (#[trigger] pairs_before(s, i)[k]).0 < i
                && pairs_before(s, i)[k].0 < pairs_before(s, i)[k].1 < s.len() && s[pairs_before(
                s,
                i,
            )[k].0 as int].in_range(s[pairs_before(s, i)[k].1 as int]),
        forall|k: int, m: int|
            0 <= k < m < pairs_before(s, i).len() ==> pair_before(
                #[trigger] pairs_before(s, i)[k],
                #[trigger] pairs_before(s, i)[m],
            ),
        forall|a: int, b: int|
            0 <= a < i && a < b < s.len() && (#[trigger] s[a]).in_range(#[trigger] s[b])
                ==> pairs_before(s, i).contains((a as usize, b as usize)),
    decreases i,
{
    if i > 0 {
        lemma_pairs_before_exact(s, i - 1);
        lemma_pairs_in_row_exact(s, i - 1, s.len() as int);
        let all = pairs_before(s, i);
        let earlier = pairs_before(s, i - 1);
        let row = pairs_in_row(s, i - 1, s.len() as int);
        assert forall|k: int| 0 <= k < all.len() implies (#[trigger] all[k]).0 < i && all[k].0
            < all[k].1 < s.len() && s[all[k].0 as int].in_range(s[all[k].1 as int]) by {
            if k < earlier.len() {
                assert(all[k] == earlier[k]);
            } else {
                assert(all[k] == row[k - earlier.len()]);
            }
        }
        assert forall|k: int, m: int| 0 <= k < m < all.len() implies pair_before(
            #[trigger] all[k],
            #[trigger] all[m],
        ) by {
            if m < earlier.len() {
                assert(all[k] == earlier[k] && all[m] == earlier[m]);
            } else if k < earlier.len() {
                assert(all[k] == earlier[k] && all[m] == row[m - earlier.len()]);
            } else {
                assert(all[k] == row[k - earlier.len()] && all[m] == row[m - earlier.len()]);
            }
        }
        assert forall|a: int, b: int|
            0 <= a < i && a < b < s.len() && (#[trigger] s[a]).in_range(
                #[trigger] s[b],
            ) implies all.contains((a as usize, b as usize)) by {
            if a < i - 1 {
                let k = choose|k: int|
                    0 <= k < earlier.len() && earlier[k] == (a as usize, b as usize);
                assert(all[k] == (a as usize, b as usize));
            } else {
                let k = choose|k: int| 0 <= k < row.len() && row[k] == (a as usize, b as usize);
                assert(all[earlier.len() + k] == (a as usize, b as usize));
            }
        }
    }
}

/// The pairs that a pass of interaction works through are exactly the pairs
/// of entities in range of each other, the earlier entity first, each pair
/// once, ordered by their first entity and then by their second.
pub proof fn lemma_interacting_pairs_exact(s: Seq<Entity>)
    requires
        s.len() <= usize::MAX,
    ensures
        forall|k: int|
            0 <= k < interacting_pairs(s).len() ==> (#[trigger] interacting_pairs(s)[k]).0
                < interacting_pairs(s)[k].1 < s.len() && s[interacting_pairs(s)[k].0 as int].in_range(
                s[interacting_pairs(s)[k].1 as int],
            ),
        forall|k: int, m: int|
            0 <= k < m < interacting_pairs(s).len() ==> pair_before(
                #[trigger] interacting_pairs(s)[k],
                #[trigger] interacting_pairs(s)[m],
            ),
        forall|a: int, b: int|
            0 <= a < b < s.len() && (#[trigger] s[a]).in_range(#[trigger] s[b])
                ==> interacting_pairs(s).contains((a as usize, b as usize)),
{
    lemma_pairs_before_exact(s, s.len() as int);
}

/// Encounters keep every entity's identity, kind, size and place, spoil no
/// well-formed entity and leave the dead as they were.
pub proof fn lemma_applied_keeps_cast(s: Seq<Entity>, pairs: Seq<(usize, usize)>)
    requires
        forall|k: int| 0 <= k < pairs.len() ==> (#[trigger] pairs[k]).0 < pairs[k].1 < s.len(),
    ensures
        same_cast(s, applied(s, pairs)),
    decreases pairs.len(),
{
    if pairs.len() > 0 {
        lemma_applied_keeps_cast(s, pairs.drop_last());
        let earlier = applied(s, pairs.drop_last());
        let i = pairs.last().0 as int;
        let j = pairs.last().1 as int;
        assert(earlier[i].id == s[i].id && earlier[j].id == s[j].id);
    }
}

/// A pass of interaction keeps every entity's identity, kind, size and place,
/// and spoils no well-formed entity: energy stays within its bounds. Whoever
/// has no energy when the pass begins takes no part in it.
pub proof fn lemma_resolved_keeps_cast(s: Seq<Entity>)
    requires
        s.len() <= usize::MAX,
    ensures
        same_cast(s, resolved(s)),
{
    lemma_interacting_pairs_exact(s);
    lemma_applied_keeps_cast(s, interacting_pairs(s));
}

/// Lets two entities meet, `first` standing before `second` in the world's
/// order.
pub fn exchange(first: &mut Entity, second: &mut Entity)
    ensures
        (*final(first), *final(second)) == exchanged(*old(first), *old(second)),
{
    if first.is_dead() || second.is_dead() {
        return ;
    }
    match (first.entity_type, second.entity_type) {
        (EntityType::Gatherer, EntityType::Resource) => {
            first.consume_resource(second);
        },
        (EntityType::Resource, EntityType::Gatherer) => {
            second.consume_resource(first);
        },
        (EntityType::Predator, EntityType::Gatherer) => {
            first.hunt_gatherer(second);
        },
        (EntityType::Gatherer, EntityType::Predator) => {
            second.hunt_gatherer(first);
        },
        _ => {},
    }
}

/// Lets the entities at `i` and `j` meet.
pub fn encounter(entities: &mut Vec<Entity>, i: usize, j: usize)
    requires
        i < j < old(entities)@.len(),
    ensures
        final(entities)@ == interacted(old(entities)@, i as int, j as int),
        same_cast(old(entities)@, final(entities)@),
{
    let mut first: Entity = entities[i];
    let mut second: Entity = entities[j];
    exchange(&mut first, &mut second);
    entities.set(i, first);
    entities.set(j, second);
}

/// Finds every pair of entities in range of each other.
pub fn find_interactions(entities: &Vec<Entity>) -> (pairs: Vec<(usize, usize)>)
    ensures
        pairs@ == interacting_pairs(entities@),
        forall|k: int|
            0 <= k < pairs@.len() ==> (#[trigger] pairs@[k]).0 < pairs@[k].1 < entities@.len(),
{
    let mut pairs: Vec<(usize, usize)> = Vec::new();
    let n: usize = entities.len();
    let mut i: usize = 0;
    while i < n
        invariant
            i <= n,
            n == entities@.len(),
            pairs@ == pairs_before(entities@, i as int),
            forall|k: int|
                0 <= k < pairs@.len() ==> (#[trigger] pairs@[k]).0 < pairs@[k].1 < n,
        decreases n - i,
    {
        let ghost earlier = pairs@;
        let mut j: usize = i + 1;
        while j < n
            invariant
                i < n,
                i + 1 <= j <= n,
                n == entities@.len(),
                pairs@ == earlier + pairs_in_row(entities@, i as int, j as int),
                forall|k: int|
                    0 <= k < pairs@.len() ==> (#[trigger] pairs@[k]).0 < pairs@[k].1 < n,
            decreases n - j,
        {
            let ghost row = pairs_in_row(entities@, i as int, j as int);
            if entities[i].can_interact_with(&entities[j]) {
                pairs.push((i, j));
                assert(pairs@ =~= earlier + row.push((i, j)));
            }
            j = j + 1;
        }
        i = i + 1;
    }
    pairs
}

/// Runs one pass of interaction over the world: finds the pairs in range,
/// then lets each pair meet, in the order in which they were found.
pub fn resolve_interactions(entities: &mut Vec<Entity>)
    ensures
        final(entities)@ == resolved(old(entities)@),
        same_cast(old(entities)@, final(entities)@),
{
    let pairs: Vec<(usize, usize)> = find_interactions(entities);
    let mut k: usize = 0;
    while k < pairs.len()
        invariant
            k <= pairs@.len(),
            entities@ == applied(old(entities)@, pairs@.take(k as int)),
            same_cast(old(entities)@, entities@),
            forall|m: int|
                0 <= m < pairs@.len() ==> (#[trigger] pairs@[m]).0 < pairs@[m].1 < old(
                    entities,
                )@.len(),
        decreases pairs@.len() - k,
    {
        let pair: (usize, usize) = pairs[k];
        encounter(entities, pair.0, pair.1);
        proof {
            assert(pairs@.take(k + 1).drop_last() =~= pairs@.take(k as int));
        }
        k = k + 1;
    }
    proof {
        assert(pairs@.take(k as int) =~= pairs@);
    }
}

} // verus!
