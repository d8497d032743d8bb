use colony_sim::entity::Entity;
use colony_sim::interaction::{encounter, exchange, find_interactions, resolve_interactions};
use colony_sim::position::Position;

#[test]
fn gatherer_and_resource_in_range_after_one_pass() {
    let mut world = vec![
        Entity::new_gatherer(1, Position::new(100, 100)),
        Entity::new_resource(2, Position::new(104, 103)),
    ];
    resolve_interactions(&mut world);
    assert_eq!(world[0].energy, 180);
    assert_eq!(world[1].energy, 50);
}

#[test]
fn resource_before_gatherer_gives_the_same_meal() {
    let mut world = vec![
        Entity::new_resource(1, Position::new(104, 103)),
        Entity::new_gatherer(2, Position::new(100, 100)),
    ];
    resolve_interactions(&mut world);
    assert_eq!(world[0].energy, 50);
    assert_eq!(world[1].energy, 180);
}

#[test]
fn predator_and_gatherer_in_range_after_one_pass() {
    let mut predator = Entity::new_predator(1, Position::new(100, 100));
    predator.time_since_last_hunt = 7_000_000;
    let mut world = vec![predator, Entity::new_gatherer(2, Position::new(110, 110))];
    resolve_interactions(&mut world);
    assert_eq!(world[1].energy, 110);
    assert_eq!(world[0].energy, 170);
    assert_eq!(world[0].time_since_last_hunt, 0);
}

#[test]
fn gatherer_before_predator_is_hunted_all_the_same() {
    let mut predator = Entity::new_predator(2, Position::new(100, 100));
    predator.time_since_last_hunt = 7_000_000;
    let mut world = vec![Entity::new_gatherer(1, Position::new(110, 110)), predator];
    resolve_interactions(&mut world);
    assert_eq!(world[0].energy, 110);
    assert_eq!(world[1].energy, 170);
    assert_eq!(world[1].time_since_last_hunt, 0);
}

#[test]
fn entities_out_of_range_do_not_interact() {
    let mut world = vec![
        Entity::new_gatherer(1, Position::new(100, 100)),
        Entity::new_resource(2, Position::new(200, 200)),
        Entity::new_predator(3, Position::new(400, 400)),
    ];
    let before = world.clone();
    resolve_interactions(&mut world);
    assert_eq!(world, before);
    assert!(find_interactions(&before).is_empty());
}

#[test]
fn same_kinds_and_predator_with_resource_do_nothing() {
    let mut world = vec![
        Entity::new_gatherer(1, Position::new(100, 100)),
        Entity::new_gatherer(2, Position::new(101, 100)),
    ];
    let before = world.clone();
    resolve_interactions(&mut world);
    assert_eq!(world, before);

    let mut other = vec![
        Entity::new_predator(1, Position::new(100, 100)),
        Entity::new_resource(2, Position::new(101, 100)),
        Entity::new_predator(3, Position::new(102, 100)),
        Entity::new_resource(4, Position::new(103, 100)),
    ];
    let unchanged = other.clone();
    resolve_interactions(&mut other);
    assert_eq!(other, unchanged);
}

#[test]
fn pairs_are_found_by_ascending_first_then_second_index() {
    let world = vec![
        Entity::new_gatherer(1, Position::new(100, 100)),
        Entity::new_resource(2, Position::new(101, 100)),
        Entity::new_gatherer(3, Position::new(500, 500)),
        Entity::new_predator(4, Position::new(102, 100)),
        Entity::new_resource(5, Position::new(501, 500)),
    ];
    let pairs = find_interactions(&world);
    assert_eq!(pairs, vec![(0, 1), (0, 3), (1, 3), (2, 4)]);
}

#[test]
fn later_pairs_see_what_earlier_pairs_left() {
    let mut resource = Entity::new_resource(2, Position::new(100, 100));
    resource.energy = 40;
    let mut world = vec![
        Entity::new_gatherer(1, Position::new(99, 100)),
        resource,
        Entity::new_gatherer(3, Position::new(101, 100)),
        Entity::new_gatherer(4, Position::new(100, 101)),
    ];
    resolve_interactions(&mut world);
    assert_eq!(world[0].energy, 180);
    assert_eq!(world[1].energy, 0);
    assert_eq!(world[2].energy, 160);
    assert_eq!(world[3].energy, 150);
}

#[test]
fn one_gatherer_may_feed_and_be_hunted_in_one_pass() {
    let mut world = vec![
        Entity::new_gatherer(1, Position::new(100, 100)),
        Entity::new_resource(2, Position::new(101, 100)),
        Entity::new_predator(3, Position::new(102, 100)),
    ];
    resolve_interactions(&mut world);
    assert_eq!(world[0].energy, 140);
    assert_eq!(world[1].energy, 50);
    assert_eq!(world[2].energy, 170);
}

#[test]
fn a_pass_keeps_identity_kind_and_place() {
    let mut world = vec![
        Entity::new_predator(1, Position::new(100, 100)),
        Entity::new_gatherer(2, Position::new(101, 100)),
        Entity::new_resource(3, Position::new(102, 100)),
    ];
    let before = world.clone();
    resolve_interactions(&mut world);
    assert_eq!(world.len(), before.len());
    let mut k = 0;
    while k < world.len() {
        assert_eq!(world[k].id, before[k].id);
        assert_eq!(world[k].entity_type, before[k].entity_type);
        assert_eq!(world[k].position, before[k].position);
        assert!(world[k].energy <= world[k].max_energy);
        k += 1;
    }
}

#[test]
fn encounter_changes_only_the_two_that_meet() {
    let mut world = vec![
        Entity::new_resource(1, Position::new(100, 100)),
        Entity::new_resource(2, Position::new(100, 101)),
        Entity::new_gatherer(3, Position::new(101, 100)),
    ];
    encounter(&mut world, 0, 2);
    assert_eq!(world[0].energy, 50);
    assert_eq!(world[1].energy, 80);
    assert_eq!(world[2].energy, 180);
}

#[test]
fn exchange_picks_the_rule_by_the_two_kinds() {
    let mut g = Entity::new_gatherer(1, Position::new(100, 100));
    let mut p = Entity::new_predator(2, Position::new(101, 100));
    exchange(&mut g, &mut p);
    assert_eq!(g.energy, 110);
    assert_eq!(p.energy, 170);
    let mut r = Entity::new_resource(3, Position::new(100, 101));
    exchange(&mut r, &mut g);
    assert_eq!(r.energy, 50);
    assert_eq!(g.energy, 140);
    let before_r = r;
    let before_p = p;
    exchange(&mut r, &mut p);
    assert_eq!(r, before_r);
    assert_eq!(p, before_p);
}

#[test]
fn spent_gatherer_does_not_feed() {
    let mut gatherer = Entity::new_gatherer(1, Position::new(100, 100));
    gatherer.energy = 0;
    let mut world = vec![gatherer, Entity::new_resource(2, Position::new(101, 100))];
    let before = world.clone();
    resolve_interactions(&mut world);
    assert_eq!(world, before);
    let mut swapped = vec![before[1], before[0]];
    resolve_interactions(&mut swapped);
    assert_eq!(swapped, vec![before[1], before[0]]);
}

#[test]
fn spent_predator_does_not_hunt() {
    let mut predator = Entity::new_predator(1, Position::new(100, 100));
    predator.energy = 0;
    predator.time_since_last_hunt = 3_000_000;
    let mut world = vec![predator, Entity::new_gatherer(2, Position::new(101, 100))];
    let before = world.clone();
    resolve_interactions(&mut world);
    assert_eq!(world, before);
}

#[test]
fn gatherer_spent_in_a_pass_is_not_hunted_again() {
    let mut first = Entity::new_predator(1, Position::new(100, 100));
    first.time_since_last_hunt = 7_000_000;
    let mut prey = Entity::new_gatherer(2, Position::new(101, 100));
    prey.energy = 30;
    let mut second = Entity::new_predator(3, Position::new(102, 100));
    second.time_since_last_hunt = 9_000_000;
    let mut world = vec![first, prey, second];
    resolve_interactions(&mut world);
    assert_eq!(world[0].energy, 165);
    assert_eq!(world[0].time_since_last_hunt, 0);
    assert_eq!(world[1].energy, 0);
    assert_eq!(world[2].energy, 150);
    assert_eq!(world[2].time_since_last_hunt, 9_000_000);
}

#[test]
fn spent_entities_stay_spent_through_a_pass() {
    let mut gatherer = Entity::new_gatherer(1, Position::new(100, 100));
    gatherer.energy = 0;
    let mut predator = Entity::new_predator(4, Position::new(103, 100));
    predator.energy = 0;
    let mut world = vec![
        gatherer,
        Entity::new_resource(2, Position::new(101, 100)),
        Entity::new_gatherer(3, Position::new(102, 100)),
        predator,
    ];
    resolve_interactions(&mut world);
    assert_eq!(world[0].energy, 0);
    assert_eq!(world[1].energy, 50);
    assert_eq!(world[2].energy, 180);
    assert_eq!(world[3].energy, 0);
}
