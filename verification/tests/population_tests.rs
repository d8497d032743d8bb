use colony_sim::entity::{Entity, EntityType};
use colony_sim::population::{count_entities_of_type, plan_spawn, remove_dead, SpawnPlan};
use colony_sim::position::Position;

#[test]
fn dead_entities_leave_and_the_rest_keep_their_order() {
    let mut world = vec![
        Entity::new_gatherer(1, Position::new(0, 0)),
        Entity::new_resource(2, Position::new(1, 0)),
        Entity::new_predator(3, Position::new(2, 0)),
        Entity::new_gatherer(4, Position::new(3, 0)),
        Entity::new_resource(5, Position::new(4, 0)),
    ];
    world[0].energy = 0;
    world[2].energy = 0;
    world[3].energy = 1;
    let removed = remove_dead(&mut world);
    assert_eq!(removed, 2);
    let ids: Vec<u64> = world.iter().map(|e| e.id).collect();
    assert_eq!(ids, vec![2, 4, 5]);
}

#[test]
fn removal_of_nobody_and_of_everybody() {
    let mut living = vec![Entity::new_gatherer(1, Position::new(0, 0))];
    assert_eq!(remove_dead(&mut living), 0);
    assert_eq!(living.len(), 1);
    let mut dead = vec![
        Entity::new_gatherer(1, Position::new(0, 0)),
        Entity::new_gatherer(2, Position::new(0, 0)),
    ];
    dead[0].energy = 0;
    dead[1].energy = 0;
    assert_eq!(remove_dead(&mut dead), 2);
    assert!(dead.is_empty());
    let mut empty: Vec<Entity> = Vec::new();
    assert_eq!(remove_dead(&mut empty), 0);
}

#[test]
fn counts_are_by_kind() {
    let world = vec![
        Entity::new_gatherer(1, Position::new(0, 0)),
        Entity::new_resource(2, Position::new(1, 0)),
        Entity::new_resource(3, Position::new(2, 0)),
        Entity::new_gatherer(4, Position::new(3, 0)),
        Entity::new_resource(5, Position::new(4, 0)),
    ];
    assert_eq!(count_entities_of_type(&world, EntityType::Gatherer), 2);
    assert_eq!(count_entities_of_type(&world, EntityType::Resource), 3);
    assert_eq!(count_entities_of_type(&world, EntityType::Predator), 0);
    let empty: Vec<Entity> = Vec::new();
    assert_eq!(count_entities_of_type(&empty, EntityType::Gatherer), 0);
}

#[test]
fn spawn_plan_fills_what_is_short() {
    assert_eq!(
        plan_spawn(0, 0, 0, true),
        SpawnPlan { resources: 3, gatherers: 2, predators: 1 }
    );
    assert_eq!(
        plan_spawn(29, 2, 4, true),
        SpawnPlan { resources: 3, gatherers: 2, predators: 1 }
    );
    assert_eq!(
        plan_spawn(30, 3, 5, true),
        SpawnPlan { resources: 0, gatherers: 0, predators: 0 }
    );
    assert_eq!(
        plan_spawn(29, 3, 0, false),
        SpawnPlan { resources: 3, gatherers: 0, predators: 0 }
    );
    assert_eq!(
        plan_spawn(100, 0, 7, true),
        SpawnPlan { resources: 0, gatherers: 2, predators: 0 }
    );
}

#[test]
fn spawns_from_an_empty_world_reach_the_floor_and_respect_the_cap() {
    let mut resources = 0;
    let mut gatherers = 0;
    let mut predators = 0;
    let mut round = 0;
    while round < 40 {
        let plan = plan_spawn(resources, gatherers, predators, true);
        resources += plan.resources;
        gatherers += plan.gatherers;
        predators += plan.predators;
        round += 1;
        if round < 10 {
            assert_eq!(resources, 3 * round);
        } else {
            assert_eq!(resources, 30);
        }
        assert!(predators <= 5);
        assert!(gatherers <= 4);
    }
    assert_eq!(predators, 5);
    assert_eq!(gatherers, 4);
}

#[test]
fn resources_below_the_floor_always_grow() {
    let mut resources = 0;
    while resources < 30 {
        let plan = plan_spawn(resources, 10, 5, false);
        assert_eq!(plan.resources, 3);
        resources += 1;
    }
}
