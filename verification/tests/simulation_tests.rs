use colony_sim::entity::{Entity, EntityType};
use colony_sim::simulation::Simulation;

fn kinds_of(entities: &[Entity], kind: EntityType) -> usize {
    entities.iter().filter(|e| e.entity_type == kind).count()
}

fn check_world(entities: &[Entity], width: i32, height: i32) {
    let mut k = 0;
    while k < entities.len() {
        let e = &entities[k];
        assert!(e.energy > 0);
        assert!(e.energy <= e.max_energy);
        assert!(e.position.x >= 0 && e.position.x < width);
        assert!(e.position.y >= 0 && e.position.y < height);
        if k > 0 {
            assert!(entities[k - 1].id < e.id);
        }
        k += 1;
    }
}

#[test]
fn new_world_holds_the_founders_in_order() {
    let simulation = Simulation::new(800, 600, 1);
    let entities = simulation.get_entities();
    assert_eq!(entities.len(), 37);
    let mut k = 0;
    while k < 37 {
        let e = &entities[k];
        assert_eq!(e.id, k as u64 + 1);
        let kind = if k < 10 {
            EntityType::Gatherer
        } else if k < 35 {
            EntityType::Resource
        } else {
            EntityType::Predator
        };
        assert_eq!(e.entity_type, kind);
        assert!(e.position.x >= 10 && e.position.x < 790);
        assert!(e.position.y >= 10 && e.position.y < 590);
        assert_eq!(e.age, 0);
        k += 1;
    }
    assert_eq!(entities[0].energy, 150);
    assert_eq!(entities[10].energy, 80);
    assert_eq!(entities[35].energy, 150);
}

#[test]
fn founders_are_spread_over_the_world() {
    let simulation = Simulation::new(800, 600, 5);
    let entities = simulation.get_entities();
    let first = entities[0].position;
    assert!(entities.iter().any(|e| e.position.x != first.x));
    assert!(entities.iter().any(|e| e.position.y != first.y));
}

#[test]
fn smallest_world_places_everyone_on_its_only_spawn_point() {
    let simulation = Simulation::new(21, 21, 3);
    for e in simulation.get_entities() {
        assert_eq!(e.position.x, 10);
        assert_eq!(e.position.y, 10);
    }
}

#[test]
fn same_seed_gives_the_same_run() {
    let mut a = Simulation::new(800, 600, 99);
    let mut b = Simulation::new(800, 600, 99);
    assert_eq!(a.get_entities(), b.get_entities());
    let mut tick = 0;
    while tick < 200 {
        a.update(16_600);
        b.update(16_600);
        tick += 1;
    }
    assert_eq!(a.get_entities(), b.get_entities());
}

#[test]
fn different_seeds_give_different_worlds() {
    let a = Simulation::new(800, 600, 1);
    let b = Simulation::new(800, 600, 2);
    assert_ne!(a.get_entities(), b.get_entities());
}

#[test]
fn added_entities_are_appended_with_fresh_ids() {
    let mut simulation = Simulation::new(800, 600, 4);
    simulation.add_random_gatherers(3);
    simulation.add_random_resources(5);
    simulation.add_random_predators(1);
    simulation.add_random_predators(0);
    let entities = simulation.get_entities();
    assert_eq!(entities.len(), 46);
    let mut k = 37;
    while k < 46 {
        let e = &entities[k];
        assert_eq!(e.id, k as u64 + 1);
        let kind = if k < 40 {
            EntityType::Gatherer
        } else if k < 45 {
            EntityType::Resource
        } else {
            EntityType::Predator
        };
        assert_eq!(e.entity_type, kind);
        assert!(e.position.x >= 10 && e.position.x < 790);
        assert!(e.position.y >= 10 && e.position.y < 590);
        k += 1;
    }
    check_world(entities, 800, 600);
}

#[test]
fn every_tick_leaves_a_sound_world() {
    let mut simulation = Simulation::new(200, 150, 11);
    let mut tick = 0;
    while tick < 3000 {
        simulation.update(16_600);
        check_world(simulation.get_entities(), 200, 150);
        tick += 1;
    }
}

#[test]
fn long_ticks_leave_a_sound_world_and_bounded_predators() {
    let mut simulation = Simulation::new(120, 90, 12);
    let mut tick = 0;
    while tick < 400 {
        simulation.update(2_600_000);
        let entities = simulation.get_entities();
        check_world(entities, 120, 90);
        assert!(kinds_of(entities, EntityType::Predator) <= 5);
        tick += 1;
    }
}

#[test]
fn a_tick_of_no_time_changes_no_clock() {
    let mut simulation = Simulation::new(800, 600, 13);
    simulation.update(0);
    let entities = simulation.get_entities();
    assert_eq!(entities.len(), 37);
    for e in entities {
        assert_eq!(e.age, 0);
        assert_eq!(e.energy_consumption_timer, 0);
    }
    check_world(entities, 800, 600);
}

#[test]
fn spawn_is_due_after_more_than_five_seconds() {
    let mut simulation = Simulation::new(800, 600, 14);
    simulation.update(5_000_000);
    assert_eq!(kinds_of(simulation.get_entities(), EntityType::Resource), 25);
    assert_eq!(simulation.get_entities().len(), 37);
    simulation.update(1);
    let entities = simulation.get_entities();
    assert_eq!(kinds_of(entities, EntityType::Resource), 28);
    assert_eq!(kinds_of(entities, EntityType::Gatherer), 10);
    let predators = kinds_of(entities, EntityType::Predator);
    assert!(predators == 2 || predators == 3);
    assert_eq!(entities.len(), 38 + predators);
    assert_eq!(entities[37].id, 38);
    assert_eq!(entities[37].entity_type, EntityType::Resource);
    assert_eq!(entities[39].id, 40);
}

#[test]
fn resources_are_brought_back_to_their_floor() {
    let mut simulation = Simulation::new(800, 600, 15);
    simulation.update(5_000_001);
    simulation.update(5_000_001);
    let entities = simulation.get_entities();
    assert!(kinds_of(entities, EntityType::Resource) >= 30);
}
