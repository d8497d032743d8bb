use colony_sim::entity::{Entity, EntityType};
use colony_sim::position::Position;
use colony_sim::pursuit::{apply_pursuits, find_target, odds_of_pursuit, plan_pursuits, pursue};

#[test]
fn gatherer_odds_rise_as_energy_falls() {
    let mut g = Entity::new_gatherer(1, Position::new(0, 0));
    g.energy = 59;
    assert_eq!(odds_of_pursuit(&g), (4, 5));
    g.energy = 60;
    assert_eq!(odds_of_pursuit(&g), (2, 5));
    g.energy = 119;
    assert_eq!(odds_of_pursuit(&g), (2, 5));
    g.energy = 120;
    assert_eq!(odds_of_pursuit(&g), (1, 5));
    g.energy = 200;
    assert_eq!(odds_of_pursuit(&g), (1, 5));
    g.energy = 0;
    assert_eq!(odds_of_pursuit(&g), (4, 5));
}

#[test]
fn predator_odds_rise_with_time_since_hunt() {
    let mut p = Entity::new_predator(1, Position::new(0, 0));
    assert_eq!(odds_of_pursuit(&p), (2, 5));
    p.time_since_last_hunt = 8_000_000;
    assert_eq!(odds_of_pursuit(&p), (2, 5));
    p.time_since_last_hunt = 8_000_001;
    assert_eq!(odds_of_pursuit(&p), (3, 5));
    p.time_since_last_hunt = 15_000_000;
    assert_eq!(odds_of_pursuit(&p), (3, 5));
    p.time_since_last_hunt = 15_000_001;
    assert_eq!(odds_of_pursuit(&p), (9, 10));
}

#[test]
fn resource_never_pursues() {
    let r = Entity::new_resource(1, Position::new(0, 0));
    assert_eq!(odds_of_pursuit(&r), (0, 1));
    let world = vec![r, Entity::new_gatherer(2, Position::new(5, 5))];
    assert_eq!(find_target(&world, 0), None);
}

#[test]
fn gatherers_seek_resources_and_predators_seek_gatherers() {
    let world = vec![
        Entity::new_gatherer(1, Position::new(0, 0)),
        Entity::new_resource(2, Position::new(100, 0)),
        Entity::new_predator(3, Position::new(50, 50)),
        Entity::new_resource(4, Position::new(0, 40)),
        Entity::new_gatherer(5, Position::new(60, 50)),
    ];
    assert_eq!(find_target(&world, 0), Some(Position::new(0, 40)));
    assert_eq!(find_target(&world, 1), None);
    assert_eq!(find_target(&world, 2), Some(Position::new(60, 50)));
    assert_eq!(find_target(&world, 4), Some(Position::new(0, 40)));
    let plan = plan_pursuits(&world);
    assert_eq!(
        plan,
        vec![
            (0, Position::new(0, 40)),
            (2, Position::new(60, 50)),
            (4, Position::new(0, 40)),
        ]
    );
}

#[test]
fn no_target_means_no_pursuit() {
    let world = vec![
        Entity::new_gatherer(1, Position::new(0, 0)),
        Entity::new_gatherer(2, Position::new(10, 0)),
    ];
    assert!(plan_pursuits(&world).is_empty());
    let predators = vec![
        Entity::new_predator(1, Position::new(0, 0)),
        Entity::new_resource(2, Position::new(10, 0)),
    ];
    assert!(plan_pursuits(&predators).is_empty());
    let empty: Vec<Entity> = Vec::new();
    assert!(plan_pursuits(&empty).is_empty());
}

#[test]
fn pursue_walks_the_speed_and_stays_inside() {
    let mut g = Entity::new_gatherer(1, Position::new(0, 0));
    pursue(&mut g, &Position::new(30, 40), 800, 600);
    assert_eq!(g.position, Position::new(1, 1));
    let mut p = Entity::new_predator(2, Position::new(100, 100));
    pursue(&mut p, &Position::new(100, 0), 800, 600);
    assert_eq!(p.position, Position::new(100, 96));
    let mut near = Entity::new_predator(3, Position::new(100, 100));
    pursue(&mut near, &Position::new(103, 103), 800, 600);
    assert_eq!(near.position, Position::new(103, 103));
    let mut out = Entity::new_predator(4, Position::new(798, 598));
    pursue(&mut out, &Position::new(801, 601), 800, 600);
    assert_eq!(out.position, Position::new(799, 599));
    assert_eq!(out.energy, 150);
    assert_eq!(out.entity_type, EntityType::Predator);
}

#[test]
fn resource_does_not_move_when_told_to_pursue() {
    let mut r = Entity::new_resource(1, Position::new(10, 10));
    pursue(&mut r, &Position::new(500, 500), 800, 600);
    assert_eq!(r.position, Position::new(10, 10));
}

#[test]
fn only_marked_pursuits_take_place() {
    let mut world = vec![
        Entity::new_gatherer(1, Position::new(0, 0)),
        Entity::new_resource(2, Position::new(100, 0)),
        Entity::new_gatherer(3, Position::new(200, 0)),
    ];
    let plan = plan_pursuits(&world);
    assert_eq!(plan, vec![(0, Position::new(100, 0)), (2, Position::new(100, 0))]);
    apply_pursuits(&mut world, &plan, &vec![false, true], 800, 600);
    assert_eq!(world[0].position, Position::new(0, 0));
    assert_eq!(world[1].position, Position::new(100, 0));
    assert_eq!(world[2].position, Position::new(198, 0));
}

#[test]
fn targets_are_those_from_before_any_move() {
    let mut world = vec![
        Entity::new_predator(1, Position::new(0, 0)),
        Entity::new_gatherer(2, Position::new(10, 0)),
        Entity::new_resource(3, Position::new(40, 0)),
    ];
    let plan = plan_pursuits(&world);
    assert_eq!(plan, vec![(0, Position::new(10, 0)), (1, Position::new(40, 0))]);
    apply_pursuits(&mut world, &plan, &vec![true, true], 800, 600);
    assert_eq!(world[1].position, Position::new(12, 0));
    assert_eq!(world[0].position, Position::new(4, 0));
}
