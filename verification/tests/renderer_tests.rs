use colony_sim::entity::Entity;
use colony_sim::position::Position;
use colony_sim::renderer::Renderer;
use colony_sim::simulation::Simulation;

const BACKGROUND: u32 = 0x000020;
const GRID: u32 = 0x001040;

fn at(renderer: &Renderer, width: usize, x: usize, y: usize) -> u32 {
    renderer.get_buffer()[y * width + x]
}

fn count_of_color(renderer: &Renderer, color: u32) -> usize {
    renderer.get_buffer().iter().filter(|c| **c == color).count()
}

#[test]
fn new_renderer_is_black() {
    let renderer = Renderer::new(40, 30);
    assert_eq!(renderer.get_buffer().len(), 1200);
    assert!(renderer.get_buffer().iter().all(|c| *c == 0));
    let empty = Renderer::new(0, 10);
    assert_eq!(empty.get_buffer().len(), 0);
}

#[test]
fn clear_fills_with_the_background_colour() {
    let mut renderer = Renderer::new(40, 30);
    renderer.set_pixel(Position::new(3, 3), 0xABCDEF);
    renderer.clear();
    assert_eq!(renderer.get_buffer().len(), 1200);
    assert!(renderer.get_buffer().iter().all(|c| *c == BACKGROUND));
}

#[test]
fn set_pixel_colours_one_point_of_the_canvas() {
    let mut renderer = Renderer::new(40, 30);
    renderer.set_pixel(Position::new(7, 2), 0x123456);
    assert_eq!(at(&renderer, 40, 7, 2), 0x123456);
    assert_eq!(renderer.get_buffer()[2 * 40 + 7], 0x123456);
    assert_eq!(count_of_color(&renderer, 0x123456), 1);
    renderer.set_pixel(Position::new(39, 29), 0x654321);
    assert_eq!(at(&renderer, 40, 39, 29), 0x654321);
    renderer.set_pixel(Position::new(0, 0), 0x111111);
    assert_eq!(at(&renderer, 40, 0, 0), 0x111111);
}

#[test]
fn set_pixel_outside_the_canvas_does_nothing() {
    let mut renderer = Renderer::new(40, 30);
    renderer.set_pixel(Position::new(-1, 5), 0x123456);
    renderer.set_pixel(Position::new(5, -1), 0x123456);
    renderer.set_pixel(Position::new(40, 5), 0x123456);
    renderer.set_pixel(Position::new(5, 30), 0x123456);
    renderer.set_pixel(Position::new(i32::MAX, i32::MIN), 0x123456);
    assert!(renderer.get_buffer().iter().all(|c| *c == 0));
}

#[test]
fn background_has_a_grid_line_every_fifty_points() {
    let mut renderer = Renderer::new(120, 110);
    renderer.draw_background();
    let mut y = 0;
    while y < 110 {
        let mut x = 0;
        while x < 120 {
            let expected = if x % 50 == 0 || y % 50 == 0 { GRID } else { BACKGROUND };
            assert_eq!(at(&renderer, 120, x, y), expected);
            x += 1;
        }
        y += 1;
    }
    assert_eq!(at(&renderer, 120, 0, 0), GRID);
    assert_eq!(at(&renderer, 120, 1, 1), BACKGROUND);
    assert_eq!(at(&renderer, 120, 50, 7), GRID);
    assert_eq!(at(&renderer, 120, 7, 100), GRID);
}

#[test]
fn gatherer_is_a_small_disc_under_its_energy_bar() {
    let mut renderer = Renderer::new(200, 200);
    let gatherer = Entity::new_gatherer(1, Position::new(100, 100));
    renderer.draw_entity(&gatherer);
    for (x, y) in [(100, 100), (99, 100), (101, 100), (100, 99), (100, 101)] {
        assert_eq!(at(&renderer, 200, x, y), 0x00FF00);
    }
    for (x, y) in [(99, 99), (101, 101), (99, 101), (101, 99), (102, 100), (100, 98)] {
        assert_eq!(at(&renderer, 200, x, y), 0);
    }
    for y in [94, 95] {
        let mut x = 96;
        while x < 102 {
            assert_eq!(at(&renderer, 200, x, y), 0x00FF00);
            x += 1;
        }
        assert_eq!(at(&renderer, 200, 102, y), 0x404040);
        assert_eq!(at(&renderer, 200, 103, y), 0x404040);
        assert_eq!(at(&renderer, 200, 95, y), 0);
        assert_eq!(at(&renderer, 200, 104, y), 0);
    }
    assert_eq!(at(&renderer, 200, 100, 93), 0);
    assert_eq!(at(&renderer, 200, 100, 96), 0);
    assert_eq!(count_of_color(&renderer, 0x404040), 4);
    assert_eq!(count_of_color(&renderer, 0x00FF00), 17);
}

#[test]
fn energy_bar_changes_colour_as_it_empties() {
    let mut half = Entity::new_gatherer(1, Position::new(100, 100));
    half.energy = 100;
    half.color = 0x007F00;
    let mut renderer = Renderer::new(200, 200);
    renderer.draw_entity(&half);
    assert_eq!(count_of_color(&renderer, 0xFFFF00), 8);
    assert_eq!(count_of_color(&renderer, 0x404040), 8);
    assert_eq!(at(&renderer, 200, 99, 94), 0xFFFF00);
    assert_eq!(at(&renderer, 200, 100, 94), 0x404040);

    let mut low = Entity::new_gatherer(2, Position::new(100, 100));
    low.energy = 50;
    low.color = 0x003F00;
    let mut second = Renderer::new(200, 200);
    second.draw_entity(&low);
    assert_eq!(count_of_color(&second, 0xFF0000), 4);
    assert_eq!(count_of_color(&second, 0x404040), 12);

    let mut spent = Entity::new_gatherer(3, Position::new(100, 100));
    spent.energy = 0;
    spent.color = 0;
    let mut third = Renderer::new(200, 200);
    third.draw_entity(&spent);
    assert_eq!(count_of_color(&third, 0x404040), 16);
    assert_eq!(count_of_color(&third, 0xFF0000), 0);
}

#[test]
fn full_resource_wears_a_ring() {
    let mut renderer = Renderer::new(400, 400);
    let resource = Entity::new_resource(1, Position::new(200, 200));
    renderer.draw_entity(&resource);
    let ring = [
        (204, 200),
        (203, 201),
        (202, 202),
        (201, 203),
        (200, 204),
        (199, 203),
        (198, 202),
        (197, 201),
        (196, 200),
        (197, 199),
        (198, 198),
        (199, 197),
        (200, 196),
        (201, 197),
        (202, 198),
        (203, 199),
    ];
    for (x, y) in ring {
        assert_eq!(at(&renderer, 400, x, y), 0xFFFFAA);
    }
    assert_eq!(count_of_color(&renderer, 0xFFFFAA), 16);
    for (x, y) in [(200, 200), (199, 200), (201, 200), (200, 199), (200, 201)] {
        assert_eq!(at(&renderer, 400, x, y), 0xFFFF00);
    }
    assert_eq!(count_of_color(&renderer, 0xFFFF00), 5);
}

#[test]
fn resource_at_four_fifths_or_less_has_no_ring() {
    let mut resource = Entity::new_resource(1, Position::new(200, 200));
    resource.energy = 64;
    let mut renderer = Renderer::new(400, 400);
    renderer.draw_entity(&resource);
    assert_eq!(count_of_color(&renderer, 0xFFFFAA), 0);
    resource.energy = 65;
    renderer.draw_entity(&resource);
    assert_eq!(count_of_color(&renderer, 0xFFFFAA), 16);
}

#[test]
fn predator_is_a_disc_with_eight_spikes() {
    let mut renderer = Renderer::new(400, 400);
    let predator = Entity::new_predator(1, Position::new(300, 300));
    renderer.draw_entity(&predator);
    let spikes = [
        (305, 300),
        (303, 303),
        (300, 305),
        (297, 303),
        (295, 300),
        (297, 297),
        (300, 295),
        (303, 297),
    ];
    for (x, y) in spikes {
        assert_eq!(at(&renderer, 400, x, y), 0xFF4444);
    }
    assert_eq!(count_of_color(&renderer, 0xFF4444), 8);
    assert_eq!(count_of_color(&renderer, 0xFF0000), 13);
    assert_eq!(at(&renderer, 400, 302, 300), 0xFF0000);
    assert_eq!(at(&renderer, 400, 301, 301), 0xFF0000);
    assert_eq!(at(&renderer, 400, 302, 301), 0);
}

#[test]
fn entity_at_the_edge_is_cut_off() {
    let mut renderer = Renderer::new(50, 50);
    let predator = Entity::new_predator(1, Position::new(0, 0));
    renderer.draw_entity(&predator);
    assert_eq!(at(&renderer, 50, 0, 0), 0xFF0000);
    assert_eq!(at(&renderer, 50, 5, 0), 0xFF4444);
    assert_eq!(at(&renderer, 50, 0, 5), 0xFF4444);
    assert_eq!(at(&renderer, 50, 3, 3), 0xFF4444);
    assert_eq!(count_of_color(&renderer, 0xFF4444), 3);
    assert_eq!(count_of_color(&renderer, 0xFF0000), 6);
    let far = Entity::new_gatherer(2, Position::new(i32::MAX, i32::MIN));
    renderer.draw_entity(&far);
    assert_eq!(count_of_color(&renderer, 0x00FF00), 0);
}

#[test]
fn line_runs_from_start_to_end() {
    let mut renderer = Renderer::new(20, 20);
    renderer.draw_line(Position::new(2, 3), Position::new(6, 3), 0xAAAAAA);
    let mut x = 2;
    while x <= 6 {
        assert_eq!(at(&renderer, 20, x, 3), 0xAAAAAA);
        x += 1;
    }
    assert_eq!(count_of_color(&renderer, 0xAAAAAA), 5);

    renderer.draw_line(Position::new(10, 10), Position::new(7, 13), 0xBBBBBB);
    for (x, y) in [(10, 10), (9, 11), (8, 12), (7, 13)] {
        assert_eq!(at(&renderer, 20, x, y), 0xBBBBBB);
    }
    assert_eq!(count_of_color(&renderer, 0xBBBBBB), 4);

    renderer.draw_line(Position::new(15, 15), Position::new(15, 15), 0xCCCCCC);
    assert_eq!(at(&renderer, 20, 15, 15), 0xCCCCCC);
    assert_eq!(count_of_color(&renderer, 0xCCCCCC), 1);
}

#[test]
fn steep_line_has_one_point_in_each_row() {
    let mut renderer = Renderer::new(20, 20);
    renderer.draw_line(Position::new(1, 1), Position::new(3, 9), 0xDDDDDD);
    assert_eq!(at(&renderer, 20, 1, 1), 0xDDDDDD);
    assert_eq!(at(&renderer, 20, 3, 9), 0xDDDDDD);
    assert_eq!(count_of_color(&renderer, 0xDDDDDD), 9);
    let mut y = 1;
    while y <= 9 {
        let mut in_row = 0;
        let mut x = 0;
        while x < 20 {
            if at(&renderer, 20, x, y) == 0xDDDDDD {
                in_row += 1;
            }
            x += 1;
        }
        assert_eq!(in_row, 1);
        y += 1;
    }
}

#[test]
fn line_leaving_the_canvas_is_cut_off() {
    let mut renderer = Renderer::new(10, 10);
    renderer.draw_line(Position::new(-3, 4), Position::new(12, 4), 0xEEEEEE);
    assert_eq!(count_of_color(&renderer, 0xEEEEEE), 10);
    let mut x = 0;
    while x < 10 {
        assert_eq!(at(&renderer, 10, x, 4), 0xEEEEEE);
        x += 1;
    }
}

#[test]
fn world_is_background_entities_and_tallies() {
    let simulation = Simulation::new(800, 600, 21);
    let mut renderer = Renderer::new(800, 600);
    renderer.draw_world(simulation.get_entities());
    let mut i = 0;
    while i < 20 {
        if i < 10 {
            assert_eq!(at(&renderer, 800, 10 + 3 * i, 10), 0x00FF00);
        }
        assert_eq!(at(&renderer, 800, 10 + 3 * i, 15), 0xFFFF00);
        if i < 2 {
            assert_eq!(at(&renderer, 800, 10 + 3 * i, 20), 0xFF0000);
        }
        i += 1;
    }
    assert_eq!(at(&renderer, 800, 0, 0), GRID);
    for e in simulation.get_entities() {
        let x = e.position.x as usize;
        let y = e.position.y as usize;
        assert_ne!(at(&renderer, 800, x, y), BACKGROUND);
        assert_ne!(at(&renderer, 800, x, y), GRID);
    }
}

#[test]
fn empty_world_is_only_background() {
    let mut renderer = Renderer::new(120, 110);
    let nobody: Vec<Entity> = Vec::new();
    renderer.draw_world(&nobody);
    let mut twin = Renderer::new(120, 110);
    twin.draw_background();
    assert_eq!(renderer.get_buffer(), twin.get_buffer());
}

#[test]
fn later_entities_are_drawn_over_earlier_ones() {
    let mut renderer = Renderer::new(120, 110);
    let world = vec![
        Entity::new_gatherer(1, Position::new(60, 60)),
        Entity::new_predator(2, Position::new(60, 60)),
    ];
    renderer.draw_world(&world);
    assert_eq!(at(&renderer, 120, 60, 60), 0xFF0000);
    assert_eq!(at(&renderer, 120, 61, 60), 0xFF0000);
    assert_eq!(at(&renderer, 120, 56, 54), 0x00FF00);
    assert_eq!(at(&renderer, 120, 10, 10), 0x00FF00);
    assert_eq!(at(&renderer, 120, 10, 20), 0xFF0000);
    assert_eq!(at(&renderer, 120, 10, 15), BACKGROUND);
    assert_eq!(at(&renderer, 120, 13, 10), BACKGROUND);
}
