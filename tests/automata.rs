use sim_core::cellular_automaton::CellularAutomaton;
use sim_core::color::{Color, ColorScheme};
use sim_core::cyclic_ca::{CyclicCA, Neighborhood};
use sim_core::langtons_ant::{Direction, LangtonsAnt};
use sim_core::modes::{DrawMode, FlockMode, SimulationType, SpawnMode};

#[test]
fn ant_first_steps_on_clear_board() {
    let mut a = LangtonsAnt::with_size(5, 5);
    assert_eq!(a.ant(), (2, 2));
    a.step();
    assert!(a.is_set(2, 2));
    assert_eq!(a.direction(), Direction::Left);
    assert_eq!(a.ant(), (1, 2));
    a.step();
    assert_eq!(a.direction(), Direction::Down);
    assert_eq!(a.ant(), (1, 3));
    assert_eq!(a.step_count(), 2);
}

#[test]
fn ant_turns_right_on_set_cell() {
    let mut a = LangtonsAnt::with_size(5, 5);
    for _ in 0..4 {
        a.step();
    }
    assert_eq!(a.ant(), (2, 2));
    assert_eq!(a.direction(), Direction::Up);
    a.step();
    assert!(!a.is_set(2, 2));
    assert_eq!(a.direction(), Direction::Right);
    assert_eq!(a.ant(), (3, 2));
}

#[test]
fn ant_wraps_round_the_edge() {
    let mut a = LangtonsAnt::with_size(1, 3);
    a.step();
    assert_eq!(a.ant(), (0, 1));
    assert_eq!(a.direction(), Direction::Left);
}

#[test]
fn ant_bounces_off_walls() {
    let mut a = LangtonsAnt::with_size(1, 3);
    a.set_wrap_edges(false);
    a.step();
    assert_eq!(a.ant(), (0, 1));
    assert_eq!(a.direction(), Direction::Right);
}

#[test]
fn ant_reset_and_resize() {
    let mut a = LangtonsAnt::new();
    for _ in 0..100 {
        a.step();
    }
    a.reset();
    assert_eq!(a.ant(), (100, 75));
    assert_eq!(a.step_count(), 0);
    assert!(!a.set_size(0, 10));
    assert!(a.set_size(10, 4));
    assert_eq!(a.ant(), (5, 2));
    assert!(!a.is_set(9, 3));
}

#[test]
fn ant_compute_marks_ant_red() {
    let mut a = LangtonsAnt::with_size(3, 3);
    a.step();
    let p = a.compute(3, 3, &|_x: usize, _y: usize| Color::from_rgb(1, 1, 1));
    assert_eq!(p[4], Color::from_rgb(255, 255, 255));
    assert_eq!(p[3], Color::from_rgb(255, 0, 0));
    assert_eq!(p[0], Color::black());
    a.set_display(true, true, ColorScheme::Ice);
    let q = a.compute(3, 3, &|x: usize, y: usize| Color::from_rgb(x as u8, y as u8, 7));
    assert_eq!(q[4], Color::from_rgb(1, 1, 7));
}

#[test]
fn direction_turns_and_offsets() {
    assert_eq!(Direction::Up.turn_right(), Direction::Right);
    assert_eq!(Direction::Up.turn_left(), Direction::Left);
    assert_eq!(Direction::Left.turn_left(), Direction::Down);
    assert_eq!(Direction::Down.to_offset(), (0, 1));
    assert_eq!(Direction::Left.to_offset(), (-1, 0));
}

#[test]
fn cyclic_cell_advances_at_threshold() {
    let mut c = CyclicCA::with_size(5, 5, 3, 2);
    let none: Vec<(usize, usize)> = vec![];
    c.reset_with_seed("corners", &none);
    // quadrants of a 5x5 board: x < 2 and y < 2 hold 0, x >= 2 and y < 2 hold 0 (3 / 4),
    // x < 2 and y >= 2 hold 1, the rest hold 2
    assert_eq!(c.state(0, 0), 0);
    assert_eq!(c.state(3, 0), 0);
    assert_eq!(c.state(0, 3), 1);
    assert_eq!(c.state(3, 3), 2);
    c.step();
    assert_eq!(c.state(1, 1), 1);
    assert_eq!(c.state(0, 0), 1);
    assert_eq!(c.state(2, 2), 0);
}

#[test]
fn cyclic_threshold_too_high_freezes() {
    let mut c = CyclicCA::with_size(4, 4, 4, 9);
    let none: Vec<(usize, usize)> = vec![];
    c.reset_with_seed("stripes", &none);
    assert_eq!(c.state(0, 0), 0);
    assert_eq!(c.state(1, 2), 1);
    assert_eq!(c.state(3, 3), 3);
    c.step();
    assert_eq!(c.state(1, 2), 1);
    assert_eq!(c.state(3, 3), 3);
}

#[test]
fn cyclic_spiral_seed_places_states() {
    let mut c = CyclicCA::with_size(6, 6, 3, 1);
    c.reset_with_seed("spiral", &vec![(1, 1), (2, 2), (9, 9), (3, 3)]);
    assert_eq!(c.state(1, 1), 0);
    assert_eq!(c.state(2, 2), 1);
    assert_eq!(c.state(3, 3), 0);
    assert_eq!(c.state(0, 0), 0);
}

#[test]
fn cyclic_random_states_in_range() {
    let c = CyclicCA::new();
    let mut seen_nonzero = false;
    for y in 0..150 {
        for x in 0..200 {
            let s = c.state(x, y);
            assert!(s < 14);
            seen_nonzero |= s != 0;
        }
    }
    assert!(seen_nonzero);
}

#[test]
fn cyclic_offsets_and_settings() {
    assert_eq!(Neighborhood::VonNeumann.get_offsets(), vec![(0, -1), (1, 0), (0, 1), (-1, 0)]);
    assert_eq!(Neighborhood::Extended.get_offsets().len(), 12);
    assert_eq!(Neighborhood::Moore.name(), "Moore (8)");
    assert_eq!(Neighborhood::all().len(), 3);
    let mut c = CyclicCA::with_size(3, 3, 5, 1);
    assert!(!c.set_num_states(0));
    assert!(c.set_num_states(24));
    assert_eq!(c.num_states(), 24);
    assert!(c.set_size(7, 2));
    assert_eq!((c.grid_width(), c.grid_height()), (7, 2));
    let p = c.compute(7, 2, &|s: u8| Color::from_rgb(s, 0, 0));
    assert_eq!(p.len(), 14);
}

#[test]
fn rule_30_second_row() {
    let mut ca = CellularAutomaton::with_size(30, 7, 3);
    ca.step();
    assert_eq!(ca.current_row(), 1);
    let row: Vec<bool> = (0..7).map(|x| ca.is_alive(x, 1)).collect();
    assert_eq!(row, vec![false, false, true, true, true, false, false]);
    ca.step();
    let row2: Vec<bool> = (0..7).map(|x| ca.is_alive(x, 2)).collect();
    assert_eq!(row2, vec![false, true, true, false, false, true, false]);
    ca.step();
    assert_eq!(ca.current_row(), 2);
}

#[test]
fn rule_90_wraps_at_row_ends() {
    let mut ca = CellularAutomaton::with_size(90, 4, 2);
    ca.randomize_start();
    for x in 0..4 {
        assert!(!ca.is_alive(x, 1));
    }
    ca.reset();
    assert!(ca.is_alive(2, 0));
    ca.step();
    let row: Vec<bool> = (0..4).map(|x| ca.is_alive(x, 1)).collect();
    assert_eq!(row, vec![false, true, false, true]);
}

#[test]
fn apply_rule_reads_rule_bits() {
    let ca = CellularAutomaton::new(110);
    assert!(!ca.apply_rule(true, true, true));
    assert!(ca.apply_rule(true, true, false));
    assert!(!ca.apply_rule(false, false, false));
    assert!(ca.apply_rule(false, false, true));
}

#[test]
fn elementary_compute_colours() {
    let ca = CellularAutomaton::with_size(30, 3, 2);
    let p = ca.compute(3, 2, );
    assert_eq!(p[1], Color::from_rgb(255, 150, 0));
    assert_eq!(p[0], Color::black());
    let other = CellularAutomaton::with_size(184, 3, 2);
    assert_eq!(other.compute(3, 2)[1], Color::white());
}

#[test]
fn menus_list_every_entry() {
    assert_eq!(ColorScheme::all().len(), 26);
    assert_eq!(ColorScheme::CoolWarm.name(), "Cool-Warm");
    assert_eq!(FlockMode::all().len(), 4);
    assert_eq!(FlockMode::Swirl.name(), "Swirl");
    assert_eq!(DrawMode::FilledTriangles.name(), "Filled Triangles");
    assert_eq!(SpawnMode::all(), vec![SpawnMode::Random, SpawnMode::Center, SpawnMode::Edges, SpawnMode::Grid]);
    assert_ne!(SimulationType::TwoD, SimulationType::ThreeD);
    assert_eq!(Color::from_rgb(1, 2, 3), Color { r: 1, g: 2, b: 3 });
}

#[test]
fn cyclic_fill_states_sets_every_cell() {
    let mut c = CyclicCA::with_size(2, 2, 3, 1);
    c.fill_states(&vec![0, 1, 2, 1]);
    assert_eq!(c.state(0, 0), 0);
    assert_eq!(c.state(1, 0), 1);
    assert_eq!(c.state(0, 1), 2);
    assert_eq!(c.state(1, 1), 1);
    c.reset();
    for y in 0..2 {
        for x in 0..2 {
            assert!(c.state(x, y) < 3);
        }
    }
}
