use sim_core::color::Color;
use sim_core::game_of_life::{GameOfLife, LifeRule, Pattern};

fn board_with(width: usize, height: usize, live: &[(usize, usize)]) -> GameOfLife {
    let mut g = GameOfLife::with_size(width, height);
    for &(x, y) in live {
        g.set_cell(x, y, true);
    }
    g
}

#[test]
fn conway_birth_with_three_neighbours() {
    let mut g = board_with(5, 5, &[(1, 1), (2, 1), (3, 1)]);
    assert_eq!(g.count_neighbors(2, 2), 3);
    assert!(!g.is_alive(2, 2));
    g.step();
    assert!(g.is_alive(2, 2));
    assert_eq!(g.age(2, 2), 1);
}

#[test]
fn conway_survival_with_two_or_three() {
    let mut g = board_with(6, 6, &[(2, 2), (1, 2), (3, 2)]);
    assert_eq!(g.count_neighbors(2, 2), 2);
    g.step();
    assert!(g.is_alive(2, 2));
    assert_eq!(g.age(2, 2), 1);
    let mut h = board_with(6, 6, &[(2, 2), (1, 2), (3, 2), (2, 1)]);
    assert_eq!(h.count_neighbors(2, 2), 3);
    h.step();
    assert!(h.is_alive(2, 2));
}

#[test]
fn conway_other_counts_kill() {
    let mut lonely = board_with(6, 6, &[(2, 2), (1, 2)]);
    lonely.step();
    assert!(!lonely.is_alive(2, 2));
    let mut crowded = board_with(6, 6, &[(2, 2), (1, 1), (2, 1), (3, 1), (1, 2)]);
    assert_eq!(crowded.count_neighbors(2, 2), 4);
    crowded.step();
    assert!(!crowded.is_alive(2, 2));
    let mut dead_two = board_with(6, 6, &[(1, 1), (3, 3)]);
    dead_two.step();
    assert!(!dead_two.is_alive(2, 2));
}

#[test]
fn should_live_table() {
    for n in 0u8..=8 {
        assert_eq!(LifeRule::Conway.should_live(false, n), n == 3);
        assert_eq!(LifeRule::Conway.should_live(true, n), n == 2 || n == 3);
        assert_eq!(LifeRule::HighLife.should_live(false, n), n == 3 || n == 6);
        assert_eq!(LifeRule::Seeds.should_live(true, n), false);
        assert_eq!(LifeRule::Seeds.should_live(false, n), n == 2);
        assert_eq!(LifeRule::LifeWithoutDeath.should_live(true, n), true);
        assert_eq!(LifeRule::Maze.should_live(true, n), (1..=5).contains(&n));
        assert_eq!(LifeRule::DayAndNight.should_live(true, n), n == 3 || n == 4 || n >= 6);
    }
}

#[test]
fn toroidal_wrap_counts_opposite_edge() {
    let g = board_with(8, 6, &[(0, 3)]);
    assert_eq!(g.count_neighbors(7, 3), 1);
    assert_eq!(g.count_neighbors(7, 2), 1);
    assert_eq!(g.count_neighbors(6, 3), 0);
    let corner = board_with(8, 6, &[(0, 0)]);
    assert_eq!(corner.count_neighbors(7, 5), 1);
}

#[test]
fn blinker_oscillates_across_the_edge() {
    let mut g = board_with(5, 5, &[(4, 2), (0, 2), (1, 2)]);
    g.step();
    assert!(g.is_alive(0, 1) && g.is_alive(0, 2) && g.is_alive(0, 3));
    assert!(!g.is_alive(4, 2) && !g.is_alive(1, 2));
    g.step();
    assert!(g.is_alive(4, 2) && g.is_alive(0, 2) && g.is_alive(1, 2));
    assert_eq!(g.age(0, 2), 2);
    assert_eq!(g.generation(), 2);
}

#[test]
fn glider_pattern_by_name() {
    let mut g = GameOfLife::with_size(20, 20);
    g.add_pattern("Glider");
    let live: Vec<(usize, usize)> = (0..20)
        .flat_map(|y| (0..20).map(move |x| (x, y)))
        .filter(|&(x, y)| g.is_alive(x, y))
        .collect();
    assert_eq!(live, vec![(11, 10), (12, 11), (10, 12), (11, 12), (12, 12)]);
    assert_eq!(g.generation(), 0);
}

#[test]
fn unknown_pattern_clears() {
    let mut g = GameOfLife::new();
    g.add_pattern("Nothing");
    for y in 0..120 {
        for x in 0..120 {
            assert!(!g.is_alive(x, y));
        }
    }
    assert_eq!(Pattern::from_name("Acorn"), Some(Pattern::Acorn));
    assert_eq!(Pattern::from_name("acorn"), None);
}

#[test]
fn default_board_holds_glider_gun() {
    let g = GameOfLife::new();
    assert_eq!((g.grid_width(), g.grid_height()), (120, 120));
    let count = (0..120)
        .flat_map(|y| (0..120).map(move |x| (x, y)))
        .filter(|&(x, y)| g.is_alive(x, y))
        .count();
    assert_eq!(count, 36);
    assert!(g.is_alive(11, 15));
    assert!(g.is_alive(46, 14));
}

#[test]
fn pattern_cut_at_board_edge() {
    let mut g = GameOfLife::with_size(3, 3);
    g.stamp_pattern(Pattern::Glider, 1, 1);
    assert!(g.is_alive(2, 1));
    let count = (0..3).flat_map(|y| (0..3).map(move |x| (x, y))).filter(|&(x, y)| g.is_alive(x, y)).count();
    assert_eq!(count, 1);
}

#[test]
fn randomize_fills_some_cells() {
    let mut g = GameOfLife::with_size(60, 60);
    g.randomize();
    let count = (0..60).flat_map(|y| (0..60).map(move |x| (x, y))).filter(|&(x, y)| g.is_alive(x, y)).count();
    assert!(count > 0 && count < 3600);
}

#[test]
fn compute_draws_cells_and_ages() {
    let mut g = board_with(2, 2, &[(1, 0)]);
    let green = Color::from_rgb(0, 255, 100);
    let pixels = g.compute(4, 2, &|_age: u32| Color::from_rgb(1, 2, 3));
    assert_eq!(pixels.len(), 8);
    assert_eq!(pixels[0], Color::black());
    assert_eq!(pixels[2], green);
    assert_eq!(pixels[3], green);
    assert_eq!(pixels[6], Color::black());
    g.set_show_age(true);
    let aged = g.compute(2, 2, &|age: u32| Color::from_rgb(age as u8, 0, 0));
    assert_eq!(aged[1], Color::from_rgb(0, 0, 0));
    assert_eq!(g.compute(0, 0, &|_a: u32| Color::black()).len(), 0);
}

#[test]
fn step_is_deterministic() {
    let mut a = GameOfLife::new();
    let mut b = GameOfLife::new();
    for _ in 0..5 {
        a.step();
        b.step();
    }
    for y in 0..120 {
        for x in 0..120 {
            assert_eq!(a.is_alive(x, y), b.is_alive(x, y));
        }
    }
}

#[test]
fn rule_names() {
    assert_eq!(LifeRule::all().len(), 6);
    assert_eq!(LifeRule::Conway.name(), "Conway (B3/S23)");
    assert_eq!(LifeRule::DayAndNight.name(), "Day & Night (B3678/S34678)");
}

#[test]
fn randomize_with_makes_zero_draws_alive() {
    let mut g = GameOfLife::with_size(3, 2);
    g.set_cell(1, 0, true);
    g.randomize_with(&vec![0, 1, 2, 2, 0, 0]);
    assert!(g.is_alive(0, 0));
    assert!(!g.is_alive(1, 0));
    assert!(!g.is_alive(2, 0));
    assert!(!g.is_alive(0, 1));
    assert!(g.is_alive(1, 1));
    assert!(g.is_alive(2, 1));
    assert_eq!(g.generation(), 0);
}
