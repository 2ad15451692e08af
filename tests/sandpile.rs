use sim_core::color::{Color, ColorScheme};
use sim_core::sandpile::{DropMode, Sandpile};

fn max_grains(s: &Sandpile) -> u8 {
    let mut m = 0;
    for y in 0..s.grid_height() {
        for x in 0..s.grid_width() {
            m = m.max(s.grains(x, y));
        }
    }
    m
}

fn total(s: &Sandpile) -> usize {
    let mut t = 0usize;
    for y in 0..s.grid_height() {
        for x in 0..s.grid_width() {
            t += s.grains(x, y) as usize;
        }
    }
    t
}

#[test]
fn single_topple_spreads_to_neighbours() {
    let mut s = Sandpile::with_size(5, 5, 4);
    for _ in 0..3 {
        s.drop_sand_at(2, 2);
    }
    assert_eq!(s.grains(2, 2), 3);
    assert_eq!(s.total_avalanches(), 0);
    s.drop_sand_at(2, 2);
    assert_eq!(s.grains(2, 2), 0);
    assert_eq!(s.grains(1, 2), 1);
    assert_eq!(s.grains(3, 2), 1);
    assert_eq!(s.grains(2, 1), 1);
    assert_eq!(s.grains(2, 3), 1);
    assert!(s.toppled_last(2, 2));
    assert!(!s.toppled_last(1, 2));
    assert_eq!(s.total_avalanches(), 1);
    assert_eq!(s.total_drops(), 4);
}

#[test]
fn pile_is_quiescent_after_every_drop() {
    let mut s = Sandpile::new();
    for _ in 0..2000 {
        s.drop_sand();
        assert!(max_grains(&s) < s.critical_mass());
    }
    assert_eq!(s.total_drops(), 2000);
    assert!(s.total_avalanches() > 0);
}

#[test]
fn grains_are_conserved_away_from_the_border() {
    let mut s = Sandpile::with_size(41, 41, 4);
    for _ in 0..300 {
        s.drop_sand_at(20, 20);
    }
    assert_eq!(total(&s), 300);
}

#[test]
fn centre_topple_feeds_the_edge_cells() {
    let mut s = Sandpile::with_size(3, 3, 4);
    for _ in 0..4 {
        s.drop_sand_at(1, 1);
    }
    assert_eq!(s.grains(1, 1), 0);
    assert_eq!(s.grains(0, 1), 1);
    assert_eq!(s.grains(2, 1), 1);
    assert_eq!(s.grains(1, 0), 1);
    assert_eq!(s.grains(1, 2), 1);
    assert_eq!(s.grains(0, 0), 0);
}

#[test]
fn border_cells_topple_and_shed_grains_over_the_edge() {
    let mut s = Sandpile::with_size(3, 3, 4);
    for (x, y) in [(0, 1), (2, 1), (1, 0), (1, 2), (1, 1)] {
        for _ in 0..3 {
            s.drop_sand_at(x, y);
        }
    }
    assert_eq!(total(&s), 15);
    assert_eq!(s.total_avalanches(), 0);
    s.drop_sand_at(1, 1);
    assert!(max_grains(&s) < 4);
    assert!(total(&s) < 16);
    assert!(s.toppled_last(1, 0));
    assert_eq!(s.total_avalanches(), 1);
}

#[test]
fn edge_topple_loses_one_grain_off_the_grid() {
    let mut s = Sandpile::with_size(3, 3, 4);
    for _ in 0..4 {
        s.drop_sand_at(1, 0);
    }
    assert_eq!(s.grains(1, 0), 0);
    assert_eq!(s.grains(0, 0), 1);
    assert_eq!(s.grains(2, 0), 1);
    assert_eq!(s.grains(1, 1), 1);
    assert_eq!(total(&s), 3);
}

#[test]
fn random_drops_land_off_the_border() {
    let mut s = Sandpile::with_size(5, 5, 8);
    s.set_drop_mode(DropMode::Random);
    for _ in 0..7 {
        assert!(s.drop_sand());
    }
    assert_eq!(total(&s), 7);
    for x in 0..5 {
        assert_eq!(s.grains(x, 0), 0);
        assert_eq!(s.grains(x, 4), 0);
        assert_eq!(s.grains(0, x), 0);
        assert_eq!(s.grains(4, x), 0);
    }
}

#[test]
fn pattern_mode_leaves_the_pile_alone() {
    let mut s = Sandpile::with_size(9, 9, 4);
    s.set_drop_mode(DropMode::Pattern);
    assert!(!s.drop_sand());
    assert_eq!(s.total_drops(), 0);
    assert_eq!(total(&s), 0);
}

#[test]
fn critical_mass_below_four_is_refused() {
    let mut s = Sandpile::new();
    assert!(!s.set_critical_mass(3));
    assert_eq!(s.critical_mass(), 4);
    assert!(s.set_critical_mass(8));
    assert_eq!(s.critical_mass(), 8);
}

#[test]
fn resize_reallocates_and_reset_empties() {
    let mut s = Sandpile::new();
    s.drop_sand_at(10, 10);
    assert!(!s.set_size(2, 40));
    assert_eq!(s.grid_width(), 150);
    assert!(s.set_size(50, 60));
    assert_eq!((s.grid_width(), s.grid_height()), (50, 60));
    assert_eq!(total(&s), 0);
    s.drop_sand_at(49, 59);
    assert_eq!(s.grains(49, 59), 1);
    s.reset();
    assert_eq!(total(&s), 0);
    assert_eq!(s.total_drops(), 0);
}

#[test]
fn compute_highlights_avalanche_sites() {
    let mut s = Sandpile::with_size(3, 3, 4);
    for _ in 0..4 {
        s.drop_sand_at(1, 1);
    }
    let pixels = s.compute(3, 3, &|v: u8| Color::from_rgb(v, v, v));
    assert_eq!(pixels.len(), 9);
    assert_eq!(pixels[4], Color::from_rgb(255, 255, 0));
    assert_eq!(pixels[3], Color::from_rgb(1, 1, 1));
    assert_eq!(pixels[0], Color::from_rgb(0, 0, 0));
    s.set_show_avalanches(false);
    let plain = s.compute(3, 3, &|v: u8| Color::from_rgb(v, 9, 9));
    assert_eq!(plain[4], Color::from_rgb(0, 9, 9));
    assert_eq!(s.color_scheme(), ColorScheme::Fire);
}

#[test]
fn drop_mode_names() {
    assert_eq!(DropMode::all(), vec![DropMode::Center, DropMode::Random, DropMode::Pattern]);
    assert_eq!(DropMode::Pattern.name(), "Pattern");
}
