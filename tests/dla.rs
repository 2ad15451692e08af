use sim_core::color::{Color, ColorScheme};
use sim_core::dla::DLA;

fn stuck_cells(d: &DLA) -> Vec<(usize, usize)> {
    let mut v = Vec::new();
    for y in 0..d.grid_height() {
        for x in 0..d.grid_width() {
            if d.cell(x, y).is_some() {
                v.push((x, y));
            }
        }
    }
    v
}

#[test]
fn new_cluster_is_the_centre_seed() {
    let d = DLA::new();
    assert_eq!(stuck_cells(&d), vec![(128, 128)]);
    assert_eq!(d.particles_stuck(), 1);
    assert!(d.wants_walker());
}

#[test]
fn line_seed_is_forty_cells_on_the_middle_row() {
    let mut d = DLA::with_size(100, 50, 500);
    d.reset_with_seed("line", &vec![]);
    let cells = stuck_cells(&d);
    assert_eq!(cells.len(), 40);
    assert_eq!(cells[0], (30, 25));
    assert_eq!(cells[39], (69, 25));
    assert_eq!(d.particles_stuck(), 40);
}

#[test]
fn line_seed_is_cut_on_a_narrow_board() {
    let mut d = DLA::with_size(10, 3, 50);
    d.reset_with_seed("line", &vec![]);
    assert_eq!(stuck_cells(&d).len(), 10);
}

#[test]
fn cross_seed_has_four_arms() {
    let mut d = DLA::with_size(40, 40, 500);
    d.reset_with_seed("cross", &vec![]);
    let cells = stuck_cells(&d);
    assert_eq!(cells.len(), 37);
    assert!(d.cell(20, 11).is_some());
    assert!(d.cell(20, 10).is_none());
    assert!(d.cell(29, 20).is_some());
}

#[test]
fn circle_seed_uses_given_points() {
    let mut d = DLA::with_size(20, 20, 500);
    d.reset_with_seed("circle", &vec![(1, 1), (30, 2), (5, 5)]);
    assert_eq!(stuck_cells(&d), vec![(1, 1), (5, 5)]);
    assert_eq!(d.particles_stuck(), 360);
    d.reset_with_seed("other", &vec![]);
    assert_eq!(stuck_cells(&d), vec![(10, 10)]);
}

#[test]
fn sticking_stamps_order() {
    let mut d = DLA::with_size(9, 9, 3);
    assert_eq!(d.stuck_neighbors(4, 3), 1);
    assert_eq!(d.stuck_neighbors(2, 2), 0);
    d.stick(4, 3);
    assert_eq!(d.cell(4, 3), Some(1));
    assert_eq!(d.stuck_neighbors(4, 2), 1);
    assert_eq!(d.stuck_neighbors(5, 4), 2);
    d.stick(5, 2);
    assert_eq!(d.particles_stuck(), 3);
    assert!(!d.wants_walker());
}

#[test]
fn dla_compute_colours_by_age() {
    let mut d = DLA::with_size(3, 3, 10);
    let p = d.compute(3, 3, &|age: usize| Color::from_rgb(age as u8 + 7, 0, 0));
    assert_eq!(p[4], Color::from_rgb(7, 0, 0));
    assert_eq!(p[0], Color::black());
    d.set_display(10, false, ColorScheme::Fire);
    assert_eq!(d.compute(3, 3, &|_a: usize| Color::black())[4], Color::white());
    assert!(!d.set_size(0, 3));
    assert!(d.set_size(5, 5));
    assert_eq!(stuck_cells(&d), vec![(2, 2)]);
}
