use sim_core::color::Color;
use sim_core::falling_sand::{FallingSand, Material};

#[test]
fn sand_falls_into_empty_cell() {
    let mut s = FallingSand::with_size(3, 3);
    s.set_cell(1, 0, Material::Sand, 0);
    s.update_sand_with(1, 0, true);
    assert_eq!(s.cell(1, 0).0, Material::Empty);
    assert_eq!(s.cell(1, 1).0, Material::Sand);
}

#[test]
fn sand_sinks_through_water() {
    let mut s = FallingSand::with_size(3, 3);
    s.set_cell(1, 1, Material::Sand, 0);
    s.set_cell(1, 2, Material::Water, 0);
    s.update_sand_with(1, 1, false);
    assert_eq!(s.cell(1, 2).0, Material::Sand);
    assert_eq!(s.cell(1, 1).0, Material::Water);
}

#[test]
fn sand_slides_to_the_chosen_side() {
    let mut s = FallingSand::with_size(3, 3);
    s.set_cell(1, 1, Material::Sand, 0);
    s.set_cell(1, 2, Material::Stone, 0);
    s.update_sand_with(1, 1, true);
    assert_eq!(s.cell(0, 2).0, Material::Sand);
    let mut r = FallingSand::with_size(3, 3);
    r.set_cell(0, 1, Material::Sand, 0);
    r.set_cell(0, 2, Material::Stone, 0);
    r.update_sand_with(0, 1, true);
    assert_eq!(r.cell(0, 1).0, Material::Sand);
    r.update_sand_with(0, 1, false);
    assert_eq!(r.cell(1, 2).0, Material::Sand);
}

#[test]
fn sand_rests_on_the_floor() {
    let mut s = FallingSand::with_size(2, 2);
    s.set_cell(0, 1, Material::Sand, 0);
    s.update_sand_with(0, 1, false);
    assert_eq!(s.cell(0, 1).0, Material::Sand);
}

#[test]
fn water_spreads_sideways() {
    let mut s = FallingSand::with_size(3, 2);
    s.set_cell(1, 0, Material::Water, 0);
    s.set_cell(1, 1, Material::Stone, 0);
    s.update_water_with(1, 0, false);
    assert_eq!(s.cell(2, 0).0, Material::Water);
    assert_eq!(s.cell(1, 0).0, Material::Empty);
}

#[test]
fn fire_burns_out_and_lights_wood() {
    let mut s = FallingSand::with_size(3, 3);
    s.set_cell(1, 1, Material::Fire, 1);
    s.update_fire_with(1, 1, true, (true, true, true, true));
    assert_eq!(s.cell(1, 1), (Material::Empty, 0));
    let mut t = FallingSand::with_size(3, 3);
    t.set_cell(1, 1, Material::Fire, 100);
    t.set_cell(2, 1, Material::Wood, 0);
    t.set_cell(0, 1, Material::Wood, 0);
    t.update_fire_with(1, 1, false, (false, true, false, false));
    assert_eq!(t.cell(1, 1), (Material::Fire, 99));
    assert_eq!(t.cell(2, 1), (Material::Fire, 100));
    assert_eq!(t.cell(0, 1).0, Material::Wood);
}

#[test]
fn fire_rises_into_empty_cell() {
    let mut s = FallingSand::with_size(3, 3);
    s.set_cell(1, 1, Material::Fire, 50);
    s.update_fire_with(1, 1, true, (false, false, false, false));
    assert_eq!(s.cell(1, 0), (Material::Fire, 49));
    assert_eq!(s.cell(1, 1).0, Material::Empty);
}

#[test]
fn stone_never_moves() {
    let mut s = FallingSand::with_size(4, 4);
    s.set_cell(2, 0, Material::Stone, 0);
    for _ in 0..10 {
        s.update_particle(2, 0);
    }
    assert_eq!(s.cell(2, 0).0, Material::Stone);
}

#[test]
fn ticks_keep_materials_on_the_box() {
    let mut s = FallingSand::new();
    s.set_brush(2, 2);
    for _ in 0..60 {
        s.tick();
    }
    let mut any = false;
    for y in 0..s.height() {
        for x in 0..s.width() {
            let (m, _) = s.cell(x, y);
            assert!(m == Material::Empty || m == Material::Stone);
            any |= m == Material::Stone;
        }
    }
    assert!(any);
    s.clear();
    assert_eq!(s.cell(5, 5), (Material::Empty, 0));
}

#[test]
fn materials_by_menu_index() {
    assert_eq!(FallingSand::index_to_material(3), Material::Fire);
    assert_eq!(FallingSand::index_to_material(9), Material::Sand);
    assert_eq!(FallingSand::material_name(4), "Wood");
    assert_eq!(FallingSand::material_name(7), "Sand");
}

#[test]
fn colours_and_stretched_rendering() {
    assert_eq!(FallingSand::material_color(Material::Fire, 100), Color::from_rgb(255, 0, 0));
    assert_eq!(FallingSand::material_color(Material::Fire, 40), Color::from_rgb(255, 120, 0));
    let mut s = FallingSand::with_size(2, 1);
    s.set_cell(1, 0, Material::Water, 0);
    let p = s.compute(4, 2);
    assert_eq!(p.len(), 8);
    assert_eq!(p[0], Color::black());
    assert_eq!(p[2], Color::from_rgb(50, 100, 200));
    assert_eq!(p[7], Color::from_rgb(50, 100, 200));
}

fn still() -> (bool, bool, (bool, bool, bool, bool)) {
    (true, false, (false, false, false, false))
}

#[test]
fn tick_with_moves_each_grain_once() {
    let mut s = FallingSand::with_size(3, 3);
    s.set_cell(1, 0, Material::Sand, 0);
    s.tick_with(None, &vec![still(); 9]);
    assert_eq!(s.cell(1, 0).0, Material::Empty);
    assert_eq!(s.cell(1, 1).0, Material::Sand);
    assert_eq!(s.cell(1, 2).0, Material::Empty);
}

#[test]
fn tick_with_paints_then_sweeps_from_the_bottom() {
    let mut s = FallingSand::with_size(5, 5);
    s.tick_with(Some(1), &vec![still(); 25]);
    for x in 0..3 {
        assert_eq!(s.cell(x, 0).0, Material::Empty);
        for y in 1..4 {
            assert_eq!(s.cell(x, y).0, Material::Sand);
        }
        assert_eq!(s.cell(x, 4).0, Material::Empty);
    }
    for y in 0..5 {
        assert_eq!(s.cell(3, y).0, Material::Empty);
    }
}

#[test]
fn paint_top_paints_hot_fire_clamped_at_the_left_edge() {
    let mut s = FallingSand::with_size(4, 4);
    s.set_brush(3, 3);
    s.paint_top(0);
    for y in 0..3 {
        assert_eq!(s.cell(0, y), (Material::Fire, 100));
        assert_eq!(s.cell(1, y), (Material::Fire, 100));
        assert_eq!(s.cell(2, y).0, Material::Empty);
    }
    assert_eq!(s.cell(0, 3).0, Material::Empty);
}

#[test]
fn tick_keeps_stone_below_the_brush() {
    let mut s = FallingSand::with_size(4, 6);
    s.set_cell(2, 5, Material::Stone, 0);
    for _ in 0..10 {
        s.tick();
    }
    assert_eq!(s.cell(2, 5).0, Material::Stone);
}
