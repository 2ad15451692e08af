use sim_core::color::Color;
use sim_core::raster::{draw_line, render};

fn lit(p: &[Color], width: usize) -> Vec<(usize, usize)> {
    let mut v = Vec::new();
    for (i, c) in p.iter().enumerate() {
        if *c == Color::white() {
            v.push((i % width, i / width));
        }
    }
    v
}

#[test]
fn shallow_line_steps_along_x() {
    let mut p = vec![Color::black(); 6 * 3];
    draw_line(&mut p, 6, 3, 0, 0, 4, 2, Color::white());
    assert_eq!(lit(&p, 6), vec![(0, 0), (1, 1), (2, 1), (3, 2), (4, 2)]);
}

#[test]
fn line_drawn_backwards_reaches_both_ends() {
    let mut p = vec![Color::black(); 5 * 5];
    draw_line(&mut p, 5, 5, 4, 4, 0, 1, Color::white());
    let cells = lit(&p, 5);
    assert!(cells.contains(&(4, 4)));
    assert!(cells.contains(&(0, 1)));
    assert_eq!(cells.len(), 5);
}

#[test]
fn single_point_line() {
    let mut p = vec![Color::black(); 4];
    draw_line(&mut p, 2, 2, 1, 1, 1, 1, Color::white());
    assert_eq!(lit(&p, 2), vec![(1, 1)]);
}

#[test]
fn line_clipped_to_canvas() {
    let mut p = vec![Color::black(); 4 * 4];
    draw_line(&mut p, 4, 4, -3, 1, 10, 1, Color::white());
    assert_eq!(lit(&p, 4), vec![(0, 1), (1, 1), (2, 1), (3, 1)]);
    let mut q = vec![Color::black(); 4 * 4];
    draw_line(&mut q, 4, 4, -100, -100, -50, -7, Color::white());
    assert!(lit(&q, 4).is_empty());
}

#[test]
fn render_maps_blocks_and_margin() {
    let p = render(5, 2, 2, 2, &|x: usize, y: usize| Color::from_rgb(x as u8, y as u8, 1));
    assert_eq!(p.len(), 10);
    assert_eq!(p[0], Color::from_rgb(0, 0, 1));
    assert_eq!(p[1], Color::from_rgb(0, 0, 1));
    assert_eq!(p[2], Color::from_rgb(1, 0, 1));
    assert_eq!(p[4], Color::black());
    assert_eq!(p[8], Color::from_rgb(1, 1, 1));
    assert!(render(0, 7, 3, 3, &|_x: usize, _y: usize| Color::white()).is_empty());
}
