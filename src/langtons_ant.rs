use vstd::prelude::*;
use crate::color::{Color, ColorScheme};
use crate::grid::{dims_ok, flat, lemma_flat_in_grid, wrap, wrap_next, wrap_prev};
use crate::raster::{black, pixel_cell, render, shows};

verus! {

/// The heading of the ant; `Up` is towards row zero.
#[derive(Debug, Clone, Copy, PartialEq, Eq, Structural)]
pub enum Direction {
    Up,
    Right,
    Down,
    Left,
}

pub open spec fn right_of(d: Direction) -> Direction {
    match d {
        Direction::Up => Direction::Right,
        Direction::Right => Direction::Down,
        Direction::Down => Direction::Left,
        Direction::Left => Direction::Up,
    }
}

pub open spec fn left_of(d: Direction) -> Direction {
    match d {
        Direction::Up => Direction::Left,
        Direction::Left => Direction::Down,
        Direction::Down => Direction::Right,
        Direction::Right => Direction::Up,
    }
}

/// The move one step ahead makes, as `(dx, dy)`.
pub open spec fn offset(d: Direction) -> (int, int) {
    match d {
        Direction::Up => (0, -1),
        Direction::Right => (1, 0),
        Direction::Down => (0, 1),
        Direction::Left => (-1, 0),
    }
}

impl Direction {
    pub fn turn_right(self) -> (r: Direction)
        ensures
            r == right_of(self),
    {
        match self {
            Direction::Up => Direction::Right,
            Direction::Right => Direction::Down,
            Direction::Down => Direction::Left,
            Direction::Left => Direction::Up,
        }
    }

    pub fn turn_left(self) -> (r: Direction)
        ensures
            r == left_of(self),
    {
        match self {
            Direction::Up => Direction::Left,
            Direction::Left => Direction::Down,
            Direction::Down => Direction::Right,
            Direction::Right => Direction::Up,
        }
    }

    pub fn to_offset(self) -> (r: (i32, i32))
        ensures
            r.0 as int == offset(self).0,
            r.1 as int == offset(self).1,
    {
        match self {
            Direction::Up => (0, -1),
            Direction::Right => (1, 0),
            Direction::Down => (0, 1),
            Direction::Left => (-1, 0),
        }
    }
}

/// Where a coordinate goes when moved by `d` on an axis of `n` cells: round the
/// torus when wrapping, else it stays put at a wall.
pub open spec fn moved(v: int, d: int, n: int, wrap_edges: bool) -> int {
    if wrap_edges {
        wrap(v + d, n)
    } else if 0 <= v + d < n {
        v + d
    } else {
        v
    }
}

/// The heading after the ant turned to `d` and moved: at a wall (without wrapping)
/// the heading reverses along the axis that hit it.
pub open spec fn heading_after(d: Direction, x: int, y: int, w: int, h: int, wrap_edges: bool) -> Direction {
    let nx = x + offset(d).0;
    let ny = y + offset(d).1;
    if wrap_edges {
        d
    } else if !(0 <= nx < w) {
        match d {
            Direction::Left => Direction::Right,
            Direction::Right => Direction::Left,
            _ => d,
        }
    } else if !(0 <= ny < h) {
        match d {
            Direction::Up => Direction::Down,
            Direction::Down => Direction::Up,
            _ => d,
        }
    } else {
        d
    }
}

/// Langton's ant: on each step it flips the cell under it, turns right on a set
/// cell and left on a clear one (as the cell was before the flip), and moves ahead.
pub struct LangtonsAnt {
    grid_width: usize,
    grid_height: usize,
    color_scheme: ColorScheme,
    trail_color: bool,
    show_ant: bool,
    wrap_edges: bool,
    grid: Vec<bool>,
    ant_x: usize,
    ant_y: usize,
    direction: Direction,
    step_count: usize,
}

impl LangtonsAnt {
    pub closed spec fn spec_width(&self) -> int {
        self.grid_width as int
    }

    pub closed spec fn spec_height(&self) -> int {
        self.grid_height as int
    }

    pub closed spec fn spec_grid(&self) -> Seq<bool> {
        self.grid@
    }

    pub closed spec fn spec_ant(&self) -> (int, int) {
        (self.ant_x as int, self.ant_y as int)
    }

    pub closed spec fn spec_direction(&self) -> Direction {
        self.direction
    }

    pub closed spec fn spec_step_count(&self) -> usize {
        self.step_count
    }

    pub closed spec fn spec_wrap_edges(&self) -> bool {
        self.wrap_edges
    }

    pub closed spec fn spec_show_ant(&self) -> bool {
        self.show_ant
    }

    pub closed spec fn spec_trail_color(&self) -> bool {
        self.trail_color
    }

    pub closed spec fn spec_color_scheme(&self) -> ColorScheme {
        self.color_scheme
    }

    /// Display and edge settings are those of `o`.
    pub open spec fn same_settings(&self, o: &Self) -> bool {
        &&& self.spec_width() == o.spec_width()
        &&& self.spec_height() == o.spec_height()
        &&& self.spec_wrap_edges() == o.spec_wrap_edges()
        &&& self.spec_show_ant() == o.spec_show_ant()
        &&& self.spec_trail_color() == o.spec_trail_color()
        &&& self.spec_color_scheme() == o.spec_color_scheme()
    }

    /// The grid covers the board and the ant stands on it.
    pub open spec fn wf(&self) -> bool {
        &&& dims_ok(self.spec_width(), self.spec_height())
        &&& self.spec_grid().len() == self.spec_width() * self.spec_height()
        &&& 0 <= self.spec_ant().0 < self.spec_width()
        &&& 0 <= self.spec_ant().1 < self.spec_height()
    }

    /// A clear `width` by `height` board with the ant at its centre heading up;
    /// edges wrap, the ant is shown, set cells are white.
    pub fn with_size(width: usize, height: usize) -> (r: Self)
        requires
            dims_ok(width as int, height as int),
        ensures
            r.wf(),
            r.spec_width() == width,
            r.spec_height() == height,
            r.spec_grid() == Seq::new((width * height) as nat, |i: int| false),
            r.spec_ant() == ((width / 2) as int, (height / 2) as int),
            r.spec_direction() == Direction::Up,
            r.spec_step_count() == 0,
            r.spec_wrap_edges(),
            r.spec_show_ant(),
            !r.spec_trail_color(),
            r.spec_color_scheme() == ColorScheme::Fire,
    {
        let n = width * height;
        let grid = vec![false; n];
        assert(grid@ =~= Seq::new(n as nat, |i: int| false));
        LangtonsAnt {
            grid_width: width,
            grid_height: height,
            color_scheme: ColorScheme::Fire,
            trail_color: false,
            show_ant: true,
            wrap_edges: true,
            grid,
            ant_x: width / 2,
            ant_y: height / 2,
            direction: Direction::Up,
            step_count: 0,
        }
    }

    /// A 200 by 150 board.
    pub fn new() -> (r: Self)
        ensures
            r.wf(),
            r.spec_width() == 200,
            r.spec_height() == 150,
            r.spec_grid() == Seq::new(30000, |i: int| false),
            r.spec_ant() == (100int, 75int),
            r.spec_direction() == Direction::Up,
            r.spec_step_count() == 0,
            r.spec_wrap_edges(),
    {
        LangtonsAnt::with_size(200, 150)
    }

    /// One move of the ant.
    pub fn step(&mut self)
        requires
            old(self).wf(),
        ensures
            final(self).wf(),
            final(self).same_settings(&*old(self)),
            ({
                let (x, y) = old(self).spec_ant();
                let w = old(self).spec_width();
                let h = old(self).spec_height();
                let i = flat(x, y, w);
                let set = old(self).spec_grid()[i];
                let d = if set { right_of(old(self).spec_direction()) } else { left_of(old(self).spec_direction()) };
                let wrap_edges = old(self).spec_wrap_edges();
                &&& final(self).spec_grid() == old(self).spec_grid().update(i, !set)
                &&& final(self).spec_ant() == (moved(x, offset(d).0, w, wrap_edges), moved(y, offset(d).1, h, wrap_edges))
                &&& final(self).spec_direction() == heading_after(d, x, y, w, h, wrap_edges)
            }),
            final(self).spec_step_count() == if old(self).spec_step_count() == usize::MAX {
                usize::MAX
            } else {
                (old(self).spec_step_count() + 1) as usize
            },
    {
        let w = self.grid_width;
        let h = self.grid_height;
        let x = self.ant_x;
        let y = self.ant_y;
        proof {
            lemma_flat_in_grid(x as int, y as int, w as int, h as int);
        }
        let idx = y * w + x;
        let set = self.grid[idx];
        self.grid.set(idx, !set);
        let d = if set { self.direction.turn_right() } else { self.direction.turn_left() };
        let (nx, ny, nd) = if self.wrap_edges {
            match d {
                Direction::Up => (x, wrap_prev(y, h), d),
                Direction::Down => (x, wrap_next(y, h), d),
                Direction::Left => (wrap_prev(x, w), y, d),
                Direction::Right => (wrap_next(x, w), y, d),
            }
        } else {
            match d {
                Direction::Up => if y == 0 { (x, y, Direction::Down) } else { (x, y - 1, d) },
                Direction::Down => if y + 1 == h { (x, y, Direction::Up) } else { (x, y + 1, d) },
                Direction::Left => if x == 0 { (x, y, Direction::Right) } else { (x - 1, y, d) },
                Direction::Right => if x + 1 == w { (x, y, Direction::Left) } else { (x + 1, y, d) },
            }
        };
        proof {
            crate::grid::lemma_wrap_exact(x as int, w as int, 0, x as int);
            crate::grid::lemma_wrap_exact(y as int, h as int, 0, y as int);
        }
        self.ant_x = nx;
        self.ant_y = ny;
        self.direction = nd;
        self.step_count = self.step_count.saturating_add(1);
    }

    /// Clears the board and puts the ant back at the centre heading up.
    pub fn reset(&mut self)
        requires
            old(self).wf(),
        ensures
            final(self).wf(),
            final(self).same_settings(&*old(self)),
            final(self).spec_grid() == Seq::new(old(self).spec_grid().len(), |i: int| false),
            final(self).spec_ant() == (old(self).spec_width() / 2, old(self).spec_height() / 2),
            final(self).spec_direction() == Direction::Up,
            final(self).spec_step_count() == 0,
    {
        let n = self.grid_width * self.grid_height;
        self.grid = vec![false; n];
        assert(self.grid@ =~= Seq::new(n as nat, |i: int| false));
        self.ant_x = self.grid_width / 2;
        self.ant_y = self.grid_height / 2;
        self.direction = Direction::Up;
        self.step_count = 0;
    }

    /// Changes the board's dimensions and resets it on a new grid; refuses (returns
    /// `false`, changing nothing) an empty board or one whose cell count does not
    /// fit in `usize`.
    pub fn set_size(&mut self, width: usize, height: usize) -> (ok: bool)
        requires
            old(self).wf(),
        ensures
            final(self).wf(),
            ok == (width > 0 && height > 0 && width * height <= usize::MAX),
            !ok ==> *final(self) == *old(self),
            ok ==> {
                &&& final(self).spec_width() == width
                &&& final(self).spec_height() == height
                &&& final(self).spec_grid() == Seq::new((width * height) as nat, |i: int| false)
                &&& final(self).spec_ant() == ((width / 2) as int, (height / 2) as int)
                &&& final(self).spec_direction() == Direction::Up
                &&& final(self).spec_step_count() == 0
                &&& final(self).spec_wrap_edges() == old(self).spec_wrap_edges()
            },
    {
        if width == 0 || height == 0 || width > usize::MAX / height {
            proof {
                if width > 0 && height > 0 {
                    assert(width * height > usize::MAX) by (nonlinear_arith)
                        requires
                            width > usize::MAX / height,
                            height > 0,
                    ;
                }
            }
            return false;
        }
        proof {
            assert(width * height <= usize::MAX) by (nonlinear_arith)
                requires
                    width <= usize::MAX / height,
                    height > 0,
            ;
        }
        let n = width * height;
        self.grid_width = width;
        self.grid_height = height;
        self.grid = vec![false; n];
        assert(self.grid@ =~= Seq::new(n as nat, |i: int| false));
        self.ant_x = width / 2;
        self.ant_y = height / 2;
        self.direction = Direction::Up;
        self.step_count = 0;
        true
    }

    pub fn grid_width(&self) -> (r: usize)
        ensures
            r == self.spec_width(),
    {
        self.grid_width
    }

    pub fn grid_height(&self) -> (r: usize)
        ensures
            r == self.spec_height(),
    {
        self.grid_height
    }

    pub fn step_count(&self) -> (r: usize)
        ensures
            r == self.spec_step_count(),
    {
        self.step_count
    }

    pub fn ant(&self) -> (r: (usize, usize))
        ensures
            r.0 as int == self.spec_ant().0,
            r.1 as int == self.spec_ant().1,
    {
        (self.ant_x, self.ant_y)
    }

    pub fn direction(&self) -> (r: Direction)
        ensures
            r == self.spec_direction(),
    {
        self.direction
    }

    /// Whether cell `(x, y)` is set.
    pub fn is_set(&self, x: usize, y: usize) -> (r: bool)
        requires
            self.wf(),
            x < self.spec_width(),
            y < self.spec_height(),
        ensures
            r == self.spec_grid()[flat(x as int, y as int, self.spec_width())],
    {
        proof {
            lemma_flat_in_grid(x as int, y as int, self.spec_width(), self.spec_height());
        }
        self.grid[y * self.grid_width + x]
    }

    pub fn wrap_edges(&self) -> (r: bool)
        ensures
            r == self.spec_wrap_edges(),
    {
        self.wrap_edges
    }

    /// Chooses between wrapping round the edges and bouncing off them.
    pub fn set_wrap_edges(&mut self, wrap_edges: bool)
        ensures
            final(self).spec_wrap_edges() == wrap_edges,
            final(self).spec_width() == old(self).spec_width(),
            final(self).spec_height() == old(self).spec_height(),
            final(self).spec_grid() == old(self).spec_grid(),
            final(self).spec_ant() == old(self).spec_ant(),
            final(self).spec_direction() == old(self).spec_direction(),
            final(self).spec_step_count() == old(self).spec_step_count(),
            final(self).spec_show_ant() == old(self).spec_show_ant(),
            final(self).spec_trail_color() == old(self).spec_trail_color(),
            final(self).spec_color_scheme() == old(self).spec_color_scheme(),
    {
        self.wrap_edges = wrap_edges;
    }

    /// Sets how the board is drawn: whether the ant is shown, whether set cells
    /// take a palette colour, and which palette.
    pub fn set_display(&mut self, show_ant: bool, trail_color: bool, scheme: ColorScheme)
        ensures
            final(self).spec_show_ant() == show_ant,
            final(self).spec_trail_color() == trail_color,
            final(self).spec_color_scheme() == scheme,
            final(self).spec_wrap_edges() == old(self).spec_wrap_edges(),
            final(self).spec_width() == old(self).spec_width(),
            final(self).spec_height() == old(self).spec_height(),
            final(self).spec_grid() == old(self).spec_grid(),
            final(self).spec_ant() == old(self).spec_ant(),
            final(self).spec_direction() == old(self).spec_direction(),
            final(self).spec_step_count() == old(self).spec_step_count(),
    {
        self.show_ant = show_ant;
        self.trail_color = trail_color;
        self.color_scheme = scheme;
    }

    pub fn color_scheme(&self) -> (r: ColorScheme)
        ensures
            r == self.spec_color_scheme(),
    {
        self.color_scheme
    }

    /// Whether `c` is the colour of cell `(gx, gy)`: red under a shown ant; for a set
    /// cell white, or the colour `trail` gives the cell when the trail is coloured;
    /// black for a clear cell.
    pub open spec fn shows_cell<F: Fn(usize, usize) -> Color>(&self, trail: F, gx: int, gy: int, c: Color) -> bool {
        if self.spec_show_ant() && (gx, gy) == self.spec_ant() {
            c == (Color { r: 255, g: 0, b: 0 })
        } else if self.spec_grid()[flat(gx, gy, self.spec_width())] {
            if self.spec_trail_color() {
                trail.ensures((gx as usize, gy as usize), c)
            } else {
                c == (Color { r: 255, g: 255, b: 255 })
            }
        } else {
            c == black()
        }
    }

    /// Draws the board on a `width` by `height` canvas, row-major.
    pub fn compute<F: Fn(usize, usize) -> Color>(&self, width: usize, height: usize, trail: &F) -> (r: Vec<Color>)
        requires
            self.wf(),
            width * height <= usize::MAX,
            forall|x: usize, y: usize| trail.requires((x, y)),
        ensures
            r@.len() == width * height,
            forall|px: int, py: int|
                0 <= px < width && 0 <= py < height ==> match pixel_cell(
                    px,
                    py,
                    width as int,
                    height as int,
                    self.spec_width(),
                    self.spec_height(),
                ) {
                    Some((gx, gy)) => self.shows_cell(*trail, gx, gy, #[trigger] r@[flat(px, py, width as int)]),
                    None => r@[flat(px, py, width as int)] == black(),
                },
    {
        let cell_color = |gx: usize, gy: usize| -> (c: Color)
            requires
                self.wf(),
                gx < self.spec_width(),
                gy < self.spec_height(),
                forall|x: usize, y: usize| trail.requires((x, y)),
            ensures
                self.shows_cell(*trail, gx as int, gy as int, c),
            {
                if self.show_ant && gx == self.ant_x && gy == self.ant_y {
                    Color { r: 255, g: 0, b: 0 }
                } else if self.is_set(gx, gy) {
                    if self.trail_color {
                        trail(gx, gy)
                    } else {
                        Color { r: 255, g: 255, b: 255 }
                    }
                } else {
                    Color { r: 0, g: 0, b: 0 }
                }
            };
        let r = render(width, height, self.grid_width, self.grid_height, &cell_color);
        assert forall|px: int, py: int| 0 <= px < width && 0 <= py < height implies match pixel_cell(
            px,
            py,
            width as int,
            height as int,
            self.spec_width(),
            self.spec_height(),
        ) {
            Some((gx, gy)) => self.shows_cell(*trail, gx, gy, #[trigger] r@[flat(px, py, width as int)]),
            None => r@[flat(px, py, width as int)] == black(),
        } by {
            let c = r@[flat(px, py, width as int)];
            assert(shows(cell_color, c, px, py, width as int, height as int, self.spec_width(), self.spec_height()));
        }
        r
    }
}

} // verus!
