use vstd::prelude::*;
use crate::color::{Color, ColorScheme};
use crate::grid::{dims_ok, flat, lemma_flat_coords, lemma_flat_in_grid};
use crate::raster::{black, pixel_cell, render, shows};

verus! {

pub open spec fn stuck_bit(c: Option<usize>) -> int {
    if c is Some { 1 } else { 0 }
}

/// Stuck cells among the eight that surround `(x, y)`.
pub open spec fn stuck_around(g: Seq<Option<usize>>, w: int, x: int, y: int) -> int {
    stuck_bit(g[flat(x - 1, y - 1, w)]) + stuck_bit(g[flat(x, y - 1, w)]) + stuck_bit(g[flat(x + 1, y - 1, w)])
        + stuck_bit(g[flat(x - 1, y, w)]) + stuck_bit(g[flat(x + 1, y, w)])
        + stuck_bit(g[flat(x - 1, y + 1, w)]) + stuck_bit(g[flat(x, y + 1, w)]) + stuck_bit(g[flat(x + 1, y + 1, w)])
}

/// A seed of one stuck cell at the centre.
pub open spec fn center_seed(w: int, h: int) -> Seq<Option<usize>> {
    Seq::new((w * h) as nat, |i: int| if i == flat(w / 2, h / 2, w) { Some(0usize) } else { None })
}

/// A horizontal seed line of forty cells centred on the middle row, cut at the edges.
pub open spec fn line_seed(w: int, h: int) -> Seq<Option<usize>> {
    Seq::new(
        (w * h) as nat,
        |i: int| if i / w == h / 2 && w / 2 - 20 <= i % w < w / 2 + 20 { Some(0usize) } else { None },
    )
}

/// A cross of two ten-cell arms each way from the centre, cut at the edges.
pub open spec fn cross_seed(w: int, h: int) -> Seq<Option<usize>> {
    Seq::new(
        (w * h) as nat,
        |i: int|
            if (i / w == h / 2 && w / 2 - 10 < i % w < w / 2 + 10) || (i % w == w / 2 && h / 2 - 10 < i / w < h / 2 + 10) {
                Some(0usize)
            } else {
                None
            },
    )
}

/// The first `m` of the given points stuck (points off the grid are skipped),
/// nothing else.
pub open spec fn points_seed(w: int, h: int, pts: Seq<(usize, usize)>, m: int) -> Seq<Option<usize>>
    decreases m,
{
    if m <= 0 {
        Seq::new((w * h) as nat, |i: int| None)
    } else {
        let prev = points_seed(w, h, pts, m - 1);
        let (x, y) = pts[m - 1];
        if x < w && y < h {
            prev.update(flat(x as int, y as int, w), Some(0usize))
        } else {
            prev
        }
    }
}

/// Diffusion-limited aggregation: walkers released far away stick when they reach
/// the cluster; each stuck cell remembers the order in which it stuck.
pub struct DLA {
    grid_width: usize,
    grid_height: usize,
    num_particles: usize,
    color_by_age: bool,
    color_scheme: ColorScheme,
    grid: Vec<Option<usize>>,
    particles_stuck: usize,
    paused: bool,
}

impl DLA {
    pub closed spec fn spec_width(&self) -> int {
        self.grid_width as int
    }

    pub closed spec fn spec_height(&self) -> int {
        self.grid_height as int
    }

    pub closed spec fn spec_grid(&self) -> Seq<Option<usize>> {
        self.grid@
    }

    pub closed spec fn spec_stuck(&self) -> usize {
        self.particles_stuck
    }

    pub closed spec fn spec_num_particles(&self) -> usize {
        self.num_particles
    }

    pub closed spec fn spec_paused(&self) -> bool {
        self.paused
    }

    pub closed spec fn spec_color_by_age(&self) -> bool {
        self.color_by_age
    }

    pub closed spec fn spec_color_scheme(&self) -> ColorScheme {
        self.color_scheme
    }

    /// Settings that only the host changes are those of `o`.
    pub open spec fn same_settings(&self, o: &Self) -> bool {
        &&& self.spec_width() == o.spec_width()
        &&& self.spec_height() == o.spec_height()
        &&& self.spec_num_particles() == o.spec_num_particles()
        &&& self.spec_color_by_age() == o.spec_color_by_age()
        &&& self.spec_color_scheme() == o.spec_color_scheme()
    }

    /// The grid covers the board.
    pub open spec fn wf(&self) -> bool {
        &&& dims_ok(self.spec_width(), self.spec_height())
        &&& self.spec_grid().len() == self.spec_width() * self.spec_height()
    }

    /// A `width` by `height` board seeded at the centre, aiming for `num_particles`
    /// stuck cells, coloured by age with the ice palette.
    pub fn with_size(width: usize, height: usize, num_particles: usize) -> (r: Self)
        requires
            dims_ok(width as int, height as int),
        ensures
            r.wf(),
            r.spec_width() == width,
            r.spec_height() == height,
            r.spec_num_particles() == num_particles,
            r.spec_grid() == center_seed(width as int, height as int),
            r.spec_stuck() == 1,
            !r.spec_paused(),
            r.spec_color_by_age(),
            r.spec_color_scheme() == ColorScheme::Ice,
    {
        let mut r = DLA {
            grid_width: width,
            grid_height: height,
            num_particles,
            color_by_age: true,
            color_scheme: ColorScheme::Ice,
            grid: vec![None; width * height],
            particles_stuck: 0,
            paused: true,
        };
        r.reset();
        r
    }

    /// A 256 by 256 board aiming for 5000 stuck cells.
    pub fn new() -> (r: Self)
        ensures
            r.wf(),
            r.spec_width() == 256,
            r.spec_height() == 256,
            r.spec_num_particles() == 5000,
            r.spec_grid() == center_seed(256, 256),
            r.spec_stuck() == 1,
            !r.spec_paused(),
    {
        DLA::with_size(256, 256, 5000)
    }

    /// Clears the board to the single centre seed and resumes.
    pub fn reset(&mut self)
        requires
            dims_ok(old(self).spec_width(), old(self).spec_height()),
        ensures
            final(self).wf(),
            final(self).same_settings(&*old(self)),
            final(self).spec_grid() == center_seed(old(self).spec_width(), old(self).spec_height()),
            final(self).spec_stuck() == 1,
            !final(self).spec_paused(),
    {
        let w = self.grid_width;
        let h = self.grid_height;
        let mut grid = vec![None; w * h];
        proof {
            lemma_flat_in_grid((w / 2) as int, (h / 2) as int, w as int, h as int);
        }
        grid.set(h / 2 * w + w / 2, Some(0));
        assert(grid@ =~= center_seed(w as int, h as int));
        self.grid = grid;
        self.particles_stuck = 1;
        self.paused = false;
    }

    /// Seeds the board by name: "line", "cross", "circle" (on the given points, which
    /// the host computes round the centre) or, for any other name, the centre cell.
    pub fn reset_with_seed(&mut self, seed: &str, circle_points: &Vec<(usize, usize)>)
        requires
            old(self).wf(),
        ensures
            final(self).wf(),
            final(self).same_settings(&*old(self)),
            !final(self).spec_paused(),
            ({
                let w = old(self).spec_width();
                let h = old(self).spec_height();
                if seed@ == "line"@ {
                    final(self).spec_grid() == line_seed(w, h) && final(self).spec_stuck() == 40
                } else if seed@ == "cross"@ {
                    final(self).spec_grid() == cross_seed(w, h) && final(self).spec_stuck() == 40
                } else if seed@ == "circle"@ {
                    final(self).spec_grid() == points_seed(w, h, circle_points@, circle_points@.len() as int)
                        && final(self).spec_stuck() == 360
                } else {
                    final(self).spec_grid() == center_seed(w, h) && final(self).spec_stuck() == 1
                }
            }),
    {
        let w = self.grid_width;
        let h = self.grid_height;
        let n = w * h;
        let name = seed.to_owned();
        if name == "line".to_owned() || name == "cross".to_owned() {
            let is_line = name == "line".to_owned();
            let ghost target = if is_line { line_seed(w as int, h as int) } else { cross_seed(w as int, h as int) };
            let cx = w / 2;
            let cy = h / 2;
            let mut grid: Vec<Option<usize>> = Vec::with_capacity(n);
            let mut y: usize = 0;
            while y < h
                invariant
                    y <= h,
                    dims_ok(w as int, h as int),
                    n == w * h,
                    cx == w / 2,
                    cy == h / 2,
                    target == if is_line { line_seed(w as int, h as int) } else { cross_seed(w as int, h as int) },
                    grid@.len() == y * w,
                    forall|i: int| 0 <= i < y * w ==> #[trigger] grid@[i] == target[i],
                decreases h - y,
            {
                let mut x: usize = 0;
                while x < w
                    invariant
                        x <= w,
                        y < h,
                        dims_ok(w as int, h as int),
                        n == w * h,
                        cx == w / 2,
                        cy == h / 2,
                        target == if is_line { line_seed(w as int, h as int) } else { cross_seed(w as int, h as int) },
                        grid@.len() == y * w + x,
                        forall|i: int| 0 <= i < y * w + x ==> #[trigger] grid@[i] == target[i],
                    decreases w - x,
                {
                    proof {
                        lemma_flat_in_grid(x as int, y as int, w as int, h as int);
                        lemma_flat_coords(x as int, y as int, w as int);
                    }
                    let on = if is_line {
                        y == cy && (cx <= 20 || x >= cx - 20) && x < cx + 20
                    } else {
                        (y == cy && (cx < 10 || x > cx - 10) && x < cx + 10) || (x == cx && (cy < 10 || y > cy - 10) && y < cy + 10)
                    };
                    grid.push(if on { Some(0) } else { None });
                    x = x + 1;
                }
                proof {
                    assert((y + 1) * w == y * w + w) by (nonlinear_arith);
                }
                y = y + 1;
            }
            proof {
                assert(h * w == w * h) by (nonlinear_arith);
            }
            assert(grid@ =~= target);
            self.grid = grid;
            self.particles_stuck = 40;
        } else if name == "circle".to_owned() {
            let mut grid = vec![None; n];
            assert(grid@ =~= points_seed(w as int, h as int, circle_points@, 0));
            let mut i: usize = 0;
            while i < circle_points.len()
                invariant
                    i <= circle_points@.len(),
                    dims_ok(w as int, h as int),
                    n == w * h,
                    grid@ == points_seed(w as int, h as int, circle_points@, i as int),
                    grid@.len() == n,
                decreases circle_points@.len() - i,
            {
                let (x, y) = circle_points[i];
                if x < w && y < h {
                    proof {
                        lemma_flat_in_grid(x as int, y as int, w as int, h as int);
                    }
                    grid.set(y * w + x, Some(0));
                }
                i = i + 1;
            }
            self.grid = grid;
            self.particles_stuck = 360;
        } else {
            self.reset();
        }
        self.paused = false;
    }

    /// Whether another walker is due: the run is not paused and the target count of
    /// stuck cells is not reached.
    pub fn wants_walker(&self) -> (r: bool)
        ensures
            r == (!self.spec_paused() && self.spec_stuck() < self.spec_num_particles()),
    {
        !self.paused && self.particles_stuck < self.num_particles
    }

    fn stuck_at(&self, x: usize, y: usize) -> (r: usize)
        requires
            self.wf(),
            x < self.spec_width(),
            y < self.spec_height(),
        ensures
            r == stuck_bit(self.spec_grid()[flat(x as int, y as int, self.spec_width())]),
    {
        proof {
            lemma_flat_in_grid(x as int, y as int, self.spec_width(), self.spec_height());
        }
        if self.grid[y * self.grid_width + x].is_some() {
            1
        } else {
            0
        }
    }

    /// Stuck cells among the eight around `(x, y)`, a cell off the border.
    pub fn stuck_neighbors(&self, x: usize, y: usize) -> (r: usize)
        requires
            self.wf(),
            0 < x < self.spec_width() - 1,
            0 < y < self.spec_height() - 1,
        ensures
            r == stuck_around(self.spec_grid(), self.spec_width(), x as int, y as int),
            r <= 8,
    {
        self.stuck_at(x - 1, y - 1) + self.stuck_at(x, y - 1) + self.stuck_at(x + 1, y - 1)
            + self.stuck_at(x - 1, y) + self.stuck_at(x + 1, y)
            + self.stuck_at(x - 1, y + 1) + self.stuck_at(x, y + 1) + self.stuck_at(x + 1, y + 1)
    }

    /// Sticks a walker at `(x, y)`, stamped with the number of cells stuck before it.
    pub fn stick(&mut self, x: usize, y: usize)
        requires
            old(self).wf(),
            x < old(self).spec_width(),
            y < old(self).spec_height(),
        ensures
            final(self).wf(),
            final(self).same_settings(&*old(self)),
            final(self).spec_paused() == old(self).spec_paused(),
            final(self).spec_grid() == old(self).spec_grid().update(
                flat(x as int, y as int, old(self).spec_width()),
                Some(old(self).spec_stuck()),
            ),
            final(self).spec_stuck() == if old(self).spec_stuck() == usize::MAX {
                usize::MAX
            } else {
                (old(self).spec_stuck() + 1) as usize
            },
    {
        proof {
            lemma_flat_in_grid(x as int, y as int, self.spec_width(), self.spec_height());
        }
        let i = y * self.grid_width + x;
        self.grid.set(i, Some(self.particles_stuck));
        self.particles_stuck = self.particles_stuck.saturating_add(1);
    }

    /// The stamp of cell `(x, y)`, if a walker stuck there.
    pub fn cell(&self, x: usize, y: usize) -> (r: Option<usize>)
        requires
            self.wf(),
            x < self.spec_width(),
            y < self.spec_height(),
        ensures
            r == self.spec_grid()[flat(x as int, y as int, self.spec_width())],
    {
        proof {
            lemma_flat_in_grid(x as int, y as int, self.spec_width(), self.spec_height());
        }
        self.grid[y * self.grid_width + x]
    }

    pub fn grid_width(&self) -> (r: usize)
        ensures
            r == self.spec_width(),
    {
        self.grid_width
    }

    pub fn grid_height(&self) -> (r: usize)
        ensures
            r == self.spec_height(),
    {
        self.grid_height
    }

    pub fn particles_stuck(&self) -> (r: usize)
        ensures
            r == self.spec_stuck(),
    {
        self.particles_stuck
    }

    pub fn num_particles(&self) -> (r: usize)
        ensures
            r == self.spec_num_particles(),
    {
        self.num_particles
    }

    pub fn paused(&self) -> (r: bool)
        ensures
            r == self.spec_paused(),
    {
        self.paused
    }

    pub fn set_paused(&mut self, paused: bool)
        ensures
            final(self).spec_paused() == paused,
            final(self).same_settings(&*old(self)),
            final(self).spec_grid() == old(self).spec_grid(),
            final(self).spec_stuck() == old(self).spec_stuck(),
    {
        self.paused = paused;
    }

    /// Sets the target count of stuck cells and how they are coloured.
    pub fn set_display(&mut self, num_particles: usize, color_by_age: bool, scheme: ColorScheme)
        ensures
            final(self).spec_num_particles() == num_particles,
            final(self).spec_color_by_age() == color_by_age,
            final(self).spec_color_scheme() == scheme,
            final(self).spec_width() == old(self).spec_width(),
            final(self).spec_height() == old(self).spec_height(),
            final(self).spec_grid() == old(self).spec_grid(),
            final(self).spec_stuck() == old(self).spec_stuck(),
            final(self).spec_paused() == old(self).spec_paused(),
    {
        self.num_particles = num_particles;
        self.color_by_age = color_by_age;
        self.color_scheme = scheme;
    }

    pub fn color_by_age(&self) -> (r: bool)
        ensures
            r == self.spec_color_by_age(),
    {
        self.color_by_age
    }

    pub fn color_scheme(&self) -> (r: ColorScheme)
        ensures
            r == self.spec_color_scheme(),
    {
        self.color_scheme
    }

    /// Changes the board's dimensions and reseeds it at the centre on a new grid;
    /// refuses (returns `false`, changing nothing) an empty board or one whose cell
    /// count does not fit in `usize`.
    pub fn set_size(&mut self, width: usize, height: usize) -> (ok: bool)
        requires
            old(self).wf(),
        ensures
            final(self).wf(),
            ok == (width > 0 && height > 0 && width * height <= usize::MAX),
            !ok ==> *final(self) == *old(self),
            ok ==> final(self).spec_width() == width && final(self).spec_height() == height
                && final(self).spec_grid() == center_seed(width as int, height as int) && final(self).spec_stuck() == 1,
    {
        if width == 0 || height == 0 || width > usize::MAX / height {
            proof {
                if width > 0 && height > 0 {
                    assert(width * height > usize::MAX) by (nonlinear_arith)
                        requires
                            width > usize::MAX / height,
                            height > 0,
                    ;
                }
            }
            return false;
        }
        proof {
            assert(width * height <= usize::MAX) by (nonlinear_arith)
                requires
                    width <= usize::MAX / height,
                    height > 0,
            ;
        }
        self.grid_width = width;
        self.grid_height = height;
        self.reset();
        true
    }

    /// Whether `c` is the colour of cell `(gx, gy)`: for a stuck cell the colour that
    /// `age_color` gives its stamp when colouring by age, else white; black for an
    /// empty cell.
    pub open spec fn shows_cell<F: Fn(usize) -> Color>(&self, age_color: F, gx: int, gy: int, c: Color) -> bool {
        match self.spec_grid()[flat(gx, gy, self.spec_width())] {
            Some(age) => if self.spec_color_by_age() {
                age_color.ensures((age,), c)
            } else {
                c == (Color { r: 255, g: 255, b: 255 })
            },
            None => c == black(),
        }
    }

    /// Draws the board on a `width` by `height` canvas, row-major.
    pub fn compute<F: Fn(usize) -> Color>(&self, width: usize, height: usize, age_color: &F) -> (r: Vec<Color>)
        requires
            self.wf(),
            width * height <= usize::MAX,
            forall|a: usize| age_color.requires((a,)),
        ensures
            r@.len() == width * height,
            forall|px: int, py: int|
                0 <= px < width && 0 <= py < height ==> match pixel_cell(
                    px,
                    py,
                    width as int,
                    height as int,
                    self.spec_width(),
                    self.spec_height(),
                ) {
                    Some((gx, gy)) => self.shows_cell(*age_color, gx, gy, #[trigger] r@[flat(px, py, width as int)]),
                    None => r@[flat(px, py, width as int)] == black(),
                },
    {
        let cell_color = |gx: usize, gy: usize| -> (c: Color)
            requires
                self.wf(),
                gx < self.spec_width(),
                gy < self.spec_height(),
                forall|a: usize| age_color.requires((a,)),
            ensures
                self.shows_cell(*age_color, gx as int, gy as int, c),
            {
                match self.cell(gx, gy) {
                    Some(age) => if self.color_by_age {
                        age_color(age)
                    } else {
                        Color { r: 255, g: 255, b: 255 }
                    },
                    None => Color { r: 0, g: 0, b: 0 },
                }
            };
        let r = render(width, height, self.grid_width, self.grid_height, &cell_color);
        assert forall|px: int, py: int| 0 <= px < width && 0 <= py < height implies match pixel_cell(
            px,
            py,
            width as int,
            height as int,
            self.spec_width(),
            self.spec_height(),
        ) {
            Some((gx, gy)) => self.shows_cell(*age_color, gx, gy, #[trigger] r@[flat(px, py, width as int)]),
            None => r@[flat(px, py, width as int)] == black(),
        } by {
            let c = r@[flat(px, py, width as int)];
            assert(shows(cell_color, c, px, py, width as int, height as int, self.spec_width(), self.spec_height()));
        }
        r
    }
}

} // verus!
