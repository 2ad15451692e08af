use vstd::prelude::*;
use crate::color::{Color, ColorScheme};
use crate::grid::{dims_ok, flat, lemma_flat_coords, lemma_flat_in_grid, shift, wrap};
use crate::random::random_below;
use crate::raster::{black, pixel_cell, render, shows};

verus! {

/// Which surrounding cells count as neighbours.
#[derive(Debug, Clone, Copy, PartialEq, Eq, Structural)]
pub enum Neighborhood {
    VonNeumann,
    Moore,
    Extended,
}

/// The neighbour offsets `(dx, dy)` of each neighbourhood.
pub open spec fn neighbor_offsets(n: Neighborhood) -> Seq<(i32, i32)> {
    match n {
        Neighborhood::VonNeumann => seq![(0i32, -1i32), (1i32, 0i32), (0i32, 1i32), (-1i32, 0i32)],
        Neighborhood::Moore => seq![(-1i32, -1i32), (0i32, -1i32), (1i32, -1i32), (-1i32, 0i32), (1i32, 0i32), (-1i32, 1i32), (0i32, 1i32), (1i32, 1i32)],
        Neighborhood::Extended => seq![
            (-1i32, -1i32), (0i32, -1i32), (1i32, -1i32),
            (-1i32, 0i32), (1i32, 0i32),
            (-1i32, 1i32), (0i32, 1i32), (1i32, 1i32),
            (0i32, -2i32), (2i32, 0i32), (0i32, 2i32), (-2i32, 0i32),
        ],
    }
}

impl Neighborhood {
    pub fn all() -> (r: Vec<Neighborhood>)
        ensures
            r@ == seq![Neighborhood::VonNeumann, Neighborhood::Moore, Neighborhood::Extended],
    {
        let r = vec![Neighborhood::VonNeumann, Neighborhood::Moore, Neighborhood::Extended];
        assert(r@ =~= seq![Neighborhood::VonNeumann, Neighborhood::Moore, Neighborhood::Extended]);
        r
    }

    pub open spec fn spec_name(self) -> Seq<char> {
        match self {
            Neighborhood::VonNeumann => "Von Neumann (4)"@,
            Neighborhood::Moore => "Moore (8)"@,
            Neighborhood::Extended => "Extended (12)"@,
        }
    }

    pub fn name(&self) -> (r: &str)
        ensures
            r@ == self.spec_name(),
    {
        match self {
            Neighborhood::VonNeumann => "Von Neumann (4)",
            Neighborhood::Moore => "Moore (8)",
            Neighborhood::Extended => "Extended (12)",
        }
    }

    pub fn get_offsets(&self) -> (r: Vec<(i32, i32)>)
        ensures
            r@ == neighbor_offsets(*self),
            forall|j: int| 0 <= j < r@.len() ==> -2 <= #[trigger] r@[j].0 <= 2 && -2 <= r@[j].1 <= 2,
    {
        let r = match self {
            Neighborhood::VonNeumann => vec![(0, -1), (1, 0), (0, 1), (-1, 0)],
            Neighborhood::Moore => vec![(-1, -1), (0, -1), (1, -1), (-1, 0), (1, 0), (-1, 1), (0, 1), (1, 1)],
            Neighborhood::Extended => vec![
                (-1, -1), (0, -1), (1, -1),
                (-1, 0), (1, 0),
                (-1, 1), (0, 1), (1, 1),
                (0, -2), (2, 0), (0, 2), (-2, 0),
            ],
        };
        assert(r@ =~= neighbor_offsets(*self));
        r
    }
}

/// How many of the cells at `offs` from `(x, y)` on the torus hold `v`.
pub open spec fn count_holding(g: Seq<u8>, w: int, h: int, x: int, y: int, offs: Seq<(i32, i32)>, v: u8) -> int
    decreases offs.len(),
{
    if offs.len() == 0 {
        0
    } else {
        let (dx, dy) = offs.last();
        count_holding(g, w, h, x, y, offs.drop_last(), v) + if g[flat(wrap(x + dx, w), wrap(y + dy, h), w)] == v {
            1int
        } else {
            0int
        }
    }
}

/// The state that follows `s` in a cycle of `k` states.
pub open spec fn successor(s: u8, k: int) -> u8 {
    ((s + 1) % k) as u8
}

/// The next grid of the cyclic automaton: a cell advances to its successor state
/// when at least `threshold` of its neighbours already hold that state.
pub open spec fn next_cyclic(g: Seq<u8>, w: int, h: int, k: int, threshold: int, n: Neighborhood) -> Seq<u8> {
    Seq::new(
        g.len(),
        |i: int|
            if count_holding(g, w, h, i % w, i / w, neighbor_offsets(n), successor(g[i], k)) >= threshold {
                successor(g[i], k)
            } else {
                g[i]
            },
    )
}

/// The spiral seed: state `i` at the `i`-th point of `pts`, for the first `m`
/// points (points off the board are skipped), state zero elsewhere.
pub open spec fn spiral_seed(w: int, h: int, pts: Seq<(usize, usize)>, m: int) -> Seq<u8>
    decreases m,
{
    if m <= 0 {
        Seq::new((w * h) as nat, |i: int| 0u8)
    } else {
        let prev = spiral_seed(w, h, pts, m - 1);
        let (x, y) = pts[m - 1];
        if x < w && y < h {
            prev.update(flat(x as int, y as int, w), (m - 1) as u8)
        } else {
            prev
        }
    }
}

/// The stripes seed: vertical bands running through the states from left to right.
pub open spec fn stripes_seed(w: int, h: int, k: int) -> Seq<u8> {
    Seq::new((w * h) as nat, |i: int| ((i % w) * k / w) as u8)
}

/// The state of cell `(x, y)` in the corners seed: one state per quadrant.
pub open spec fn corner_state(x: int, y: int, w: int, h: int, k: int) -> u8 {
    if x < w / 2 && y < h / 2 {
        0
    } else if x >= w / 2 && y < h / 2 {
        (k / 4) as u8
    } else if x < w / 2 && y >= h / 2 {
        (k / 2) as u8
    } else {
        (k * 3 / 4) as u8
    }
}

pub open spec fn corners_seed(w: int, h: int, k: int) -> Seq<u8> {
    Seq::new((w * h) as nat, |i: int| corner_state(i % w, i / w, w, h, k))
}

/// A cyclic cellular automaton: `k` states in a ring, each consumed by the next.
pub struct CyclicCA {
    grid_width: usize,
    grid_height: usize,
    num_states: usize,
    threshold: usize,
    color_scheme: ColorScheme,
    neighborhood: Neighborhood,
    grid: Vec<u8>,
    next_grid: Vec<u8>,
}

impl CyclicCA {
    pub closed spec fn spec_width(&self) -> int {
        self.grid_width as int
    }

    pub closed spec fn spec_height(&self) -> int {
        self.grid_height as int
    }

    pub closed spec fn spec_num_states(&self) -> int {
        self.num_states as int
    }

    pub closed spec fn spec_threshold(&self) -> int {
        self.threshold as int
    }

    pub closed spec fn spec_neighborhood(&self) -> Neighborhood {
        self.neighborhood
    }

    pub closed spec fn spec_color_scheme(&self) -> ColorScheme {
        self.color_scheme
    }

    pub closed spec fn spec_grid(&self) -> Seq<u8> {
        self.grid@
    }

    /// The scratch grid that the next generation is written into matches the grid.
    pub closed spec fn scratch_ok(&self) -> bool {
        self.next_grid@.len() == self.grid@.len()
    }

    /// Rule settings and dimensions are those of `o`.
    pub open spec fn same_settings(&self, o: &Self) -> bool {
        &&& self.spec_width() == o.spec_width()
        &&& self.spec_height() == o.spec_height()
        &&& self.spec_num_states() == o.spec_num_states()
        &&& self.spec_threshold() == o.spec_threshold()
        &&& self.spec_neighborhood() == o.spec_neighborhood()
        &&& self.spec_color_scheme() == o.spec_color_scheme()
    }

    /// The grids cover the board, there are between one and 255 states, and every
    /// cell holds one of them.
    pub open spec fn wf(&self) -> bool {
        &&& dims_ok(self.spec_width(), self.spec_height())
        &&& self.spec_grid().len() == self.spec_width() * self.spec_height()
        &&& self.scratch_ok()
        &&& 1 <= self.spec_num_states() <= 255
        &&& forall|i: int| 0 <= i < self.spec_grid().len() ==> #[trigger] self.spec_grid()[i] < self.spec_num_states()
    }

    /// A `width` by `height` board of `num_states` states, every cell in state zero,
    /// with a Moore neighbourhood, the rainbow palette and the given threshold.
    pub fn with_size(width: usize, height: usize, num_states: usize, threshold: usize) -> (r: Self)
        requires
            dims_ok(width as int, height as int),
            1 <= num_states <= 255,
        ensures
            r.wf(),
            r.spec_width() == width,
            r.spec_height() == height,
            r.spec_num_states() == num_states,
            r.spec_threshold() == threshold,
            r.spec_neighborhood() == Neighborhood::Moore,
            r.spec_color_scheme() == ColorScheme::Rainbow,
            r.spec_grid() == Seq::new((width * height) as nat, |i: int| 0u8),
    {
        let n = width * height;
        let grid = vec![0u8; n];
        let next_grid = vec![0u8; n];
        assert(grid@ =~= Seq::new(n as nat, |i: int| 0u8));
        CyclicCA {
            grid_width: width,
            grid_height: height,
            num_states,
            threshold,
            color_scheme: ColorScheme::Rainbow,
            neighborhood: Neighborhood::Moore,
            grid,
            next_grid,
        }
    }

    /// A 200 by 150 board of fourteen states with threshold three, every cell in a
    /// random state.
    pub fn new() -> (r: Self)
        ensures
            r.wf(),
            r.spec_width() == 200,
            r.spec_height() == 150,
            r.spec_num_states() == 14,
            r.spec_threshold() == 3,
            r.spec_neighborhood() == Neighborhood::Moore,
            r.spec_color_scheme() == ColorScheme::Rainbow,
    {
        let mut r = CyclicCA::with_size(200, 150, 14, 3);
        r.reset();
        r
    }

    /// Neighbours of `(x, y)` that hold state `v`.
    fn count_state(&self, x: usize, y: usize, offs: &Vec<(i32, i32)>, v: u8) -> (r: usize)
        requires
            self.wf(),
            x < self.spec_width(),
            y < self.spec_height(),
            forall|j: int| 0 <= j < offs@.len() ==> -2 <= #[trigger] offs@[j].0 <= 2 && -2 <= offs@[j].1 <= 2,
            offs@.len() <= 12,
        ensures
            r == count_holding(self.spec_grid(), self.spec_width(), self.spec_height(), x as int, y as int, offs@, v),
    {
        let w = self.grid_width;
        let h = self.grid_height;
        let mut count: usize = 0;
        let mut j: usize = 0;
        while j < offs.len()
            invariant
                self.wf(),
                w == self.spec_width(),
                h == self.spec_height(),
                x < w,
                y < h,
                j <= offs@.len(),
                offs@.len() <= 12,
                forall|k: int| 0 <= k < offs@.len() ==> -2 <= #[trigger] offs@[k].0 <= 2 && -2 <= offs@[k].1 <= 2,
                count <= j,
                count == count_holding(self.spec_grid(), w as int, h as int, x as int, y as int, offs@.take(j as int), v),
            decreases offs@.len() - j,
        {
            let (dx, dy) = offs[j];
            let nx = shift(x, dx, w);
            let ny = shift(y, dy, h);
            proof {
                lemma_flat_in_grid(nx as int, ny as int, w as int, h as int);
                assert(offs@.take(j + 1).drop_last() =~= offs@.take(j as int));
            }
            if self.grid[ny * w + nx] == v {
                count = count + 1;
            }
            j = j + 1;
        }
        assert(offs@.take(offs@.len() as int) =~= offs@);
        count
    }

    /// Advances one generation, computing the whole next grid from the current one
    /// and then swapping the two.
    pub fn step(&mut self)
        requires
            old(self).wf(),
        ensures
            final(self).wf(),
            final(self).same_settings(&*old(self)),
            final(self).spec_grid() == next_cyclic(
                old(self).spec_grid(),
                old(self).spec_width(),
                old(self).spec_height(),
                old(self).spec_num_states(),
                old(self).spec_threshold(),
                old(self).spec_neighborhood(),
            ),
    {
        let w = self.grid_width;
        let h = self.grid_height;
        let k = self.num_states;
        let offs = self.neighborhood.get_offsets();
        let ghost g = self.spec_grid();
        let ghost next = next_cyclic(g, w as int, h as int, k as int, self.threshold as int, self.neighborhood);
        let mut y: usize = 0;
        while y < h
            invariant
                self.wf(),
                self.same_settings(&*old(self)),
                w == self.spec_width(),
                h == self.spec_height(),
                k == self.spec_num_states(),
                g == self.spec_grid(),
                g == old(self).spec_grid(),
                offs@ == neighbor_offsets(self.spec_neighborhood()),
                forall|j: int| 0 <= j < offs@.len() ==> -2 <= #[trigger] offs@[j].0 <= 2 && -2 <= offs@[j].1 <= 2,
                next == next_cyclic(g, w as int, h as int, k as int, self.spec_threshold(), self.spec_neighborhood()),
                y <= h,
                self.next_grid@.len() == g.len(),
                forall|i: int| 0 <= i < y * w ==> self.next_grid@[i] == next[i],
            decreases h - y,
        {
            let mut x: usize = 0;
            while x < w
                invariant
                    self.wf(),
                    self.same_settings(&*old(self)),
                    w == self.spec_width(),
                    h == self.spec_height(),
                    k == self.spec_num_states(),
                    g == self.spec_grid(),
                    g == old(self).spec_grid(),
                    offs@ == neighbor_offsets(self.spec_neighborhood()),
                    forall|j: int| 0 <= j < offs@.len() ==> -2 <= #[trigger] offs@[j].0 <= 2 && -2 <= offs@[j].1 <= 2,
                    next == next_cyclic(g, w as int, h as int, k as int, self.spec_threshold(), self.spec_neighborhood()),
                    y < h,
                    x <= w,
                    self.next_grid@.len() == g.len(),
                    forall|i: int| 0 <= i < y * w + x ==> self.next_grid@[i] == next[i],
                decreases w - x,
            {
                proof {
                    lemma_flat_in_grid(x as int, y as int, w as int, h as int);
                    lemma_flat_coords(x as int, y as int, w as int);
                }
                let idx = y * w + x;
                let current = self.grid[idx];
                let next_state = ((current as usize + 1) % k) as u8;
                let count = self.count_state(x, y, &offs, next_state);
                let v = if count >= self.threshold { next_state } else { current };
                self.next_grid.set(idx, v);
                x = x + 1;
            }
            proof {
                assert((y + 1) * w == y * w + w) by (nonlinear_arith);
            }
            y = y + 1;
        }
        proof {
            assert(h * w == w * h) by (nonlinear_arith);
            assert(self.next_grid@ =~= next);
            assert forall|i: int| 0 <= i < next.len() implies #[trigger] next[i] < k by {
                assert((g[i] + 1) % (k as int) < k);
            }
        }
        std::mem::swap(&mut self.grid, &mut self.next_grid);
    }

    /// Sets every cell to the state at its index in `states`, on grids of the current
    /// dimensions.
    pub fn fill_states(&mut self, states: &Vec<u8>)
        requires
            old(self).wf(),
            states@.len() == old(self).spec_width() * old(self).spec_height(),
            forall|i: int| 0 <= i < states@.len() ==> #[trigger] states@[i] < old(self).spec_num_states(),
        ensures
            final(self).wf(),
            final(self).same_settings(&*old(self)),
            final(self).spec_grid() == states@,
    {
        let n = self.grid_width * self.grid_height;
        self.grid = states.clone();
        self.next_grid = vec![0u8; n];
    }

    /// Puts every cell in a state drawn at random among all the states, on grids of
    /// the current dimensions.
    pub fn reset(&mut self)
        requires
            old(self).wf(),
        ensures
            final(self).wf(),
            final(self).same_settings(&*old(self)),
            final(self).spec_grid().len() == old(self).spec_width() * old(self).spec_height(),
            forall|i: int| 0 <= i < final(self).spec_grid().len() ==> #[trigger] final(self).spec_grid()[i] < old(self).spec_num_states(),
    {
        let n = self.grid_width * self.grid_height;
        let k = self.num_states;
        let mut states: Vec<u8> = Vec::with_capacity(n);
        let mut i: usize = 0;
        while i < n
            invariant
                i <= n,
                1 <= k <= 255,
                states@.len() == i,
                forall|j: int| 0 <= j < i ==> #[trigger] states@[j] < k,
            decreases n - i,
        {
            let s = random_below(k);
            states.push(s as u8);
            i = i + 1;
        }
        self.fill_states(&states);
    }

    /// Seeds the board by name: "spiral" puts state `i` at the `i`-th of the given
    /// points (the host computes them on a circle round the centre), "stripes" and
    /// "corners" fill bands and quadrants of states, and any other name draws every
    /// cell at random.
    pub fn reset_with_seed(&mut self, seed: &str, spiral_points: &Vec<(usize, usize)>)
        requires
            old(self).wf(),
        ensures
            final(self).wf(),
            final(self).same_settings(&*old(self)),
            ({
                let w = old(self).spec_width();
                let h = old(self).spec_height();
                let k = old(self).spec_num_states();
                let m = if spiral_points@.len() < k { spiral_points@.len() as int } else { k };
                if seed@ == "spiral"@ {
                    final(self).spec_grid() == spiral_seed(w, h, spiral_points@, m)
                } else if seed@ == "stripes"@ {
                    final(self).spec_grid() == stripes_seed(w, h, k)
                } else if seed@ == "corners"@ {
                    final(self).spec_grid() == corners_seed(w, h, k)
                } else {
                    &&& final(self).spec_grid().len() == w * h
                    &&& forall|i: int| 0 <= i < final(self).spec_grid().len() ==> #[trigger] final(self).spec_grid()[i] < k
                }
            }),
    {
        let w = self.grid_width;
        let h = self.grid_height;
        let k = self.num_states;
        let n = w * h;
        let name = seed.to_owned();
        if name == "spiral".to_owned() {
            let m = if spiral_points.len() < k { spiral_points.len() } else { k };
            let mut grid = vec![0u8; n];
            assert(grid@ =~= spiral_seed(w as int, h as int, spiral_points@, 0));
            let mut i: usize = 0;
            while i < m
                invariant
                    i <= m,
                    m <= spiral_points@.len(),
                    m <= k,
                    1 <= k <= 255,
                    dims_ok(w as int, h as int),
                    n == w * h,
                    grid@ == spiral_seed(w as int, h as int, spiral_points@, i as int),
                    grid@.len() == n,
                    forall|j: int| 0 <= j < n ==> #[trigger] grid@[j] < k,
                decreases m - i,
            {
                let (x, y) = spiral_points[i];
                if x < w && y < h {
                    proof {
                        lemma_flat_in_grid(x as int, y as int, w as int, h as int);
                    }
                    grid.set(y * w + x, i as u8);
                }
                i = i + 1;
            }
            self.grid = grid;
        } else if name == "stripes".to_owned() {
            let mut grid: Vec<u8> = Vec::with_capacity(n);
            let mut y: usize = 0;
            while y < h
                invariant
                    y <= h,
                    1 <= k <= 255,
                    dims_ok(w as int, h as int),
                    n == w * h,
                    grid@.len() == y * w,
                    forall|i: int| 0 <= i < y * w ==> #[trigger] grid@[i] == stripes_seed(w as int, h as int, k as int)[i],
                decreases h - y,
            {
                let mut x: usize = 0;
                while x < w
                    invariant
                        x <= w,
                        y < h,
                        1 <= k <= 255,
                        dims_ok(w as int, h as int),
                        n == w * h,
                        grid@.len() == y * w + x,
                        forall|i: int| 0 <= i < y * w + x ==> #[trigger] grid@[i] == stripes_seed(w as int, h as int, k as int)[i],
                    decreases w - x,
                {
                    proof {
                        lemma_flat_in_grid(x as int, y as int, w as int, h as int);
                        lemma_flat_coords(x as int, y as int, w as int);
                        assert((x as int) * (k as int) / (w as int) < k) by (nonlinear_arith)
                            requires
                                0 <= x < w,
                                k >= 1,
                        ;
                        assert((x as int) * (k as int) / (w as int) >= 0) by (nonlinear_arith)
                            requires
                                0 <= x < w,
                                k >= 1,
                        ;
                    }
                    proof {
                        assert((x as int) * (k as int) <= u128::MAX) by (nonlinear_arith)
                            requires
                                x <= usize::MAX,
                                k <= 255,
                                usize::MAX <= u64::MAX,
                        ;
                    }
                    let v = ((x as u128) * (k as u128) / (w as u128)) as u8;
                    grid.push(v);
                    x = x + 1;
                }
                proof {
                    assert((y + 1) * w == y * w + w) by (nonlinear_arith);
                }
                y = y + 1;
            }
            proof {
                assert(h * w == w * h) by (nonlinear_arith);
                assert(grid@ =~= stripes_seed(w as int, h as int, k as int));
                assert forall|i: int| 0 <= i < n implies #[trigger] grid@[i] < k by {
                    crate::grid::lemma_coords_in_grid(i, w as int, h as int);
                    let x = i % (w as int);
                    assert(x * (k as int) / (w as int) < k) by (nonlinear_arith)
                        requires
                            0 <= x < w,
                            k >= 1,
                    ;
                }
            }
            self.grid = grid;
        } else if name == "corners".to_owned() {
            let mut grid: Vec<u8> = Vec::with_capacity(n);
            let hw = w / 2;
            let hh = h / 2;
            let mut y: usize = 0;
            while y < h
                invariant
                    y <= h,
                    1 <= k <= 255,
                    hw == w / 2,
                    hh == h / 2,
                    dims_ok(w as int, h as int),
                    n == w * h,
                    grid@.len() == y * w,
                    forall|i: int| 0 <= i < y * w ==> #[trigger] grid@[i] == corners_seed(w as int, h as int, k as int)[i],
                decreases h - y,
            {
                let mut x: usize = 0;
                while x < w
                    invariant
                        x <= w,
                        y < h,
                        1 <= k <= 255,
                        hw == w / 2,
                        hh == h / 2,
                        dims_ok(w as int, h as int),
                        n == w * h,
                        grid@.len() == y * w + x,
                        forall|i: int| 0 <= i < y * w + x ==> #[trigger] grid@[i] == corners_seed(w as int, h as int, k as int)[i],
                    decreases w - x,
                {
                    proof {
                        lemma_flat_in_grid(x as int, y as int, w as int, h as int);
                        lemma_flat_coords(x as int, y as int, w as int);
                    }
                    let state = if x < hw && y < hh {
                        0
                    } else if x >= hw && y < hh {
                        k / 4
                    } else if x < hw && y >= hh {
                        k / 2
                    } else {
                        k * 3 / 4
                    };
                    grid.push(state as u8);
                    x = x + 1;
                }
                proof {
                    assert((y + 1) * w == y * w + w) by (nonlinear_arith);
                }
                y = y + 1;
            }
            proof {
                assert(h * w == w * h) by (nonlinear_arith);
                assert(grid@ =~= corners_seed(w as int, h as int, k as int));
            }
            self.grid = grid;
        } else {
            self.reset();
        }
    }

    /// Changes the board's dimensions and redraws every cell at random on new grids;
    /// refuses (returns `false`, changing nothing) an empty board or one whose cell
    /// count does not fit in `usize`.
    pub fn set_size(&mut self, width: usize, height: usize) -> (ok: bool)
        requires
            old(self).wf(),
        ensures
            final(self).wf(),
            ok == (width > 0 && height > 0 && width * height <= usize::MAX),
            !ok ==> *final(self) == *old(self),
            ok ==> final(self).spec_width() == width && final(self).spec_height() == height,
            final(self).spec_num_states() == old(self).spec_num_states(),
            final(self).spec_threshold() == old(self).spec_threshold(),
            final(self).spec_neighborhood() == old(self).spec_neighborhood(),
    {
        if width == 0 || height == 0 || width > usize::MAX / height {
            proof {
                if width > 0 && height > 0 {
                    assert(width * height > usize::MAX) by (nonlinear_arith)
                        requires
                            width > usize::MAX / height,
                            height > 0,
                    ;
                }
            }
            return false;
        }
        proof {
            assert(width * height <= usize::MAX) by (nonlinear_arith)
                requires
                    width <= usize::MAX / height,
                    height > 0,
            ;
        }
        let n = width * height;
        self.grid_width = width;
        self.grid_height = height;
        self.grid = vec![0u8; n];
        self.next_grid = vec![0u8; n];
        self.reset();
        true
    }

    /// Changes the number of states and redraws every cell at random; refuses
    /// (returns `false`, changing nothing) a count outside `1..=255`.
    pub fn set_num_states(&mut self, num_states: usize) -> (ok: bool)
        requires
            old(self).wf(),
        ensures
            final(self).wf(),
            ok == (1 <= num_states <= 255),
            !ok ==> *final(self) == *old(self),
            ok ==> final(self).spec_num_states() == num_states,
            final(self).spec_width() == old(self).spec_width(),
            final(self).spec_height() == old(self).spec_height(),
            final(self).spec_threshold() == old(self).spec_threshold(),
            final(self).spec_neighborhood() == old(self).spec_neighborhood(),
    {
        if num_states < 1 || num_states > 255 {
            return false;
        }
        let n = self.grid.len();
        self.num_states = num_states;
        self.grid = vec![0u8; n];
        assert forall|i: int| 0 <= i < self.spec_grid().len() implies #[trigger] self.spec_grid()[i] < self.spec_num_states() by {}
        self.reset();
        true
    }

    pub fn set_threshold(&mut self, threshold: usize)
        ensures
            final(self).spec_threshold() == threshold,
            final(self).spec_grid() == old(self).spec_grid(),
            final(self).spec_width() == old(self).spec_width(),
            final(self).spec_height() == old(self).spec_height(),
            final(self).spec_num_states() == old(self).spec_num_states(),
            final(self).spec_neighborhood() == old(self).spec_neighborhood(),
            final(self).spec_color_scheme() == old(self).spec_color_scheme(),
            final(self).scratch_ok() == old(self).scratch_ok(),
    {
        self.threshold = threshold;
    }

    pub fn set_neighborhood(&mut self, neighborhood: Neighborhood)
        ensures
            final(self).spec_neighborhood() == neighborhood,
            final(self).spec_grid() == old(self).spec_grid(),
            final(self).spec_width() == old(self).spec_width(),
            final(self).spec_height() == old(self).spec_height(),
            final(self).spec_num_states() == old(self).spec_num_states(),
            final(self).spec_threshold() == old(self).spec_threshold(),
            final(self).spec_color_scheme() == old(self).spec_color_scheme(),
            final(self).scratch_ok() == old(self).scratch_ok(),
    {
        self.neighborhood = neighborhood;
    }

    pub fn set_color_scheme(&mut self, scheme: ColorScheme)
        ensures
            final(self).spec_color_scheme() == scheme,
            final(self).spec_grid() == old(self).spec_grid(),
            final(self).spec_width() == old(self).spec_width(),
            final(self).spec_height() == old(self).spec_height(),
            final(self).spec_num_states() == old(self).spec_num_states(),
            final(self).spec_threshold() == old(self).spec_threshold(),
            final(self).spec_neighborhood() == old(self).spec_neighborhood(),
            final(self).scratch_ok() == old(self).scratch_ok(),
    {
        self.color_scheme = scheme;
    }

    pub fn grid_width(&self) -> (r: usize)
        ensures
            r == self.spec_width(),
    {
        self.grid_width
    }

    pub fn grid_height(&self) -> (r: usize)
        ensures
            r == self.spec_height(),
    {
        self.grid_height
    }

    pub fn num_states(&self) -> (r: usize)
        ensures
            r == self.spec_num_states(),
    {
        self.num_states
    }

    pub fn threshold(&self) -> (r: usize)
        ensures
            r == self.spec_threshold(),
    {
        self.threshold
    }

    pub fn neighborhood(&self) -> (r: Neighborhood)
        ensures
            r == self.spec_neighborhood(),
    {
        self.neighborhood
    }

    pub fn color_scheme(&self) -> (r: ColorScheme)
        ensures
            r == self.spec_color_scheme(),
    {
        self.color_scheme
    }

    /// State of cell `(x, y)`.
    pub fn state(&self, x: usize, y: usize) -> (r: u8)
        requires
            self.wf(),
            x < self.spec_width(),
            y < self.spec_height(),
        ensures
            r == self.spec_grid()[flat(x as int, y as int, self.spec_width())],
    {
        proof {
            lemma_flat_in_grid(x as int, y as int, self.spec_width(), self.spec_height());
        }
        self.grid[y * self.grid_width + x]
    }

    /// Draws the board on a `width` by `height` canvas, row-major: each cell takes
    /// the colour that `state_color` gives its state.
    pub fn compute<F: Fn(u8) -> Color>(&self, width: usize, height: usize, state_color: &F) -> (r: Vec<Color>)
        requires
            self.wf(),
            width * height <= usize::MAX,
            forall|v: u8| state_color.requires((v,)),
        ensures
            r@.len() == width * height,
            forall|px: int, py: int|
                0 <= px < width && 0 <= py < height ==> match pixel_cell(
                    px,
                    py,
                    width as int,
                    height as int,
                    self.spec_width(),
                    self.spec_height(),
                ) {
                    Some((gx, gy)) => state_color.ensures(
                        (self.spec_grid()[flat(gx, gy, self.spec_width())],),
                        #[trigger] r@[flat(px, py, width as int)],
                    ),
                    None => r@[flat(px, py, width as int)] == black(),
                },
    {
        let cell_color = |gx: usize, gy: usize| -> (c: Color)
            requires
                self.wf(),
                gx < self.spec_width(),
                gy < self.spec_height(),
                forall|v: u8| state_color.requires((v,)),
            ensures
                state_color.ensures((self.spec_grid()[flat(gx as int, gy as int, self.spec_width())],), c),
            { state_color(self.state(gx, gy)) };
        let r = render(width, height, self.grid_width, self.grid_height, &cell_color);
        assert forall|px: int, py: int| 0 <= px < width && 0 <= py < height implies match pixel_cell(
            px,
            py,
            width as int,
            height as int,
            self.spec_width(),
            self.spec_height(),
        ) {
            Some((gx, gy)) => state_color.ensures(
                (self.spec_grid()[flat(gx, gy, self.spec_width())],),
                #[trigger] r@[flat(px, py, width as int)],
            ),
            None => r@[flat(px, py, width as int)] == black(),
        } by {
            let c = r@[flat(px, py, width as int)];
            assert(shows(cell_color, c, px, py, width as int, height as int, self.spec_width(), self.spec_height()));
        }
        r
    }
}

} // verus!
