use vstd::prelude::*;
use crate::random::random_below;
use crate::color::Color;
use crate::raster::{black, pixel_cell, render, shows};
use crate::grid::{
    dims_ok, flat, lemma_coords_in_grid, lemma_flat_coords, lemma_flat_in_grid, wrap, wrap_next,
    wrap_prev,
};

verus! {

/// A birth/survival rule of the life-like family.
#[derive(Debug, Clone, Copy, PartialEq, Eq, Structural)]
pub enum LifeRule {
    Conway,
    HighLife,
    Seeds,
    LifeWithoutDeath,
    DayAndNight,
    Maze,
}

/// Whether a cell is alive in the next generation under `rule`, given its current
/// state and its number of live neighbours.
pub open spec fn rule_allows(rule: LifeRule, alive: bool, n: int) -> bool {
    match rule {
        LifeRule::Conway => if alive { 2 <= n <= 3 } else { n == 3 },
        LifeRule::HighLife => if alive { 2 <= n <= 3 } else { n == 3 || n == 6 },
        LifeRule::Seeds => !alive && n == 2,
        LifeRule::LifeWithoutDeath => alive || n == 3,
        LifeRule::DayAndNight => if alive {
            (3 <= n <= 4) || (6 <= n <= 8)
        } else {
            n == 3 || (6 <= n <= 8)
        },
        LifeRule::Maze => if alive { 1 <= n <= 5 } else { n == 3 },
    }
}

impl LifeRule {
    pub fn all() -> (r: Vec<LifeRule>)
        ensures
            r@ == seq![
                LifeRule::Conway,
                LifeRule::HighLife,
                LifeRule::Seeds,
                LifeRule::LifeWithoutDeath,
                LifeRule::DayAndNight,
                LifeRule::Maze,
            ],
    {
        let r = vec![
            LifeRule::Conway,
            LifeRule::HighLife,
            LifeRule::Seeds,
            LifeRule::LifeWithoutDeath,
            LifeRule::DayAndNight,
            LifeRule::Maze,
        ];
        assert(r@ =~= seq![
            LifeRule::Conway,
            LifeRule::HighLife,
            LifeRule::Seeds,
            LifeRule::LifeWithoutDeath,
            LifeRule::DayAndNight,
            LifeRule::Maze,
        ]);
        r
    }

    pub open spec fn spec_name(self) -> Seq<char> {
        match self {
            LifeRule::Conway => "Conway (B3/S23)"@,
            LifeRule::HighLife => "HighLife (B36/S23)"@,
            LifeRule::Seeds => "Seeds (B2/S)"@,
            LifeRule::LifeWithoutDeath => "Life Without Death (B3/S012345678)"@,
            LifeRule::DayAndNight => "Day & Night (B3678/S34678)"@,
            LifeRule::Maze => "Maze (B3/S12345)"@,
        }
    }

    pub fn name(&self) -> (r: &str)
        ensures
            r@ == self.spec_name(),
    {
        match self {
            LifeRule::Conway => "Conway (B3/S23)",
            LifeRule::HighLife => "HighLife (B36/S23)",
            LifeRule::Seeds => "Seeds (B2/S)",
            LifeRule::LifeWithoutDeath => "Life Without Death (B3/S012345678)",
            LifeRule::DayAndNight => "Day & Night (B3678/S34678)",
            LifeRule::Maze => "Maze (B3/S12345)",
        }
    }

    pub fn should_live(&self, alive: bool, neighbors: u8) -> (r: bool)
        ensures
            r == rule_allows(*self, alive, neighbors as int),
    {
        match self {
            LifeRule::Conway => if alive {
                2 <= neighbors && neighbors <= 3
            } else {
                neighbors == 3
            },
            LifeRule::HighLife => if alive {
                2 <= neighbors && neighbors <= 3
            } else {
                neighbors == 3 || neighbors == 6
            },
            LifeRule::Seeds => !alive && neighbors == 2,
            LifeRule::LifeWithoutDeath => alive || neighbors == 3,
            LifeRule::DayAndNight => if alive {
                (3 <= neighbors && neighbors <= 4) || (6 <= neighbors && neighbors <= 8)
            } else {
                neighbors == 3 || (6 <= neighbors && neighbors <= 8)
            },
            LifeRule::Maze => if alive {
                1 <= neighbors && neighbors <= 5
            } else {
                neighbors == 3
            },
        }
    }
}

/// Conway's rule: a dead cell with exactly three live neighbours is born, a live
/// cell with two or three survives, and every other count leaves the cell dead.
pub proof fn lemma_conway_rule(alive: bool, n: int)
    ensures
        !alive && n == 3 ==> rule_allows(LifeRule::Conway, alive, n),
        alive && (n == 2 || n == 3) ==> rule_allows(LifeRule::Conway, alive, n),
        !alive && n != 3 ==> !rule_allows(LifeRule::Conway, alive, n),
        alive && n != 2 && n != 3 ==> !rule_allows(LifeRule::Conway, alive, n),
{
}

/// One generation of Conway's rule on the torus: a dead cell with exactly three live
/// neighbours in the previous grid is born, a live cell with two or three survives,
/// and every other cell is dead in the next grid.
pub proof fn lemma_conway_step(cells: Seq<bool>, w: int, h: int, x: int, y: int)
    requires
        dims_ok(w, h),
        cells.len() == w * h,
        0 <= x < w,
        0 <= y < h,
    ensures
        ({
            let n = live_neighbors(cells, w, h, x, y);
            let was = cells[flat(x, y, w)];
            let now = next_generation(LifeRule::Conway, cells, w, h)[flat(x, y, w)];
            &&& !was && n == 3 ==> now
            &&& was && (n == 2 || n == 3) ==> now
            &&& !was && n != 3 ==> !now
            &&& was && n != 2 && n != 3 ==> !now
        }),
{
    lemma_next_generation_cell(LifeRule::Conway, cells, w, h, x, y);
    lemma_conway_rule(cells[flat(x, y, w)], live_neighbors(cells, w, h, x, y));
}

/// Whether the cell at `(x, y)` of a toroidal grid is alive; coordinates wrap.
pub open spec fn alive_at(cells: Seq<bool>, w: int, h: int, x: int, y: int) -> bool {
    cells[flat(wrap(x, w), wrap(y, h), w)]
}

pub open spec fn bit(b: bool) -> int {
    if b { 1 } else { 0 }
}

/// Number of live cells among the eight that surround `(x, y)` on the torus.
pub open spec fn live_neighbors(cells: Seq<bool>, w: int, h: int, x: int, y: int) -> int {
    bit(alive_at(cells, w, h, x - 1, y - 1)) + bit(alive_at(cells, w, h, x, y - 1)) + bit(
        alive_at(cells, w, h, x + 1, y - 1),
    ) + bit(alive_at(cells, w, h, x - 1, y)) + bit(alive_at(cells, w, h, x + 1, y)) + bit(
        alive_at(cells, w, h, x - 1, y + 1),
    ) + bit(alive_at(cells, w, h, x, y + 1)) + bit(alive_at(cells, w, h, x + 1, y + 1))
}

/// The next generation of `cells` under `rule`.
pub open spec fn next_generation(rule: LifeRule, cells: Seq<bool>, w: int, h: int) -> Seq<bool> {
    Seq::new(
        cells.len(),
        |i: int| rule_allows(rule, cells[i], live_neighbors(cells, w, h, i % w, i / w)),
    )
}

/// The ages after one generation: a surviving cell ages by one (saturating), a
/// newborn cell has age one and a dead cell age zero.
pub open spec fn next_ages(
    rule: LifeRule,
    cells: Seq<bool>,
    ages: Seq<u32>,
    w: int,
    h: int,
) -> Seq<u32> {
    Seq::new(
        ages.len(),
        |i: int|
            if !next_generation(rule, cells, w, h)[i] {
                0u32
            } else if cells[i] {
                if ages[i] == u32::MAX { u32::MAX } else { (ages[i] + 1) as u32 }
            } else {
                1u32
            },
    )
}

/// The next generation applies the rule to each cell of the torus: a cell's fate
/// depends only on its own state and its live-neighbour count in the previous grid.
pub proof fn lemma_next_generation_cell(
    rule: LifeRule,
    cells: Seq<bool>,
    w: int,
    h: int,
    x: int,
    y: int,
)
    requires
        dims_ok(w, h),
        cells.len() == w * h,
        0 <= x < w,
        0 <= y < h,
    ensures
        next_generation(rule, cells, w, h)[flat(x, y, w)] == rule_allows(
            rule,
            cells[flat(x, y, w)],
            live_neighbors(cells, w, h, x, y),
        ),
{
    lemma_flat_in_grid(x, y, w, h);
    lemma_flat_coords(x, y, w);
}

/// On the torus the right neighbour of a cell on the last column is the cell of the
/// first column in the same row, so a live cell at `(0, y)` counts for `(w - 1, y)`.
pub proof fn lemma_wrap_right_edge(cells: Seq<bool>, w: int, h: int, y: int)
    requires
        dims_ok(w, h),
        cells.len() == w * h,
        0 <= y < h,
    ensures
        alive_at(cells, w, h, (w - 1) + 1, y) == cells[flat(0, y, w)],
        cells[flat(0, y, w)] ==> live_neighbors(cells, w, h, w - 1, y) >= 1,
{
    crate::grid::lemma_wrap_exact(w, w, 1, 0);
    crate::grid::lemma_wrap_exact(y, h, 0, y);
}

/// The seed patterns that can be stamped onto an empty board.
#[derive(Debug, Clone, Copy, PartialEq, Eq, Structural)]
pub enum Pattern {
    GliderGun,
    Glider,
    Pulsar,
    Pentadecathlon,
    Lwss,
    Acorn,
}

/// The pattern that a name selects, if any.
pub open spec fn pattern_named(s: Seq<char>) -> Option<Pattern> {
    if s == "Glider Gun"@ {
        Some(Pattern::GliderGun)
    } else if s == "Glider"@ {
        Some(Pattern::Glider)
    } else if s == "Pulsar"@ {
        Some(Pattern::Pulsar)
    } else if s == "Pentadecathlon"@ {
        Some(Pattern::Pentadecathlon)
    } else if s == "Lwss"@ {
        Some(Pattern::Lwss)
    } else if s == "Acorn"@ {
        Some(Pattern::Acorn)
    } else {
        None
    }
}

/// Cell offsets `(dx, dy)` of each pattern, relative to its anchor.
pub open spec fn pattern_cells(p: Pattern) -> Seq<(usize, usize)> {
    match p {
        Pattern::GliderGun => seq![
            (1, 5), (1, 6), (2, 5), (2, 6),
            (11, 5), (11, 6), (11, 7),
            (12, 4), (12, 8),
            (13, 3), (13, 9),
            (14, 3), (14, 9),
            (15, 6),
            (16, 4), (16, 8),
            (17, 5), (17, 6), (17, 7),
            (18, 6),
            (21, 3), (21, 4), (21, 5),
            (22, 3), (22, 4), (22, 5),
            (23, 2), (23, 6),
            (25, 1), (25, 2), (25, 6), (25, 7),
            (35, 3), (35, 4), (36, 3), (36, 4),
        ],
        Pattern::Glider => seq![(1, 0), (2, 1), (0, 2), (1, 2), (2, 2)],
        Pattern::Pulsar => seq![
            (2, 0), (3, 0), (4, 0), (8, 0), (9, 0), (10, 0),
            (0, 2), (5, 2), (7, 2), (12, 2),
            (0, 3), (5, 3), (7, 3), (12, 3),
            (0, 4), (5, 4), (7, 4), (12, 4),
            (2, 5), (3, 5), (4, 5), (8, 5), (9, 5), (10, 5),
            (2, 7), (3, 7), (4, 7), (8, 7), (9, 7), (10, 7),
            (0, 8), (5, 8), (7, 8), (12, 8),
            (0, 9), (5, 9), (7, 9), (12, 9),
            (0, 10), (5, 10), (7, 10), (12, 10),
            (2, 12), (3, 12), (4, 12), (8, 12), (9, 12), (10, 12),
        ],
        Pattern::Pentadecathlon => seq![
            (0, 1), (1, 1), (2, 1), (3, 1), (4, 1), (5, 1), (6, 1), (7, 1),
            (0, 0), (2, 0), (5, 0), (7, 0),
            (0, 2), (2, 2), (5, 2), (7, 2),
        ],
        Pattern::Lwss => seq![(1, 0), (4, 0), (0, 1), (0, 2), (4, 2), (0, 3), (1, 3), (2, 3), (3, 3)],
        Pattern::Acorn => seq![(1, 0), (3, 1), (0, 2), (1, 2), (4, 2), (5, 2), (6, 2)],
    }
}

/// `cells` with each offset of `offs`, placed at anchor `(x, y)`, set alive; offsets
/// that fall outside the `w` by `h` grid are skipped.
pub open spec fn stamp(
    cells: Seq<bool>,
    w: int,
    h: int,
    x: int,
    y: int,
    offs: Seq<(usize, usize)>,
) -> Seq<bool>
    decreases offs.len(),
{
    if offs.len() == 0 {
        cells
    } else {
        let prev = stamp(cells, w, h, x, y, offs.drop_last());
        let (dx, dy) = offs.last();
        if x + dx < w && y + dy < h {
            prev.update(flat(x + dx, y + dy, w), true)
        } else {
            prev
        }
    }
}

impl Pattern {
    pub fn from_name(name: &str) -> (r: Option<Pattern>)
        ensures
            r == pattern_named(name@),
    {
        let s = name.to_owned();
        if s == "Glider Gun".to_owned() {
            Some(Pattern::GliderGun)
        } else if s == "Glider".to_owned() {
            Some(Pattern::Glider)
        } else if s == "Pulsar".to_owned() {
            Some(Pattern::Pulsar)
        } else if s == "Pentadecathlon".to_owned() {
            Some(Pattern::Pentadecathlon)
        } else if s == "Lwss".to_owned() {
            Some(Pattern::Lwss)
        } else if s == "Acorn".to_owned() {
            Some(Pattern::Acorn)
        } else {
            None
        }
    }

    pub fn cells(&self) -> (r: Vec<(usize, usize)>)
        ensures
            r@ == pattern_cells(*self),
    {
        let r = match self {
            Pattern::GliderGun => vec![
                (1, 5), (1, 6), (2, 5), (2, 6),
                (11, 5), (11, 6), (11, 7),
                (12, 4), (12, 8),
                (13, 3), (13, 9),
                (14, 3), (14, 9),
                (15, 6),
                (16, 4), (16, 8),
                (17, 5), (17, 6), (17, 7),
                (18, 6),
                (21, 3), (21, 4), (21, 5),
                (22, 3), (22, 4), (22, 5),
                (23, 2), (23, 6),
                (25, 1), (25, 2), (25, 6), (25, 7),
                (35, 3), (35, 4), (36, 3), (36, 4),
            ],
            Pattern::Glider => vec![(1, 0), (2, 1), (0, 2), (1, 2), (2, 2)],
            Pattern::Pulsar => vec![
                (2, 0), (3, 0), (4, 0), (8, 0), (9, 0), (10, 0),
                (0, 2), (5, 2), (7, 2), (12, 2),
                (0, 3), (5, 3), (7, 3), (12, 3),
                (0, 4), (5, 4), (7, 4), (12, 4),
                (2, 5), (3, 5), (4, 5), (8, 5), (9, 5), (10, 5),
                (2, 7), (3, 7), (4, 7), (8, 7), (9, 7), (10, 7),
                (0, 8), (5, 8), (7, 8), (12, 8),
                (0, 9), (5, 9), (7, 9), (12, 9),
                (0, 10), (5, 10), (7, 10), (12, 10),
                (2, 12), (3, 12), (4, 12), (8, 12), (9, 12), (10, 12),
            ],
            Pattern::Pentadecathlon => vec![
                (0, 1), (1, 1), (2, 1), (3, 1), (4, 1), (5, 1), (6, 1), (7, 1),
                (0, 0), (2, 0), (5, 0), (7, 0),
                (0, 2), (2, 2), (5, 2), (7, 2),
            ],
            Pattern::Lwss => vec![(1, 0), (4, 0), (0, 1), (0, 2), (4, 2), (0, 3), (1, 3), (2, 3), (3, 3)],
            Pattern::Acorn => vec![(1, 0), (3, 1), (0, 2), (1, 2), (4, 2), (5, 2), (6, 2)],
        };
        assert(r@ =~= pattern_cells(*self));
        r
    }
}

/// A life-like automaton on a toroidal grid, with the age of each live cell.
pub struct GameOfLife {
    grid_width: usize,
    grid_height: usize,
    cells: Vec<bool>,
    cell_age: Vec<u32>,
    rule: LifeRule,
    show_age: bool,
    paused: bool,
    generation: u64,
}

impl GameOfLife {
    pub closed spec fn spec_width(&self) -> int {
        self.grid_width as int
    }

    pub closed spec fn spec_height(&self) -> int {
        self.grid_height as int
    }

    pub closed spec fn spec_cells(&self) -> Seq<bool> {
        self.cells@
    }

    pub closed spec fn spec_ages(&self) -> Seq<u32> {
        self.cell_age@
    }

    pub closed spec fn spec_generation(&self) -> u64 {
        self.generation
    }

    pub closed spec fn spec_rule(&self) -> LifeRule {
        self.rule
    }

    pub closed spec fn spec_show_age(&self) -> bool {
        self.show_age
    }

    pub closed spec fn spec_paused(&self) -> bool {
        self.paused
    }

    /// Rule and display settings are those of `o`.
    pub open spec fn same_settings(&self, o: &Self) -> bool {
        &&& self.spec_rule() == o.spec_rule()
        &&& self.spec_show_age() == o.spec_show_age()
        &&& self.spec_paused() == o.spec_paused()
    }

    /// The grids hold one entry per cell of a non-empty board.
    pub open spec fn wf(&self) -> bool {
        &&& dims_ok(self.spec_width(), self.spec_height())
        &&& self.spec_cells().len() == self.spec_width() * self.spec_height()
        &&& self.spec_ages().len() == self.spec_width() * self.spec_height()
    }

    /// A board of `width` by `height` dead cells.
    pub fn with_size(width: usize, height: usize) -> (s: Self)
        requires
            dims_ok(width as int, height as int),
        ensures
            s.wf(),
            s.spec_width() == width,
            s.spec_height() == height,
            s.spec_cells() == Seq::new((width * height) as nat, |i: int| false),
            s.spec_ages() == Seq::new((width * height) as nat, |i: int| 0u32),
            s.spec_generation() == 0,
            s.spec_rule() == LifeRule::Conway,
            !s.spec_show_age(),
            !s.spec_paused(),
    {
        let n = width * height;
        let cells = vec![false; n];
        let cell_age = vec![0u32; n];
        assert(cells@ =~= Seq::new(n as nat, |i: int| false));
        assert(cell_age@ =~= Seq::new(n as nat, |i: int| 0u32));
        GameOfLife {
            grid_width: width,
            grid_height: height,
            cells,
            cell_age,
            rule: LifeRule::Conway,
            show_age: false,
            paused: false,
            generation: 0,
        }
    }

    /// A 120 by 120 board seeded with a glider gun anchored at `(10, 10)`.
    pub fn new() -> (s: Self)
        ensures
            s.wf(),
            s.spec_width() == 120,
            s.spec_height() == 120,
            s.spec_cells() == stamp(
                Seq::new(14400, |i: int| false),
                120,
                120,
                10,
                10,
                pattern_cells(Pattern::GliderGun),
            ),
            s.spec_ages() == Seq::new(14400, |i: int| 0u32),
            s.spec_generation() == 0,
            s.spec_rule() == LifeRule::Conway,
    {
        let mut s = GameOfLife::with_size(120, 120);
        s.stamp_pattern(Pattern::GliderGun, 10, 10);
        s
    }

    pub fn grid_width(&self) -> (r: usize)
        ensures
            r == self.spec_width(),
    {
        self.grid_width
    }

    pub fn grid_height(&self) -> (r: usize)
        ensures
            r == self.spec_height(),
    {
        self.grid_height
    }

    pub fn generation(&self) -> (r: u64)
        ensures
            r == self.spec_generation(),
    {
        self.generation
    }

    pub fn is_alive(&self, x: usize, y: usize) -> (r: bool)
        requires
            self.wf(),
            x < self.spec_width(),
            y < self.spec_height(),
        ensures
            r == self.spec_cells()[flat(x as int, y as int, self.spec_width())],
    {
        proof {
            lemma_flat_in_grid(x as int, y as int, self.spec_width(), self.spec_height());
        }
        self.cells[y * self.grid_width + x]
    }

    pub fn age(&self, x: usize, y: usize) -> (r: u32)
        requires
            self.wf(),
            x < self.spec_width(),
            y < self.spec_height(),
        ensures
            r == self.spec_ages()[flat(x as int, y as int, self.spec_width())],
    {
        proof {
            lemma_flat_in_grid(x as int, y as int, self.spec_width(), self.spec_height());
        }
        self.cell_age[y * self.grid_width + x]
    }

    /// Sets the cell at `(x, y)` alive or dead.
    pub fn set_cell(&mut self, x: usize, y: usize, alive: bool)
        requires
            old(self).wf(),
            x < old(self).spec_width(),
            y < old(self).spec_height(),
        ensures
            final(self).wf(),
            final(self).spec_cells() == old(self).spec_cells().update(
                flat(x as int, y as int, old(self).spec_width()),
                alive,
            ),
            final(self).spec_width() == old(self).spec_width(),
            final(self).spec_height() == old(self).spec_height(),
            final(self).spec_ages() == old(self).spec_ages(),
            final(self).spec_generation() == old(self).spec_generation(),
            final(self).same_settings(&*old(self)),
    {
        proof {
            lemma_flat_in_grid(x as int, y as int, self.spec_width(), self.spec_height());
        }
        let idx = y * self.grid_width + x;
        self.cells.set(idx, alive);
    }

    fn read(&self, x: usize, y: usize) -> (r: u8)
        requires
            self.wf(),
            x < self.spec_width(),
            y < self.spec_height(),
        ensures
            r as int == bit(alive_at(self.spec_cells(), self.spec_width(), self.spec_height(), x as int, y as int)),
    {
        proof {
            lemma_flat_in_grid(x as int, y as int, self.spec_width(), self.spec_height());
            crate::grid::lemma_wrap_exact(x as int, self.spec_width(), 0, x as int);
            crate::grid::lemma_wrap_exact(y as int, self.spec_height(), 0, y as int);
        }
        if self.cells[y * self.grid_width + x] {
            1
        } else {
            0
        }
    }

    /// Live neighbours of `(x, y)` among its eight surrounding cells, wrapping at
    /// the edges.
    pub fn count_neighbors(&self, x: usize, y: usize) -> (r: u8)
        requires
            self.wf(),
            x < self.spec_width(),
            y < self.spec_height(),
        ensures
            r as int == live_neighbors(self.spec_cells(), self.spec_width(), self.spec_height(), x as int, y as int),
            r <= 8,
    {
        let w = self.grid_width;
        let h = self.grid_height;
        let xp = wrap_prev(x, w);
        let xn = wrap_next(x, w);
        let yp = wrap_prev(y, h);
        let yn = wrap_next(y, h);
        proof {
            let (wi, hi) = (w as int, h as int);
            // Wrapping an already wrapped coordinate changes nothing, so each
            // neighbour read below is the neighbour that the model names.
            assert(wrap(xp as int, wi) == wrap(x - 1, wi)) by {
                crate::grid::lemma_wrap_exact(xp as int, wi, 0, xp as int);
            }
            assert(wrap(xn as int, wi) == wrap(x + 1, wi)) by {
                crate::grid::lemma_wrap_exact(xn as int, wi, 0, xn as int);
            }
            assert(wrap(yp as int, hi) == wrap(y - 1, hi)) by {
                crate::grid::lemma_wrap_exact(yp as int, hi, 0, yp as int);
            }
            assert(wrap(yn as int, hi) == wrap(y + 1, hi)) by {
                crate::grid::lemma_wrap_exact(yn as int, hi, 0, yn as int);
            }
            crate::grid::lemma_wrap_exact(x as int, wi, 0, x as int);
            crate::grid::lemma_wrap_exact(y as int, hi, 0, y as int);
        }
        let a = self.read(xp, yp);
        let b = self.read(x, yp);
        let c = self.read(xn, yp);
        let d = self.read(xp, y);
        let e = self.read(xn, y);
        let f = self.read(xp, yn);
        let g = self.read(x, yn);
        let k = self.read(xn, yn);
        a + b + c + d + e + f + g + k
    }

    /// Sets alive every cell of pattern `p` anchored at `(x, y)` that lies on the board.
    pub fn stamp_pattern(&mut self, p: Pattern, x: usize, y: usize)
        requires
            old(self).wf(),
        ensures
            final(self).wf(),
            final(self).spec_cells() == stamp(
                old(self).spec_cells(),
                old(self).spec_width(),
                old(self).spec_height(),
                x as int,
                y as int,
                pattern_cells(p),
            ),
            final(self).spec_width() == old(self).spec_width(),
            final(self).spec_height() == old(self).spec_height(),
            final(self).spec_ages() == old(self).spec_ages(),
            final(self).spec_generation() == old(self).spec_generation(),
            final(self).same_settings(&*old(self)),
    {
        let offs = p.cells();
        let w = self.grid_width;
        let h = self.grid_height;
        let ghost start = self.spec_cells();
        let mut k: usize = 0;
        assert(offs@.take(0).len() == 0);
        while k < offs.len()
            invariant
                self.wf(),
                0 <= k <= offs@.len(),
                w == self.spec_width(),
                h == self.spec_height(),
                self.spec_width() == old(self).spec_width(),
                self.spec_height() == old(self).spec_height(),
                self.spec_ages() == old(self).spec_ages(),
                self.spec_generation() == old(self).spec_generation(),
                self.same_settings(&*old(self)),
                start == old(self).spec_cells(),
                offs@ == pattern_cells(p),
                self.spec_cells() == stamp(start, w as int, h as int, x as int, y as int, offs@.take(k as int)),
            decreases offs.len() - k,
        {
            let (dx, dy) = offs[k];
            assert(offs@.take(k + 1).drop_last() =~= offs@.take(k as int));
            assert(offs@.take(k + 1).last() == offs@[k as int]);
            if x < w && dx < w - x && y < h && dy < h - y {
                self.set_cell(x + dx, y + dy, true);
            }
            k = k + 1;
        }
        assert(offs@.take(offs@.len() as int) =~= offs@);
    }

    /// Kills every cell; ages and the generation counter are kept.
    pub fn clear(&mut self)
        requires
            old(self).wf(),
        ensures
            final(self).wf(),
            final(self).spec_cells() == Seq::new(old(self).spec_cells().len(), |i: int| false),
            final(self).spec_width() == old(self).spec_width(),
            final(self).spec_height() == old(self).spec_height(),
            final(self).spec_ages() == old(self).spec_ages(),
            final(self).spec_generation() == old(self).spec_generation(),
            final(self).same_settings(&*old(self)),
    {
        let n = self.cells.len();
        self.cells = vec![false; n];
        assert(self.cells@ =~= Seq::new(n as nat, |i: int| false));
    }

    /// Clears the board, stamps the pattern that `pattern` names (at `(10, 10)` for
    /// the glider gun, at the board's centre for the others; an unknown name stamps
    /// nothing) and restarts the generation count.
    pub fn add_pattern(&mut self, pattern: &str)
        requires
            old(self).wf(),
        ensures
            final(self).wf(),
            final(self).spec_cells() == ({
                let w = old(self).spec_width();
                let h = old(self).spec_height();
                let empty = Seq::new(old(self).spec_cells().len(), |i: int| false);
                match pattern_named(pattern@) {
                    Some(Pattern::GliderGun) => stamp(empty, w, h, 10, 10, pattern_cells(Pattern::GliderGun)),
                    Some(p) => stamp(empty, w, h, w / 2, h / 2, pattern_cells(p)),
                    None => empty,
                }
            }),
            final(self).spec_width() == old(self).spec_width(),
            final(self).spec_height() == old(self).spec_height(),
            final(self).spec_ages() == old(self).spec_ages(),
            final(self).spec_generation() == 0,
            final(self).same_settings(&*old(self)),
    {
        self.clear();
        let cx = self.grid_width / 2;
        let cy = self.grid_height / 2;
        match Pattern::from_name(pattern) {
            Some(Pattern::GliderGun) => self.stamp_pattern(Pattern::GliderGun, 10, 10),
            Some(p) => self.stamp_pattern(p, cx, cy),
            None => {},
        }
        self.generation = 0;
    }

    /// Advances one generation: every cell's next state is computed from the
    /// previous grid only, then both grids are replaced at once.
    pub fn step(&mut self)
        requires
            old(self).wf(),
        ensures
            final(self).wf(),
            final(self).spec_cells() == next_generation(
                old(self).spec_rule(),
                old(self).spec_cells(),
                old(self).spec_width(),
                old(self).spec_height(),
            ),
            final(self).spec_ages() == next_ages(
                old(self).spec_rule(),
                old(self).spec_cells(),
                old(self).spec_ages(),
                old(self).spec_width(),
                old(self).spec_height(),
            ),
            final(self).spec_generation() == if old(self).spec_generation() == u64::MAX {
                u64::MAX
            } else {
                (old(self).spec_generation() + 1) as u64
            },
            final(self).spec_width() == old(self).spec_width(),
            final(self).spec_height() == old(self).spec_height(),
            final(self).same_settings(&*old(self)),
    {
        let w = self.grid_width;
        let h = self.grid_height;
        let ghost cells = self.spec_cells();
        let ghost ages = self.spec_ages();
        let ghost next = next_generation(self.rule, cells, w as int, h as int);
        let ghost next_age = next_ages(self.rule, cells, ages, w as int, h as int);
        let mut new_cells: Vec<bool> = Vec::with_capacity(w * h);
        let mut new_age: Vec<u32> = Vec::with_capacity(w * h);
        let mut y: usize = 0;
        while y < h
            invariant
                self.wf(),
                w == self.spec_width(),
                h == self.spec_height(),
                cells == self.spec_cells(),
                ages == self.spec_ages(),
                next == next_generation(self.rule, cells, w as int, h as int),
                next_age == next_ages(self.rule, cells, ages, w as int, h as int),
                next.len() == w * h,
                next_age.len() == w * h,
                y <= h,
                new_cells@.len() == y * w,
                new_age@.len() == y * w,
                forall|i: int| 0 <= i < y * w ==> new_cells@[i] == next[i],
                forall|i: int| 0 <= i < y * w ==> new_age@[i] == next_age[i],
            decreases h - y,
        {
            let mut x: usize = 0;
            while x < w
                invariant
                    self.wf(),
                    w == self.spec_width(),
                    h == self.spec_height(),
                    cells == self.spec_cells(),
                    ages == self.spec_ages(),
                    next == next_generation(self.rule, cells, w as int, h as int),
                    next_age == next_ages(self.rule, cells, ages, w as int, h as int),
                    next.len() == w * h,
                    next_age.len() == w * h,
                    y < h,
                    x <= w,
                    new_cells@.len() == y * w + x,
                    new_age@.len() == y * w + x,
                    forall|i: int| 0 <= i < y * w + x ==> new_cells@[i] == next[i],
                    forall|i: int| 0 <= i < y * w + x ==> new_age@[i] == next_age[i],
                decreases w - x,
            {
                proof {
                    lemma_flat_in_grid(x as int, y as int, w as int, h as int);
                    lemma_next_generation_cell(self.rule, cells, w as int, h as int, x as int, y as int);
                }
                let idx = y * w + x;
                let neighbors = self.count_neighbors(x, y);
                let was_alive = self.cells[idx];
                let alive = self.rule.should_live(was_alive, neighbors);
                let age = if alive {
                    if was_alive {
                        self.cell_age[idx].saturating_add(1)
                    } else {
                        1
                    }
                } else {
                    0
                };
                new_cells.push(alive);
                new_age.push(age);
                x = x + 1;
            }
            proof {
                assert((y + 1) * w == y * w + w) by (nonlinear_arith);
            }
            y = y + 1;
        }
        assert(h * w == w * h) by (nonlinear_arith);
        assert(new_cells@ =~= next);
        assert(new_age@ =~= next_age);
        self.cells = new_cells;
        self.cell_age = new_age;
        self.generation = self.generation.saturating_add(1);
    }

    /// Makes each cell alive exactly where its draw, a number below three, is zero;
    /// ages and the generation counter are kept.
    pub fn randomize_with(&mut self, draws: &Vec<usize>)
        requires
            old(self).wf(),
            draws@.len() == old(self).spec_cells().len(),
        ensures
            final(self).wf(),
            final(self).spec_cells() == Seq::new(old(self).spec_cells().len(), |i: int| draws@[i] == 0),
            final(self).spec_width() == old(self).spec_width(),
            final(self).spec_height() == old(self).spec_height(),
            final(self).spec_ages() == old(self).spec_ages(),
            final(self).spec_generation() == old(self).spec_generation(),
            final(self).same_settings(&*old(self)),
    {
        let n = self.cells.len();
        let mut i: usize = 0;
        while i < n
            invariant
                self.wf(),
                n == self.spec_cells().len(),
                n == draws@.len(),
                i <= n,
                self.spec_width() == old(self).spec_width(),
                self.spec_height() == old(self).spec_height(),
                self.spec_ages() == old(self).spec_ages(),
                self.spec_generation() == old(self).spec_generation(),
                self.same_settings(&*old(self)),
                forall|j: int| 0 <= j < i ==> #[trigger] self.spec_cells()[j] == (draws@[j] == 0),
            decreases n - i,
        {
            self.cells.set(i, draws[i] == 0);
            i = i + 1;
        }
        assert(self.spec_cells() =~= Seq::new(old(self).spec_cells().len(), |i: int| draws@[i] == 0));
    }

    /// Makes each cell alive with probability one in three, independently; ages and
    /// the generation counter are kept.
    pub fn randomize(&mut self)
        requires
            old(self).wf(),
        ensures
            final(self).wf(),
            final(self).spec_cells().len() == old(self).spec_cells().len(),
            final(self).spec_width() == old(self).spec_width(),
            final(self).spec_height() == old(self).spec_height(),
            final(self).spec_ages() == old(self).spec_ages(),
            final(self).spec_generation() == old(self).spec_generation(),
            final(self).same_settings(&*old(self)),
    {
        let n = self.cells.len();
        let mut draws: Vec<usize> = Vec::with_capacity(n);
        let mut i: usize = 0;
        while i < n
            invariant
                i <= n,
                draws@.len() == i,
            decreases n - i,
        {
            draws.push(random_below(3));
            i = i + 1;
        }
        self.randomize_with(&draws);
    }

    pub fn rule(&self) -> (r: LifeRule)
        ensures
            r == self.spec_rule(),
    {
        self.rule
    }

    pub fn set_rule(&mut self, rule: LifeRule)
        ensures
            final(self).spec_rule() == rule,
            final(self).spec_show_age() == old(self).spec_show_age(),
            final(self).spec_paused() == old(self).spec_paused(),
            final(self).spec_cells() == old(self).spec_cells(),
            final(self).spec_ages() == old(self).spec_ages(),
            final(self).spec_width() == old(self).spec_width(),
            final(self).spec_height() == old(self).spec_height(),
            final(self).spec_generation() == old(self).spec_generation(),
    {
        self.rule = rule;
    }

    pub fn show_age(&self) -> (r: bool)
        ensures
            r == self.spec_show_age(),
    {
        self.show_age
    }

    pub fn set_show_age(&mut self, show_age: bool)
        ensures
            final(self).spec_show_age() == show_age,
            final(self).spec_rule() == old(self).spec_rule(),
            final(self).spec_paused() == old(self).spec_paused(),
            final(self).spec_cells() == old(self).spec_cells(),
            final(self).spec_ages() == old(self).spec_ages(),
            final(self).spec_width() == old(self).spec_width(),
            final(self).spec_height() == old(self).spec_height(),
            final(self).spec_generation() == old(self).spec_generation(),
    {
        self.show_age = show_age;
    }

    pub fn paused(&self) -> (r: bool)
        ensures
            r == self.spec_paused(),
    {
        self.paused
    }

    pub fn set_paused(&mut self, paused: bool)
        ensures
            final(self).spec_paused() == paused,
            final(self).spec_rule() == old(self).spec_rule(),
            final(self).spec_show_age() == old(self).spec_show_age(),
            final(self).spec_cells() == old(self).spec_cells(),
            final(self).spec_ages() == old(self).spec_ages(),
            final(self).spec_width() == old(self).spec_width(),
            final(self).spec_height() == old(self).spec_height(),
            final(self).spec_generation() == old(self).spec_generation(),
    {
        self.paused = paused;
    }

    /// Restarts the generation count at zero.
    pub fn reset_generation(&mut self)
        ensures
            final(self).spec_generation() == 0,
            final(self).same_settings(&*old(self)),
            final(self).spec_cells() == old(self).spec_cells(),
            final(self).spec_ages() == old(self).spec_ages(),
            final(self).spec_width() == old(self).spec_width(),
            final(self).spec_height() == old(self).spec_height(),
    {
        self.generation = 0;
    }

    /// Whether `c` is the colour of cell `(gx, gy)`: black when dead; when alive,
    /// green, or with ages shown the colour that `age_color` gives the age capped at 50.
    pub open spec fn shows_cell<F: Fn(u32) -> Color>(&self, age_color: F, gx: int, gy: int, c: Color) -> bool {
        let i = flat(gx, gy, self.spec_width());
        if !self.spec_cells()[i] {
            c == black()
        } else if !self.spec_show_age() {
            c == (Color { r: 0, g: 255, b: 100 })
        } else {
            let a = self.spec_ages()[i];
            age_color.ensures((if a > 50 { 50u32 } else { a },), c)
        }
    }

    /// Draws the board on a `width` by `height` canvas, row-major.
    pub fn compute<F: Fn(u32) -> Color>(&self, width: usize, height: usize, age_color: &F) -> (r: Vec<Color>)
        requires
            self.wf(),
            width * height <= usize::MAX,
            forall|a: u32| a <= 50 ==> age_color.requires((a,)),
        ensures
            r@.len() == width * height,
            forall|px: int, py: int|
                0 <= px < width && 0 <= py < height ==> match pixel_cell(
                    px,
                    py,
                    width as int,
                    height as int,
                    self.spec_width(),
                    self.spec_height(),
                ) {
                    Some((gx, gy)) => self.shows_cell(*age_color, gx, gy, #[trigger] r@[flat(px, py, width as int)]),
                    None => r@[flat(px, py, width as int)] == black(),
                },
    {
        let cell_color = |gx: usize, gy: usize| -> (c: Color)
            requires
                self.wf(),
                gx < self.spec_width(),
                gy < self.spec_height(),
                forall|a: u32| a <= 50 ==> age_color.requires((a,)),
            ensures
                self.shows_cell(*age_color, gx as int, gy as int, c),
            {
                if !self.is_alive(gx, gy) {
                    Color { r: 0, g: 0, b: 0 }
                } else if !self.show_age {
                    Color { r: 0, g: 255, b: 100 }
                } else {
                    let a = self.age(gx, gy);
                    age_color(if a > 50 { 50 } else { a })
                }
            };
        let r = render(width, height, self.grid_width, self.grid_height, &cell_color);
        assert forall|px: int, py: int| 0 <= px < width && 0 <= py < height implies match pixel_cell(
            px,
            py,
            width as int,
            height as int,
            self.spec_width(),
            self.spec_height(),
        ) {
            Some((gx, gy)) => self.shows_cell(*age_color, gx, gy, #[trigger] r@[flat(px, py, width as int)]),
            None => r@[flat(px, py, width as int)] == black(),
        } by {
            let c = r@[flat(px, py, width as int)];
            assert(shows(cell_color, c, px, py, width as int, height as int, self.spec_width(), self.spec_height()));
        }
        r
    }
}

} // verus!
