use vstd::prelude::*;
use crate::color::Color;
use crate::grid::{dims_ok, flat, lemma_flat_coords, lemma_flat_in_grid, wrap, wrap_next, wrap_prev};
use crate::random::random_below;
use crate::raster::{black, pixel_cell, render, shows};

verus! {

/// The neighbourhood number of a cell and its two neighbours: left is the high bit.
pub open spec fn pattern_index(left: bool, center: bool, right: bool) -> u8 {
    ((if left { 4u8 } else { 0u8 }) + (if center { 2u8 } else { 0u8 }) + (if right { 1u8 } else { 0u8 })) as u8
}

/// Wolfram's numbering: bit `i` of the rule is the next state for neighbourhood `i`.
pub open spec fn rule_bit(rule: u8, i: u8) -> bool {
    (rule >> i) & 1u8 == 1u8
}

/// The next state of cell `x` given row `row` of the history, wrapping at the ends.
pub open spec fn next_cell(rule: u8, cells: Seq<bool>, w: int, row: int, x: int) -> bool {
    rule_bit(
        rule,
        pattern_index(
            cells[flat(wrap(x - 1, w), row, w)],
            cells[flat(x, row, w)],
            cells[flat(wrap(x + 1, w), row, w)],
        ),
    )
}

/// An elementary cellular automaton drawn as a history: row `r` is generation `r`.
pub struct CellularAutomaton {
    rule: u8,
    grid_width: usize,
    rows: usize,
    cells: Vec<bool>,
    current_row: usize,
}

impl CellularAutomaton {
    pub closed spec fn spec_rule(&self) -> u8 {
        self.rule
    }

    pub closed spec fn spec_width(&self) -> int {
        self.grid_width as int
    }

    pub closed spec fn spec_rows(&self) -> int {
        self.rows as int
    }

    pub closed spec fn spec_cells(&self) -> Seq<bool> {
        self.cells@
    }

    pub closed spec fn spec_current_row(&self) -> int {
        self.current_row as int
    }

    /// The history covers `rows` rows and the latest generation is one of them.
    pub open spec fn wf(&self) -> bool {
        &&& dims_ok(self.spec_width(), self.spec_rows())
        &&& self.spec_cells().len() == self.spec_width() * self.spec_rows()
        &&& 0 <= self.spec_current_row() < self.spec_rows()
    }

    /// The history with a single live cell in the middle of the first row.
    pub open spec fn seed_history(w: int, rows: int) -> Seq<bool> {
        Seq::new((w * rows) as nat, |i: int| i == w / 2)
    }

    /// A history of `rows` rows of `width` cells under `rule`, started from a single
    /// live cell in the middle of the first row.
    pub fn with_size(rule: u8, width: usize, rows: usize) -> (r: Self)
        requires
            dims_ok(width as int, rows as int),
        ensures
            r.wf(),
            r.spec_rule() == rule,
            r.spec_width() == width,
            r.spec_rows() == rows,
            r.spec_cells() == Self::seed_history(width as int, rows as int),
            r.spec_current_row() == 0,
    {
        let n = width * rows;
        let mut cells = vec![false; n];
        proof {
            lemma_flat_in_grid((width / 2) as int, 0, width as int, rows as int);
        }
        cells.set(width / 2, true);
        assert(cells@ =~= Self::seed_history(width as int, rows as int));
        CellularAutomaton { rule, grid_width: width, rows, cells, current_row: 0 }
    }

    /// Rule `rule` on 150 rows of 200 cells.
    pub fn new(rule: u8) -> (r: Self)
        ensures
            r.wf(),
            r.spec_rule() == rule,
            r.spec_width() == 200,
            r.spec_rows() == 150,
            r.spec_cells() == Self::seed_history(200, 150),
            r.spec_current_row() == 0,
    {
        CellularAutomaton::with_size(rule, 200, 150)
    }

    /// The next state of a cell whose neighbourhood is `(left, center, right)`.
    pub fn apply_rule(&self, left: bool, center: bool, right: bool) -> (r: bool)
        ensures
            r == rule_bit(self.spec_rule(), pattern_index(left, center, right)),
    {
        let index: u8 = (if left { 4u8 } else { 0u8 }) + (if center { 2u8 } else { 0u8 }) + (if right { 1u8 } else { 0u8 });
        (self.rule >> index) & 1 == 1
    }

    /// Computes the next generation into the row after the latest one; once the last
    /// row is filled, does nothing.
    pub fn step(&mut self)
        requires
            old(self).wf(),
        ensures
            final(self).wf(),
            final(self).spec_rule() == old(self).spec_rule(),
            final(self).spec_width() == old(self).spec_width(),
            final(self).spec_rows() == old(self).spec_rows(),
            old(self).spec_current_row() + 1 >= old(self).spec_rows() ==> *final(self) == *old(self),
            old(self).spec_current_row() + 1 < old(self).spec_rows() ==> {
                let w = old(self).spec_width();
                let r = old(self).spec_current_row();
                &&& final(self).spec_current_row() == r + 1
                &&& final(self).spec_cells() == Seq::new(
                    old(self).spec_cells().len(),
                    |i: int|
                        if i / w == r + 1 {
                            next_cell(old(self).spec_rule(), old(self).spec_cells(), w, r, i % w)
                        } else {
                            old(self).spec_cells()[i]
                        },
                )
            },
    {
        if self.current_row + 1 >= self.rows {
            return;
        }
        let w = self.grid_width;
        let prev = self.current_row;
        let next = prev + 1;
        let ghost old_cells = self.spec_cells();
        let ghost target = Seq::new(
            old_cells.len(),
            |i: int| if i / (w as int) == next as int { next_cell(self.rule, old_cells, w as int, prev as int, i % (w as int)) } else { old_cells[i] },
        );
        let mut x: usize = 0;
        while x < w
            invariant
                self.wf(),
                self.spec_rule() == old(self).spec_rule(),
                w == self.spec_width(),
                self.spec_rows() == old(self).spec_rows(),
                self.spec_current_row() == prev,
                next == prev + 1,
                next < self.spec_rows(),
                x <= w,
                old_cells == old(self).spec_cells(),
                self.spec_cells().len() == old_cells.len(),
                target.len() == old_cells.len(),
                target == Seq::new(
                    old_cells.len(),
                    |i: int| if i / (w as int) == next as int { next_cell(self.spec_rule(), old_cells, w as int, prev as int, i % (w as int)) } else { old_cells[i] },
                ),
                forall|i: int| 0 <= i < old_cells.len() && !(i / (w as int) == next && i % (w as int) >= x) ==> #[trigger] self.spec_cells()[i] == target[i],
                forall|i: int| 0 <= i < old_cells.len() && i / (w as int) == next && i % (w as int) >= x ==> #[trigger] self.spec_cells()[i] == old_cells[i],
            decreases w - x,
        {
            let xl = wrap_prev(x, w);
            let xr = wrap_next(x, w);
            proof {
                lemma_flat_in_grid(xl as int, prev as int, w as int, self.spec_rows());
                lemma_flat_in_grid(x as int, prev as int, w as int, self.spec_rows());
                lemma_flat_in_grid(xr as int, prev as int, w as int, self.spec_rows());
                lemma_flat_in_grid(x as int, next as int, w as int, self.spec_rows());
                lemma_flat_coords(xl as int, prev as int, w as int);
                lemma_flat_coords(x as int, prev as int, w as int);
                lemma_flat_coords(xr as int, prev as int, w as int);
                lemma_flat_coords(x as int, next as int, w as int);
            }
            let left = self.cells[prev * w + xl];
            let center = self.cells[prev * w + x];
            let right = self.cells[prev * w + xr];
            let v = self.apply_rule(left, center, right);
            let ghost before = self.spec_cells();
            self.cells.set(next * w + x, v);
            proof {
                assert forall|i: int| 0 <= i < old_cells.len() && !(i / (w as int) == next && i % (w as int) >= x + 1) implies #[trigger] self.spec_cells()[i] == target[i] by {
                    crate::grid::lemma_coords_in_grid(i, w as int, self.spec_rows());
                    if i == flat(x as int, next as int, w as int) {
                    } else {
                        assert(self.spec_cells()[i] == before[i]);
                    }
                }
                assert forall|i: int| 0 <= i < old_cells.len() && i / (w as int) == next && i % (w as int) >= x + 1 implies #[trigger] self.spec_cells()[i] == old_cells[i] by {
                    crate::grid::lemma_coords_in_grid(i, w as int, self.spec_rows());
                    assert(i != flat(x as int, next as int, w as int));
                }
            }
            x = x + 1;
        }
        assert(self.cells@ =~= target);
        self.current_row = next;
    }

    /// Clears the history back to a single live cell in the middle of the first row.
    pub fn reset(&mut self)
        requires
            old(self).wf(),
        ensures
            final(self).wf(),
            final(self).spec_rule() == old(self).spec_rule(),
            final(self).spec_width() == old(self).spec_width(),
            final(self).spec_rows() == old(self).spec_rows(),
            final(self).spec_cells() == Self::seed_history(old(self).spec_width(), old(self).spec_rows()),
            final(self).spec_current_row() == 0,
    {
        let w = self.grid_width;
        let n = self.grid_width * self.rows;
        let mut cells = vec![false; n];
        proof {
            lemma_flat_in_grid((w / 2) as int, 0, w as int, self.spec_rows());
        }
        cells.set(w / 2, true);
        assert(cells@ =~= Self::seed_history(w as int, self.spec_rows()));
        self.cells = cells;
        self.current_row = 0;
    }

    /// Sets the rule and restarts the history from the single-cell seed.
    pub fn set_rule(&mut self, rule: u8)
        requires
            old(self).wf(),
        ensures
            final(self).wf(),
            final(self).spec_rule() == rule,
            final(self).spec_width() == old(self).spec_width(),
            final(self).spec_rows() == old(self).spec_rows(),
            final(self).spec_cells() == Self::seed_history(old(self).spec_width(), old(self).spec_rows()),
            final(self).spec_current_row() == 0,
    {
        self.rule = rule;
        self.reset();
    }

    /// Starts the history over from a first row of random cells; later rows are
    /// cleared.
    pub fn randomize_start(&mut self)
        requires
            old(self).wf(),
        ensures
            final(self).wf(),
            final(self).spec_rule() == old(self).spec_rule(),
            final(self).spec_width() == old(self).spec_width(),
            final(self).spec_rows() == old(self).spec_rows(),
            final(self).spec_current_row() == 0,
            forall|i: int| old(self).spec_width() <= i < final(self).spec_cells().len() ==> !#[trigger] final(self).spec_cells()[i],
    {
        let w = self.grid_width;
        let n = self.grid_width * self.rows;
        let mut cells = vec![false; n];
        proof {
            lemma_flat_in_grid((w - 1) as int, 0, w as int, self.spec_rows());
        }
        let mut x: usize = 0;
        while x < w
            invariant
                x <= w,
                w <= n,
                cells@.len() == n,
                forall|i: int| w <= i < n ==> !#[trigger] cells@[i],
            decreases w - x,
        {
            let bit = random_below(2);
            cells.set(x, bit == 0);
            x = x + 1;
        }
        self.cells = cells;
        self.current_row = 0;
    }

    pub fn rule(&self) -> (r: u8)
        ensures
            r == self.spec_rule(),
    {
        self.rule
    }

    pub fn grid_width(&self) -> (r: usize)
        ensures
            r == self.spec_width(),
    {
        self.grid_width
    }

    pub fn rows(&self) -> (r: usize)
        ensures
            r == self.spec_rows(),
    {
        self.rows
    }

    pub fn current_row(&self) -> (r: usize)
        ensures
            r == self.spec_current_row(),
    {
        self.current_row
    }

    /// Whether cell `x` of row `row` is alive.
    pub fn is_alive(&self, x: usize, row: usize) -> (r: bool)
        requires
            self.wf(),
            x < self.spec_width(),
            row < self.spec_rows(),
        ensures
            r == self.spec_cells()[flat(x as int, row as int, self.spec_width())],
    {
        proof {
            lemma_flat_in_grid(x as int, row as int, self.spec_width(), self.spec_rows());
        }
        self.cells[row * self.grid_width + x]
    }

    /// The colour of a live cell: one per well-known rule, white for the others.
    pub open spec fn live_color(rule: u8) -> Color {
        if rule == 30 {
            Color { r: 255, g: 150, b: 0 }
        } else if rule == 110 {
            Color { r: 100, g: 150, b: 255 }
        } else if rule == 90 {
            Color { r: 255, g: 100, b: 150 }
        } else {
            Color { r: 255, g: 255, b: 255 }
        }
    }

    /// Draws the history on a `width` by `height` canvas, row-major: live cells in
    /// the rule's colour, dead cells and the margin black.
    pub fn compute(&self, width: usize, height: usize) -> (r: Vec<Color>)
        requires
            self.wf(),
            width * height <= usize::MAX,
        ensures
            r@.len() == width * height,
            forall|px: int, py: int|
                0 <= px < width && 0 <= py < height ==> #[trigger] r@[flat(px, py, width as int)] == match pixel_cell(
                    px,
                    py,
                    width as int,
                    height as int,
                    self.spec_width(),
                    self.spec_rows(),
                ) {
                    Some((gx, gy)) => if self.spec_cells()[flat(gx, gy, self.spec_width())] {
                        Self::live_color(self.spec_rule())
                    } else {
                        black()
                    },
                    None => black(),
                },
    {
        let cell_color = |gx: usize, gy: usize| -> (c: Color)
            requires
                self.wf(),
                gx < self.spec_width(),
                gy < self.spec_rows(),
            ensures
                c == if self.spec_cells()[flat(gx as int, gy as int, self.spec_width())] {
                    Self::live_color(self.spec_rule())
                } else {
                    black()
                },
            {
                if self.is_alive(gx, gy) {
                    if self.rule == 30 {
                        Color { r: 255, g: 150, b: 0 }
                    } else if self.rule == 110 {
                        Color { r: 100, g: 150, b: 255 }
                    } else if self.rule == 90 {
                        Color { r: 255, g: 100, b: 150 }
                    } else {
                        Color { r: 255, g: 255, b: 255 }
                    }
                } else {
                    Color { r: 0, g: 0, b: 0 }
                }
            };
        let r = render(width, height, self.grid_width, self.rows, &cell_color);
        assert forall|px: int, py: int| 0 <= px < width && 0 <= py < height implies #[trigger] r@[flat(px, py, width as int)] == match pixel_cell(
            px,
            py,
            width as int,
            height as int,
            self.spec_width(),
            self.spec_rows(),
        ) {
            Some((gx, gy)) => if self.spec_cells()[flat(gx, gy, self.spec_width())] {
                Self::live_color(self.spec_rule())
            } else {
                black()
            },
            None => black(),
        } by {
            let c = r@[flat(px, py, width as int)];
            assert(shows(cell_color, c, px, py, width as int, height as int, self.spec_width(), self.spec_rows()));
        }
        r
    }
}

} // verus!
