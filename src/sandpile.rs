use vstd::prelude::*;
use crate::color::{Color, ColorScheme};
use crate::raster::{black, pixel_cell, render, shows};
use crate::random::random_below;
use crate::grid::{dims_ok, flat, lemma_coords_in_grid, lemma_flat_coords, lemma_flat_in_grid};

verus! {

/// One more grain, holding at the byte's maximum.
pub open spec fn add_grain(v: u8) -> u8 {
    if v == u8::MAX { v } else { (v + 1) as u8 }
}

/// Cell `j` gains a grain when `inside` holds; a grain that would land outside the
/// grid is lost.
pub open spec fn gain(g: Seq<u8>, j: int, inside: bool) -> Seq<u8> {
    if inside {
        g.update(j, add_grain(g[j]))
    } else {
        g
    }
}

/// Toppling cell `i`: it loses `cm` grains and each of its four neighbours that
/// lies inside the grid gains one.
pub open spec fn topple(g: Seq<u8>, w: int, cm: u8, i: int) -> Seq<u8> {
    let g1 = g.update(i, (g[i] - cm) as u8);
    let g2 = gain(g1, i - 1, i % w > 0);
    let g3 = gain(g2, i + 1, i % w < w - 1);
    let g4 = gain(g3, i - w, i >= w);
    gain(g4, i + w, i + w < g.len())
}

/// The grid after toppling the cells of `s` in order.
pub open spec fn run(g: Seq<u8>, w: int, cm: u8, s: Seq<int>) -> Seq<u8>
    decreases s.len(),
{
    if s.len() == 0 {
        g
    } else {
        topple(run(g, w, cm, s.drop_last()), w, cm, s.last())
    }
}

/// Whether `s` is a sequence of legal topplings from `g`: each toppled cell holds
/// at least `cm` grains when its turn comes.
pub open spec fn legal(g: Seq<u8>, w: int, cm: u8, s: Seq<int>) -> bool
    decreases s.len(),
{
    if s.len() == 0 {
        true
    } else {
        &&& legal(g, w, cm, s.drop_last())
        &&& 0 <= s.last() < g.len()
        &&& run(g, w, cm, s.drop_last())[s.last()] >= cm
    }
}

/// No cell holds `cm` grains or more.
pub open spec fn stable(g: Seq<u8>, cm: u8) -> bool {
    forall|i: int| 0 <= i < g.len() ==> g[i] < cm
}

/// Weight of cell `(x, y)` in the potential that every toppling lowers: a quadratic
/// that vanishes one step beyond each side of the grid.
pub open spec fn weight_at(x: int, y: int, w: int, h: int) -> int {
    (x + 1) * (w - x) + (y + 1) * (h - y)
}

pub open spec fn term(g: Seq<u8>, w: int, h: int, i: int) -> int {
    weight_at(i % w, i / w, w, h) * g[i]
}

/// Weighted grain count of the first `n` cells.
pub open spec fn potential_upto(g: Seq<u8>, w: int, h: int, n: int) -> int
    decreases n,
{
    if n <= 0 {
        0
    } else {
        potential_upto(g, w, h, n - 1) + term(g, w, h, n - 1)
    }
}

pub open spec fn potential(g: Seq<u8>, w: int, h: int) -> int {
    potential_upto(g, w, h, g.len() as int)
}

proof fn lemma_weight_nonneg(x: int, y: int, w: int, h: int)
    requires
        -1 <= x <= w,
        -1 <= y <= h,
    ensures
        weight_at(x, y, w, h) >= 0,
{
    assert((x + 1) * (w - x) >= 0) by (nonlinear_arith)
        requires
            -1 <= x <= w,
    ;
    assert((y + 1) * (h - y) >= 0) by (nonlinear_arith)
        requires
            -1 <= y <= h,
    ;
}

proof fn lemma_potential_nonneg(g: Seq<u8>, w: int, h: int, n: int)
    requires
        w > 0,
        h > 0,
        g.len() == w * h,
        n <= g.len(),
    ensures
        potential_upto(g, w, h, n) >= 0,
    decreases n,
{
    if n > 0 {
        lemma_potential_nonneg(g, w, h, n - 1);
        let i = n - 1;
        lemma_coords_in_grid(i, w, h);
        lemma_weight_nonneg(i % w, i / w, w, h);
        let a = weight_at(i % w, i / w, w, h);
        let b = g[i] as int;
        assert(a * b >= 0) by (nonlinear_arith)
            requires
                a >= 0,
                b >= 0,
        ;
    }
}

proof fn lemma_potential_update(g: Seq<u8>, w: int, h: int, n: int, j: int, v: u8)
    requires
        0 <= j < g.len(),
        0 <= n <= g.len(),
    ensures
        potential_upto(g.update(j, v), w, h, n) == potential_upto(g, w, h, n) + if j < n {
            term(g.update(j, v), w, h, j) - term(g, w, h, j)
        } else {
            0
        },
    decreases n,
{
    if n > 0 {
        lemma_potential_update(g, w, h, n - 1, j, v);
    }
}

/// Adding a grain at `j` raises the potential by at most the weight there.
proof fn lemma_potential_add_grain(g: Seq<u8>, w: int, h: int, j: int)
    requires
        w > 0,
        h > 0,
        g.len() == w * h,
        0 <= j < g.len(),
    ensures
        potential(g.update(j, add_grain(g[j])), w, h) <= potential(g, w, h) + weight_at(j % w, j / w, w, h),
        potential(g.update(j, add_grain(g[j])), w, h) >= potential(g, w, h),
{
    lemma_potential_update(g, w, h, g.len() as int, j, add_grain(g[j]));
    lemma_coords_in_grid(j, w, h);
    lemma_weight_nonneg(j % w, j / w, w, h);
    let a = weight_at(j % w, j / w, w, h);
    let b = g[j] as int;
    let c = add_grain(g[j]) as int;
    assert(a * c - a * b <= a && a * c - a * b >= 0) by (nonlinear_arith)
        requires
            a >= 0,
            b <= c <= b + 1,
    ;
}

/// A grain that may go to cell `(x, y)`, which lies inside the grid when `inside`
/// holds and at most one step beyond its side otherwise, raises the potential by at
/// most the weight there.
proof fn lemma_potential_gain(g: Seq<u8>, w: int, h: int, j: int, inside: bool, x: int, y: int)
    requires
        w > 0,
        h > 0,
        g.len() == w * h,
        -1 <= x <= w,
        -1 <= y <= h,
        inside ==> 0 <= x < w && 0 <= y < h && j == flat(x, y, w),
    ensures
        gain(g, j, inside).len() == g.len(),
        potential(gain(g, j, inside), w, h) <= potential(g, w, h) + weight_at(x, y, w, h),
{
    lemma_weight_nonneg(x, y, w, h);
    if inside {
        lemma_flat_in_grid(x, y, w, h);
        lemma_flat_coords(x, y, w);
        lemma_potential_add_grain(g, w, h, j);
    }
}

/// Each toppling lowers the potential when the critical mass is at least four: the
/// weights of the four neighbours, counted with those beyond the grid, add up to
/// four times the centre's weight, less four.
pub proof fn lemma_topple_lowers_potential(g: Seq<u8>, w: int, h: int, cm: u8, i: int)
    requires
        w >= 1,
        h >= 1,
        g.len() == w * h,
        0 <= i < g.len(),
        cm >= 4,
        g[i] >= cm,
    ensures
        potential(topple(g, w, cm, i), w, h) < potential(g, w, h),
        topple(g, w, cm, i).len() == g.len(),
{
    lemma_coords_in_grid(i, w, h);
    let x = i % w;
    let y = i / w;
    assert((i >= w <==> y >= 1) && (i + w < w * h <==> y + 1 < h)) by (nonlinear_arith)
        requires
            i == y * w + x,
            0 <= x < w,
            0 <= y < h,
    ;
    assert(flat(x, y - 1, w) == i - w && flat(x, y + 1, w) == i + w && flat(x - 1, y, w) == i - 1
        && flat(x + 1, y, w) == i + 1) by (nonlinear_arith)
        requires
            i == flat(x, y, w),
    ;
    let wc = weight_at(x, y, w, h);
    let wl = weight_at(x - 1, y, w, h);
    let wr = weight_at(x + 1, y, w, h);
    let wu = weight_at(x, y - 1, w, h);
    let wd = weight_at(x, y + 1, w, h);
    assert(wl + wr + wu + wd == 4 * wc - 4) by (nonlinear_arith)
        requires
            wc == (x + 1) * (w - x) + (y + 1) * (h - y),
            wl == x * (w - (x - 1)) + (y + 1) * (h - y),
            wr == (x + 2) * (w - (x + 1)) + (y + 1) * (h - y),
            wu == (x + 1) * (w - x) + y * (h - (y - 1)),
            wd == (x + 1) * (w - x) + (y + 2) * (h - (y + 1)),
    ;
    lemma_weight_nonneg(x, y, w, h);
    let g1 = g.update(i, (g[i] - cm) as u8);
    let g2 = gain(g1, i - 1, i % w > 0);
    let g3 = gain(g2, i + 1, i % w < w - 1);
    let g4 = gain(g3, i - w, i >= w);
    let g5 = gain(g4, i + w, i + w < g.len());
    lemma_potential_update(g, w, h, g.len() as int, i, (g[i] - cm) as u8);
    let b = g[i] as int;
    let c = cm as int;
    assert(wc * (b - c) - wc * b == -(c * wc)) by (nonlinear_arith);
    assert(c * wc >= 4 * wc) by (nonlinear_arith)
        requires
            c >= 4,
            wc >= 0,
    ;
    assert(term(g, w, h, i) == wc * b);
    assert(term(g1, w, h, i) == wc * (b - c));
    assert(potential(g1, w, h) == potential(g, w, h) - c * wc);
    lemma_potential_gain(g1, w, h, i - 1, i % w > 0, x - 1, y);
    lemma_potential_gain(g2, w, h, i + 1, i % w < w - 1, x + 1, y);
    lemma_potential_gain(g3, w, h, i - w, i >= w, x, y - 1);
    lemma_potential_gain(g4, w, h, i + w, i + w < g.len(), x, y + 1);
    assert(potential(g5, w, h) <= potential(g, w, h) - c * wc + wl + wr + wu + wd);
}

/// A stable grid admits no legal toppling, so running the avalanche again on it
/// changes nothing: the only legal sequence from it is the empty one.
pub proof fn lemma_stable_is_fixed_point(g: Seq<u8>, w: int, cm: u8, s: Seq<int>)
    requires
        stable(g, cm),
        legal(g, w, cm, s),
    ensures
        s.len() == 0,
        run(g, w, cm, s) == g,
    decreases s.len(),
{
    if s.len() > 0 {
        lemma_stable_is_fixed_point(g, w, cm, s.drop_last());
        assert(run(g, w, cm, s.drop_last()) == g);
    }
}

/// The ways a grain can be placed.
#[derive(Debug, Clone, Copy, PartialEq, Eq, Structural)]
pub enum DropMode {
    Center,
    Random,
    Pattern,
}

impl DropMode {
    pub fn all() -> (r: Vec<DropMode>)
        ensures
            r@ == seq![DropMode::Center, DropMode::Random, DropMode::Pattern],
    {
        let r = vec![DropMode::Center, DropMode::Random, DropMode::Pattern];
        assert(r@ =~= seq![DropMode::Center, DropMode::Random, DropMode::Pattern]);
        r
    }

    pub open spec fn spec_name(self) -> Seq<char> {
        match self {
            DropMode::Center => "Center"@,
            DropMode::Random => "Random"@,
            DropMode::Pattern => "Pattern"@,
        }
    }

    pub fn name(&self) -> (r: &str)
        ensures
            r@ == self.spec_name(),
    {
        match self {
            DropMode::Center => "Center",
            DropMode::Random => "Random",
            DropMode::Pattern => "Pattern",
        }
    }
}

/// The abelian sandpile: grains dropped on a grid topple onto their neighbours
/// whenever a cell reaches the critical mass; grains that topple over the edge
/// leave the grid.
pub struct Sandpile {
    grid_width: usize,
    grid_height: usize,
    critical_mass: u8,
    color_scheme: ColorScheme,
    show_avalanches: bool,
    drop_mode: DropMode,
    grid: Vec<u8>,
    avalanche_sites: Vec<bool>,
    total_drops: usize,
    total_avalanches: usize,
}

impl Sandpile {
    pub closed spec fn spec_width(&self) -> int {
        self.grid_width as int
    }

    pub closed spec fn spec_height(&self) -> int {
        self.grid_height as int
    }

    pub closed spec fn spec_critical_mass(&self) -> u8 {
        self.critical_mass
    }

    pub closed spec fn spec_grid(&self) -> Seq<u8> {
        self.grid@
    }

    pub closed spec fn spec_sites(&self) -> Seq<bool> {
        self.avalanche_sites@
    }

    pub closed spec fn spec_total_drops(&self) -> usize {
        self.total_drops
    }

    pub closed spec fn spec_total_avalanches(&self) -> usize {
        self.total_avalanches
    }

    pub closed spec fn spec_drop_mode(&self) -> DropMode {
        self.drop_mode
    }

    pub closed spec fn spec_color_scheme(&self) -> ColorScheme {
        self.color_scheme
    }

    pub closed spec fn spec_show_avalanches(&self) -> bool {
        self.show_avalanches
    }

    /// Settings that only the host changes are those of `o`.
    pub open spec fn same_settings(&self, o: &Self) -> bool {
        &&& self.spec_width() == o.spec_width()
        &&& self.spec_height() == o.spec_height()
        &&& self.spec_critical_mass() == o.spec_critical_mass()
        &&& self.spec_drop_mode() == o.spec_drop_mode()
        &&& self.spec_color_scheme() == o.spec_color_scheme()
        &&& self.spec_show_avalanches() == o.spec_show_avalanches()
    }

    /// The grid, marks and avalanche count are what toppling the cells of `s` in
    /// order makes of grid `g` and count `count`, and the result is stable.
    pub open spec fn avalanche_of(&self, g: Seq<u8>, count: usize, s: Seq<int>) -> bool {
        &&& legal(g, self.spec_width(), self.spec_critical_mass(), s)
        &&& self.spec_grid() == run(g, self.spec_width(), self.spec_critical_mass(), s)
        &&& stable(self.spec_grid(), self.spec_critical_mass())
        &&& forall|i: int| 0 <= i < self.spec_sites().len() ==> (self.spec_sites()[i] <==> s.contains(i))
        &&& self.spec_total_avalanches() == if s.len() == 0 {
            count
        } else if count == usize::MAX {
            usize::MAX
        } else {
            (count + 1) as usize
        }
    }

    /// `self` is `o` after one grain was added at `(x, y)` and the pile settled.
    pub open spec fn dropped_at(&self, o: &Self, x: int, y: int) -> bool {
        &&& self.wf()
        &&& self.same_settings(o)
        &&& self.spec_total_drops() == if o.spec_total_drops() == usize::MAX {
            usize::MAX
        } else {
            (o.spec_total_drops() + 1) as usize
        }
        &&& exists|s: Seq<int>|
            self.avalanche_of(
                o.spec_grid().update(flat(x, y, o.spec_width()), add_grain(o.spec_grid()[flat(x, y, o.spec_width())])),
                o.spec_total_avalanches(),
                s,
            )
    }

    /// The grid has at least one cell off the border, where random grains land, both
    /// grids cover it, and the critical mass is at least four, which every avalanche needs to come to rest.
    pub open spec fn wf(&self) -> bool {
        &&& self.spec_width() >= 3
        &&& self.spec_height() >= 3
        &&& dims_ok(self.spec_width(), self.spec_height())
        &&& self.spec_grid().len() == self.spec_width() * self.spec_height()
        &&& self.spec_sites().len() == self.spec_width() * self.spec_height()
        &&& self.spec_critical_mass() >= 4
    }

    /// Topples every cell at or above the critical mass, sweeping the grid row by row
    /// until a sweep finds none; marks the cells that toppled.
    fn avalanche(&mut self)
        requires
            old(self).wf(),
        ensures
            final(self).wf(),
            final(self).same_settings(&*old(self)),
            final(self).spec_total_drops() == old(self).spec_total_drops(),
            exists|s: Seq<int>| final(self).avalanche_of(old(self).spec_grid(), old(self).spec_total_avalanches(), s),
    {
        let w = self.grid_width;
        let h = self.grid_height;
        let cm = self.critical_mass;
        let ghost g0 = self.spec_grid();
        let n = self.grid.len();
        self.avalanche_sites = vec![false; n];
        let ghost mut s: Seq<int> = Seq::empty();
        let mut any: bool = false;
        loop
            invariant_except_break
                self.wf(),
                self.same_settings(&*old(self)),
                w == self.spec_width(),
                h == self.spec_height(),
                cm == self.spec_critical_mass(),
                n == self.spec_grid().len(),
                self.spec_total_drops() == old(self).spec_total_drops(),
                self.spec_total_avalanches() == old(self).spec_total_avalanches(),
                g0 == old(self).spec_grid(),
                g0.len() == n,
                legal(g0, w as int, cm, s),
                self.spec_grid() == run(g0, w as int, cm, s),
                forall|i: int| 0 <= i < n ==> (self.spec_sites()[i] <==> s.contains(i)),
                any == (s.len() > 0),
            ensures
                self.wf(),
                self.same_settings(&*old(self)),
                self.spec_total_drops() == old(self).spec_total_drops(),
                self.spec_total_avalanches() == old(self).spec_total_avalanches(),
                legal(g0, w as int, cm, s),
                self.spec_grid() == run(g0, w as int, cm, s),
                forall|i: int| 0 <= i < n ==> (self.spec_sites()[i] <==> s.contains(i)),
                any == (s.len() > 0),
                stable(self.spec_grid(), cm),
            decreases potential(self.spec_grid(), w as int, h as int),
        {
            let ghost pass_start = self.spec_grid();
            proof {
                lemma_potential_nonneg(pass_start, w as int, h as int, n as int);
            }
            let mut toppled = false;
            let mut y: usize = 0;
            while y < h
                invariant
                    self.wf(),
                    self.same_settings(&*old(self)),
                    w == self.spec_width(),
                    h == self.spec_height(),
                    cm == self.spec_critical_mass(),
                    n == self.spec_grid().len(),
                    self.spec_total_drops() == old(self).spec_total_drops(),
                    self.spec_total_avalanches() == old(self).spec_total_avalanches(),
                    g0 == old(self).spec_grid(),
                    g0.len() == n,
                    legal(g0, w as int, cm, s),
                    self.spec_grid() == run(g0, w as int, cm, s),
                    forall|i: int| 0 <= i < n ==> (self.spec_sites()[i] <==> s.contains(i)),
                    any == (s.len() > 0),
                    y <= h,
                    toppled ==> potential(self.spec_grid(), w as int, h as int) < potential(pass_start, w as int, h as int),
                    !toppled ==> self.spec_grid() == pass_start,
                    !toppled ==> forall|j: int|
                        0 <= j < n && j / (w as int) < y ==> #[trigger] self.spec_grid()[j] < cm,
                decreases h - y,
            {
                let mut x: usize = 0;
                while x < w
                    invariant
                        self.wf(),
                        self.same_settings(&*old(self)),
                        w == self.spec_width(),
                        h == self.spec_height(),
                        cm == self.spec_critical_mass(),
                        n == self.spec_grid().len(),
                        self.spec_total_drops() == old(self).spec_total_drops(),
                        self.spec_total_avalanches() == old(self).spec_total_avalanches(),
                        g0 == old(self).spec_grid(),
                        g0.len() == n,
                        legal(g0, w as int, cm, s),
                        self.spec_grid() == run(g0, w as int, cm, s),
                        forall|i: int| 0 <= i < n ==> (self.spec_sites()[i] <==> s.contains(i)),
                        any == (s.len() > 0),
                        y < h,
                        x <= w,
                        toppled ==> potential(self.spec_grid(), w as int, h as int) < potential(pass_start, w as int, h as int),
                        !toppled ==> self.spec_grid() == pass_start,
                        !toppled ==> forall|j: int|
                            0 <= j < n && (j / (w as int) < y || (j / (w as int) == y && j % (w as int) < x)) ==> #[trigger] self.spec_grid()[j] < cm,
                    decreases w - x,
                {
                    proof {
                        lemma_flat_in_grid(x as int, y as int, w as int, h as int);
                        lemma_flat_coords(x as int, y as int, w as int);
                    }
                    let idx = y * w + x;
                    let ghost before = self.spec_grid();
                    if self.grid[idx] >= cm {
                        proof {
                            lemma_topple_lowers_potential(self.spec_grid(), w as int, h as int, cm, idx as int);
                        }
                        self.topple_at(idx);
                        self.avalanche_sites.set(idx, true);
                        proof {
                            let s2 = s.push(idx as int);
                            assert(s2.drop_last() =~= s);
                            assert(s2.last() == idx);
                            assert(run(g0, w as int, cm, s)[idx as int] >= cm);
                            assert(legal(g0, w as int, cm, s2));
                            assert(self.spec_grid() == run(g0, w as int, cm, s2));
                            assert forall|i: int| 0 <= i < n implies (self.spec_sites()[i] <==> s2.contains(i)) by {
                                if s.contains(i) {
                                    let k = choose|k: int| 0 <= k < s.len() && s[k] == i;
                                    assert(s2[k] == i);
                                }
                                if i == idx {
                                    assert(s2[s.len() as int] == i);
                                }
                                if s2.contains(i) && i != idx {
                                    let k = choose|k: int| 0 <= k < s2.len() && s2[k] == i;
                                    assert(s[k] == i);
                                }
                            }
                            s = s2;
                        }
                        toppled = true;
                        any = true;
                    } else {
                        proof {
                            if !toppled {
                                assert forall|j: int|
                                    0 <= j < n && (j / (w as int) < y || (j / (w as int) == y && j % (w as int) < x + 1)) implies #[trigger] self.spec_grid()[j] < cm by {
                                    lemma_coords_in_grid(j, w as int, h as int);
                                    if j / (w as int) == y && j % (w as int) == x {
                                        assert(j == idx);
                                    }
                            }
                            }
                        }
                    }
                    x = x + 1;
                }
                y = y + 1;
            }
            if !toppled {
                proof {
                    assert forall|j: int| 0 <= j < self.spec_grid().len() implies #[trigger] self.spec_grid()[j] < cm by {
                        lemma_coords_in_grid(j, w as int, h as int);
                    }
                }
                break;
            }
            proof {
                lemma_potential_nonneg(self.spec_grid(), w as int, h as int, n as int);
                assert(potential(self.spec_grid(), w as int, h as int) < potential(pass_start, w as int, h as int));
            }
        }
        if any {
            self.total_avalanches = self.total_avalanches.saturating_add(1);
        }
        assert(self.avalanche_of(g0, old(self).spec_total_avalanches(), s));
    }

    /// Topples cell `idx`: it loses the critical mass and each neighbour inside the
    /// grid gains a grain.
    fn topple_at(&mut self, idx: usize)
        requires
            old(self).wf(),
            0 <= idx < old(self).spec_grid().len(),
            old(self).spec_grid()[idx as int] >= old(self).spec_critical_mass(),
        ensures
            final(self).wf(),
            final(self).same_settings(&*old(self)),
            final(self).spec_grid() == topple(old(self).spec_grid(), old(self).spec_width(), old(self).spec_critical_mass(), idx as int),
            final(self).spec_sites() == old(self).spec_sites(),
            final(self).spec_total_drops() == old(self).spec_total_drops(),
            final(self).spec_total_avalanches() == old(self).spec_total_avalanches(),
    {
        let w = self.grid_width;
        let n = self.grid.len();
        let v = self.grid[idx];
        self.grid.set(idx, v - self.critical_mass);
        let x = idx % w;
        proof {
            let wi = w as int;
            let hi = self.spec_height();
            lemma_coords_in_grid(idx as int, wi, hi);
            let yi = idx as int / wi;
            assert(idx as int + 1 <= yi * wi + wi && yi * wi + wi <= wi * hi && wi <= n) by (nonlinear_arith)
                requires
                    idx as int == yi * wi + x as int,
                    x < wi,
                    0 <= yi < hi,
                    n == wi * hi,
                    hi >= 3,
            ;
        }
        if x > 0 {
            self.add_grain_at(idx - 1);
        }
        if x < w - 1 {
            self.add_grain_at(idx + 1);
        }
        if idx >= w {
            self.add_grain_at(idx - w);
        }
        if idx < n - w {
            self.add_grain_at(idx + w);
        }
    }

    fn add_grain_at(&mut self, idx: usize)
        requires
            old(self).wf(),
            idx < old(self).spec_grid().len(),
        ensures
            final(self).wf(),
            final(self).same_settings(&*old(self)),
            final(self).spec_grid() == old(self).spec_grid().update(idx as int, add_grain(old(self).spec_grid()[idx as int])),
            final(self).spec_sites() == old(self).spec_sites(),
            final(self).spec_total_drops() == old(self).spec_total_drops(),
            final(self).spec_total_avalanches() == old(self).spec_total_avalanches(),
    {
        let v = self.grid[idx];
        let nv = if v < 255 { v + 1 } else { v };
        self.grid.set(idx, nv);
    }

    /// An empty pile of `width` by `height` cells with the given critical mass,
    /// coloured with the fire palette, avalanches highlighted, grains dropped at
    /// the centre.
    pub fn with_size(width: usize, height: usize, critical_mass: u8) -> (r: Self)
        requires
            width >= 3,
            height >= 3,
            dims_ok(width as int, height as int),
            critical_mass >= 4,
        ensures
            r.wf(),
            r.spec_width() == width,
            r.spec_height() == height,
            r.spec_critical_mass() == critical_mass,
            r.spec_grid() == Seq::new((width * height) as nat, |i: int| 0u8),
            r.spec_sites() == Seq::new((width * height) as nat, |i: int| false),
            r.spec_total_drops() == 0,
            r.spec_total_avalanches() == 0,
            r.spec_drop_mode() == DropMode::Center,
            r.spec_color_scheme() == ColorScheme::Fire,
            r.spec_show_avalanches(),
    {
        let n = width * height;
        let grid = vec![0u8; n];
        let avalanche_sites = vec![false; n];
        assert(grid@ =~= Seq::new(n as nat, |i: int| 0u8));
        assert(avalanche_sites@ =~= Seq::new(n as nat, |i: int| false));
        Sandpile {
            grid_width: width,
            grid_height: height,
            critical_mass,
            color_scheme: ColorScheme::Fire,
            show_avalanches: true,
            drop_mode: DropMode::Center,
            grid,
            avalanche_sites,
            total_drops: 0,
            total_avalanches: 0,
        }
    }

    /// A 150 by 150 empty pile with critical mass four.
    pub fn new() -> (r: Self)
        ensures
            r.wf(),
            r.spec_width() == 150,
            r.spec_height() == 150,
            r.spec_critical_mass() == 4,
            r.spec_grid() == Seq::new(22500, |i: int| 0u8),
            r.spec_sites() == Seq::new(22500, |i: int| false),
            r.spec_total_drops() == 0,
            r.spec_total_avalanches() == 0,
            r.spec_drop_mode() == DropMode::Center,
            r.spec_color_scheme() == ColorScheme::Fire,
            r.spec_show_avalanches(),
    {
        Sandpile::with_size(150, 150, 4)
    }

    /// Empties the pile and clears the marks and counters; the settings stay.
    pub fn reset(&mut self)
        requires
            old(self).wf(),
        ensures
            final(self).wf(),
            final(self).same_settings(&*old(self)),
            final(self).spec_grid() == Seq::new(old(self).spec_grid().len(), |i: int| 0u8),
            final(self).spec_sites() == Seq::new(old(self).spec_grid().len(), |i: int| false),
            final(self).spec_total_drops() == 0,
            final(self).spec_total_avalanches() == 0,
    {
        let n = self.grid_width * self.grid_height;
        self.grid = vec![0u8; n];
        self.avalanche_sites = vec![false; n];
        assert(self.grid@ =~= Seq::new(n as nat, |i: int| 0u8));
        assert(self.avalanche_sites@ =~= Seq::new(n as nat, |i: int| false));
        self.total_drops = 0;
        self.total_avalanches = 0;
    }

    /// Changes the grid's dimensions and empties the pile in new grids; refuses
    /// (returns `false`, changing nothing) a grid without a cell off the border or
    /// whose cell count does not fit in `usize`.
    pub fn set_size(&mut self, width: usize, height: usize) -> (ok: bool)
        requires
            old(self).wf(),
        ensures
            final(self).wf(),
            ok == (width >= 3 && height >= 3 && width * height <= usize::MAX),
            !ok ==> *final(self) == *old(self),
            ok ==> {
                &&& final(self).spec_width() == width
                &&& final(self).spec_height() == height
                &&& final(self).spec_grid() == Seq::new((width * height) as nat, |i: int| 0u8)
                &&& final(self).spec_sites() == Seq::new((width * height) as nat, |i: int| false)
                &&& final(self).spec_total_drops() == 0
                &&& final(self).spec_total_avalanches() == 0
                &&& final(self).spec_critical_mass() == old(self).spec_critical_mass()
                &&& final(self).spec_drop_mode() == old(self).spec_drop_mode()
                &&& final(self).spec_color_scheme() == old(self).spec_color_scheme()
                &&& final(self).spec_show_avalanches() == old(self).spec_show_avalanches()
            },
    {
        if width < 3 || height < 3 || width > usize::MAX / height {
            proof {
                if width >= 3 && height >= 3 {
                    assert(width * height > usize::MAX) by (nonlinear_arith)
                        requires
                            width > usize::MAX / height,
                            height >= 3,
                    ;
                }
            }
            return false;
        }
        proof {
            assert(width * height <= usize::MAX) by (nonlinear_arith)
                requires
                    width <= usize::MAX / height,
                    height >= 3,
            ;
        }
        let n = width * height;
        self.grid_width = width;
        self.grid_height = height;
        self.grid = vec![0u8; n];
        self.avalanche_sites = vec![false; n];
        assert(self.grid@ =~= Seq::new(n as nat, |i: int| 0u8));
        assert(self.avalanche_sites@ =~= Seq::new(n as nat, |i: int| false));
        self.total_drops = 0;
        self.total_avalanches = 0;
        true
    }

    /// Sets the critical mass; refuses (returns `false`, changing nothing) a mass
    /// below four, at which toppling creates grains and an avalanche need not end.
    pub fn set_critical_mass(&mut self, critical_mass: u8) -> (ok: bool)
        requires
            old(self).wf(),
        ensures
            final(self).wf(),
            ok == (critical_mass >= 4),
            !ok ==> *final(self) == *old(self),
            ok ==> final(self).spec_critical_mass() == critical_mass,
            final(self).spec_grid() == old(self).spec_grid(),
            final(self).spec_sites() == old(self).spec_sites(),
            final(self).spec_width() == old(self).spec_width(),
            final(self).spec_height() == old(self).spec_height(),
            final(self).spec_total_drops() == old(self).spec_total_drops(),
            final(self).spec_total_avalanches() == old(self).spec_total_avalanches(),
            final(self).spec_drop_mode() == old(self).spec_drop_mode(),
    {
        if critical_mass < 4 {
            return false;
        }
        self.critical_mass = critical_mass;
        true
    }

    /// Adds one grain at `(x, y)` and lets the pile settle.
    pub fn drop_sand_at(&mut self, x: usize, y: usize)
        requires
            old(self).wf(),
            x < old(self).spec_width(),
            y < old(self).spec_height(),
        ensures
            final(self).dropped_at(&*old(self), x as int, y as int),
    {
        proof {
            lemma_flat_in_grid(x as int, y as int, self.spec_width(), self.spec_height());
        }
        let idx = y * self.grid_width + x;
        self.add_grain_at(idx);
        self.total_drops = self.total_drops.saturating_add(1);
        self.avalanche();
    }

    /// Drops one grain where the drop mode says: at the centre, or at a random cell
    /// off the border. In pattern mode nothing happens and `false` is returned: the
    /// point on the spiral is computed by the host, which calls `drop_sand_at`.
    pub fn drop_sand(&mut self) -> (dropped: bool)
        requires
            old(self).wf(),
        ensures
            final(self).wf(),
            dropped == (old(self).spec_drop_mode() != DropMode::Pattern),
            !dropped ==> *final(self) == *old(self),
            old(self).spec_drop_mode() == DropMode::Center ==> final(self).dropped_at(
                &*old(self),
                old(self).spec_width() / 2,
                old(self).spec_height() / 2,
            ),
            old(self).spec_drop_mode() == DropMode::Random ==> exists|x: int, y: int|
                1 <= x < old(self).spec_width() - 1 && 1 <= y < old(self).spec_height() - 1
                    && #[trigger] final(self).dropped_at(&*old(self), x, y),
    {
        match self.drop_mode {
            DropMode::Center => {
                let x = self.grid_width / 2;
                let y = self.grid_height / 2;
                self.drop_sand_at(x, y);
                true
            },
            DropMode::Random => {
                let x = 1 + random_below(self.grid_width - 2);
                let y = 1 + random_below(self.grid_height - 2);
                self.drop_sand_at(x, y);
                assert(self.dropped_at(&*old(self), x as int, y as int));
                true
            },
            DropMode::Pattern => false,
        }
    }

    pub fn grid_width(&self) -> (r: usize)
        ensures
            r == self.spec_width(),
    {
        self.grid_width
    }

    pub fn grid_height(&self) -> (r: usize)
        ensures
            r == self.spec_height(),
    {
        self.grid_height
    }

    pub fn critical_mass(&self) -> (r: u8)
        ensures
            r == self.spec_critical_mass(),
    {
        self.critical_mass
    }

    pub fn total_drops(&self) -> (r: usize)
        ensures
            r == self.spec_total_drops(),
    {
        self.total_drops
    }

    pub fn total_avalanches(&self) -> (r: usize)
        ensures
            r == self.spec_total_avalanches(),
    {
        self.total_avalanches
    }

    /// Grains held by cell `(x, y)`.
    pub fn grains(&self, x: usize, y: usize) -> (r: u8)
        requires
            self.wf(),
            x < self.spec_width(),
            y < self.spec_height(),
        ensures
            r == self.spec_grid()[flat(x as int, y as int, self.spec_width())],
    {
        proof {
            lemma_flat_in_grid(x as int, y as int, self.spec_width(), self.spec_height());
        }
        self.grid[y * self.grid_width + x]
    }

    /// Whether cell `(x, y)` toppled in the latest avalanche.
    pub fn toppled_last(&self, x: usize, y: usize) -> (r: bool)
        requires
            self.wf(),
            x < self.spec_width(),
            y < self.spec_height(),
        ensures
            r == self.spec_sites()[flat(x as int, y as int, self.spec_width())],
    {
        proof {
            lemma_flat_in_grid(x as int, y as int, self.spec_width(), self.spec_height());
        }
        self.avalanche_sites[y * self.grid_width + x]
    }

    pub fn drop_mode(&self) -> (r: DropMode)
        ensures
            r == self.spec_drop_mode(),
    {
        self.drop_mode
    }

    pub fn set_drop_mode(&mut self, mode: DropMode)
        ensures
            final(self).spec_drop_mode() == mode,
            final(self).spec_width() == old(self).spec_width(),
            final(self).spec_height() == old(self).spec_height(),
            final(self).spec_critical_mass() == old(self).spec_critical_mass(),
            final(self).spec_color_scheme() == old(self).spec_color_scheme(),
            final(self).spec_show_avalanches() == old(self).spec_show_avalanches(),
            final(self).spec_grid() == old(self).spec_grid(),
            final(self).spec_sites() == old(self).spec_sites(),
            final(self).spec_total_drops() == old(self).spec_total_drops(),
            final(self).spec_total_avalanches() == old(self).spec_total_avalanches(),
    {
        self.drop_mode = mode;
    }

    pub fn color_scheme(&self) -> (r: ColorScheme)
        ensures
            r == self.spec_color_scheme(),
    {
        self.color_scheme
    }

    pub fn set_color_scheme(&mut self, scheme: ColorScheme)
        ensures
            final(self).spec_color_scheme() == scheme,
            final(self).spec_width() == old(self).spec_width(),
            final(self).spec_height() == old(self).spec_height(),
            final(self).spec_critical_mass() == old(self).spec_critical_mass(),
            final(self).spec_drop_mode() == old(self).spec_drop_mode(),
            final(self).spec_show_avalanches() == old(self).spec_show_avalanches(),
            final(self).spec_grid() == old(self).spec_grid(),
            final(self).spec_sites() == old(self).spec_sites(),
            final(self).spec_total_drops() == old(self).spec_total_drops(),
            final(self).spec_total_avalanches() == old(self).spec_total_avalanches(),
    {
        self.color_scheme = scheme;
    }

    pub fn show_avalanches(&self) -> (r: bool)
        ensures
            r == self.spec_show_avalanches(),
    {
        self.show_avalanches
    }

    pub fn set_show_avalanches(&mut self, show: bool)
        ensures
            final(self).spec_show_avalanches() == show,
            final(self).spec_width() == old(self).spec_width(),
            final(self).spec_height() == old(self).spec_height(),
            final(self).spec_critical_mass() == old(self).spec_critical_mass(),
            final(self).spec_drop_mode() == old(self).spec_drop_mode(),
            final(self).spec_color_scheme() == old(self).spec_color_scheme(),
            final(self).spec_grid() == old(self).spec_grid(),
            final(self).spec_sites() == old(self).spec_sites(),
            final(self).spec_total_drops() == old(self).spec_total_drops(),
            final(self).spec_total_avalanches() == old(self).spec_total_avalanches(),
    {
        self.show_avalanches = show;
    }

    /// Whether `c` is the colour of cell `(gx, gy)`: yellow where the latest
    /// avalanche toppled while those are highlighted, else the colour that
    /// `sand_color` gives the cell's grain count.
    pub open spec fn shows_cell<F: Fn(u8) -> Color>(&self, sand_color: F, gx: int, gy: int, c: Color) -> bool {
        let i = flat(gx, gy, self.spec_width());
        if self.spec_show_avalanches() && self.spec_sites()[i] {
            c == (Color { r: 255, g: 255, b: 0 })
        } else {
            sand_color.ensures((self.spec_grid()[i],), c)
        }
    }

    /// Draws the pile on a `width` by `height` canvas, row-major.
    pub fn compute<F: Fn(u8) -> Color>(&self, width: usize, height: usize, sand_color: &F) -> (r: Vec<Color>)
        requires
            self.wf(),
            width * height <= usize::MAX,
            forall|v: u8| sand_color.requires((v,)),
        ensures
            r@.len() == width * height,
            forall|px: int, py: int|
                0 <= px < width && 0 <= py < height ==> match pixel_cell(
                    px,
                    py,
                    width as int,
                    height as int,
                    self.spec_width(),
                    self.spec_height(),
                ) {
                    Some((gx, gy)) => self.shows_cell(*sand_color, gx, gy, #[trigger] r@[flat(px, py, width as int)]),
                    None => r@[flat(px, py, width as int)] == black(),
                },
    {
        let cell_color = |gx: usize, gy: usize| -> (c: Color)
            requires
                self.wf(),
                gx < self.spec_width(),
                gy < self.spec_height(),
                forall|v: u8| sand_color.requires((v,)),
            ensures
                self.shows_cell(*sand_color, gx as int, gy as int, c),
            {
                if self.show_avalanches && self.toppled_last(gx, gy) {
                    Color { r: 255, g: 255, b: 0 }
                } else {
                    sand_color(self.grains(gx, gy))
                }
            };
        let r = render(width, height, self.grid_width, self.grid_height, &cell_color);
        assert forall|px: int, py: int| 0 <= px < width && 0 <= py < height implies match pixel_cell(
            px,
            py,
            width as int,
            height as int,
            self.spec_width(),
            self.spec_height(),
        ) {
            Some((gx, gy)) => self.shows_cell(*sand_color, gx, gy, #[trigger] r@[flat(px, py, width as int)]),
            None => r@[flat(px, py, width as int)] == black(),
        } by {
            let c = r@[flat(px, py, width as int)];
            assert(shows(cell_color, c, px, py, width as int, height as int, self.spec_width(), self.spec_height()));
        }
        r
    }
}

/// After a grain is dropped and the pile settles, no cell holds the critical mass,
/// so running the avalanche again topples nothing: it leaves the grid and the
/// avalanche count as they are.
pub proof fn lemma_drop_leaves_pile_settled(
    after: &Sandpile,
    before: &Sandpile,
    x: int,
    y: int,
    again: &Sandpile,
    s: Seq<int>,
)
    requires
        after.dropped_at(before, x, y),
        again.same_settings(after),
        again.avalanche_of(after.spec_grid(), after.spec_total_avalanches(), s),
    ensures
        forall|i: int| 0 <= i < after.spec_grid().len() ==> after.spec_grid()[i] < after.spec_critical_mass(),
        s.len() == 0,
        again.spec_grid() == after.spec_grid(),
        again.spec_total_avalanches() == after.spec_total_avalanches(),
{
    lemma_stable_is_fixed_point(after.spec_grid(), after.spec_width(), after.spec_critical_mass(), s);
}

} // verus!
