use vstd::prelude::*;
use crate::color::Color;
use crate::grid::{dims_ok, flat, lemma_flat_in_grid};
use crate::random::random_below;

verus! {

/// What a cell of the sand box holds.
#[derive(Debug, Clone, Copy, PartialEq, Eq, Structural)]
pub enum Material {
    Empty,
    Sand,
    Water,
    Stone,
    Fire,
    Wood,
}

/// Heat that a freshly lit fire cell starts with; it burns one unit per update.
pub const FIRE_HEAT: u8 = 100;

/// The material that a brush index selects; unknown indices select sand.
pub open spec fn material_of(index: usize) -> Material {
    if index == 1 {
        Material::Water
    } else if index == 2 {
        Material::Stone
    } else if index == 3 {
        Material::Fire
    } else if index == 4 {
        Material::Wood
    } else {
        Material::Sand
    }
}

pub open spec fn swapped<T>(s: Seq<T>, i: int, j: int) -> Seq<T> {
    s.update(i, s[j]).update(j, s[i])
}

/// The cells of the box and their heat.
pub type Cells = (Seq<Material>, Seq<u8>);

/// Sand at `(x, y)` falls into an empty or water cell below it, else slides to the
/// lower-left (`left`) or lower-right neighbour when that is empty or water.
pub open spec fn sand_moved(c: Cells, w: int, h: int, x: int, y: int, left: bool) -> Cells {
    let i = flat(x, y, w);
    let below = flat(x, y + 1, w);
    let passable = |m: Material| m == Material::Empty || m == Material::Water;
    if y >= h - 1 {
        c
    } else if passable(c.0[below]) {
        (swapped(c.0, i, below), swapped(c.1, i, below))
    } else {
        let nx = if left { x - 1 } else { x + 1 };
        if 0 <= nx < w && passable(c.0[flat(nx, y + 1, w)]) {
            let d = flat(nx, y + 1, w);
            (swapped(c.0, i, d), swapped(c.1, i, d))
        } else {
            c
        }
    }
}

/// Water at `(x, y)` falls into an empty cell below it, else flows to the empty left
/// (`left`) or right neighbour.
pub open spec fn water_moved(c: Cells, w: int, h: int, x: int, y: int, left: bool) -> Cells {
    let i = flat(x, y, w);
    let below = flat(x, y + 1, w);
    if y >= h - 1 {
        c
    } else if c.0[below] == Material::Empty {
        (swapped(c.0, i, below), swapped(c.1, i, below))
    } else {
        let nx = if left { x - 1 } else { x + 1 };
        if 0 <= nx < w && c.0[flat(nx, y, w)] == Material::Empty {
            let d = flat(nx, y, w);
            (swapped(c.0, i, d), swapped(c.1, i, d))
        } else {
            c
        }
    }
}

/// Lights the wood cell at `(nx, ny)` when `lit` holds; cells off the box are skipped.
pub open spec fn ignited(c: Cells, w: int, h: int, nx: int, ny: int, lit: bool) -> Cells {
    if 0 <= nx < w && 0 <= ny < h && c.0[flat(nx, ny, w)] == Material::Wood && lit {
        (c.0.update(flat(nx, ny, w), Material::Fire), c.1.update(flat(nx, ny, w), FIRE_HEAT))
    } else {
        c
    }
}

/// Fire at `(x, y)` cools by one and dies out at zero; otherwise it rises into an
/// empty cell above when `rise` holds, then lights each neighbouring wood cell
/// (left, right, up, down of `(x, y)`) whose flag among `lit` holds.
pub open spec fn fire_moved(c: Cells, w: int, h: int, x: int, y: int, rise: bool, lit: (bool, bool, bool, bool)) -> Cells {
    let i = flat(x, y, w);
    let t = if c.1[i] == 0 { 0u8 } else { (c.1[i] - 1) as u8 };
    let cooled = (c.0, c.1.update(i, t));
    if t == 0 {
        (c.0.update(i, Material::Empty), cooled.1)
    } else {
        let risen = if y > 0 && cooled.0[flat(x, y - 1, w)] == Material::Empty && rise {
            let a = flat(x, y - 1, w);
            (swapped(cooled.0, i, a), swapped(cooled.1, i, a))
        } else {
            cooled
        };
        let c1 = ignited(risen, w, h, x - 1, y, lit.0);
        let c2 = ignited(c1, w, h, x + 1, y, lit.1);
        let c3 = ignited(c2, w, h, x, y - 1, lit.2);
        ignited(c3, w, h, x, y + 1, lit.3)
    }
}

/// The random choices that move one particle: the side that sand or water tries,
/// whether fire rises, and which neighbouring wood cells it lights.
pub type Choice = (bool, bool, (bool, bool, bool, bool));

/// The particle at `(x, y)` moved by its material's rule with the choices `ch`;
/// stone, wood and empty cells stay.
pub open spec fn particle_moved(c: Cells, w: int, h: int, x: int, y: int, ch: Choice) -> Cells {
    match c.0[flat(x, y, w)] {
        Material::Sand => sand_moved(c, w, h, x, y, ch.0),
        Material::Water => water_moved(c, w, h, x, y, ch.0),
        Material::Fire => fire_moved(c, w, h, x, y, ch.1, ch.2),
        _ => c,
    }
}

/// Row `y` swept left to right over its first `n` columns, the particle at column
/// `x` taking the choices at its cell's index.
pub open spec fn row_swept(c: Cells, w: int, h: int, y: int, n: int, chs: Seq<Choice>) -> Cells
    decreases n,
{
    if n <= 0 {
        c
    } else {
        let before = row_swept(c, w, h, y, n - 1, chs);
        particle_moved(before, w, h, n - 1, y, chs[flat(n - 1, y, w)])
    }
}

/// The bottom `k` rows swept, the lowest first.
pub open spec fn rows_swept(c: Cells, w: int, h: int, k: int, chs: Seq<Choice>) -> Cells
    decreases k,
{
    if k <= 0 {
        c
    } else {
        row_swept(rows_swept(c, w, h, k - 1, chs), w, h, h - k, w, chs)
    }
}

/// Every particle of the box moved once, rows from the bottom up and each row left
/// to right.
pub open spec fn swept(c: Cells, w: int, h: int, chs: Seq<Choice>) -> Cells {
    rows_swept(c, w, h, h, chs)
}

/// Column painted at step `dx` of a brush `b` cells wide placed at column `x`, its
/// left edge half a brush to the left, clamped at zero and at `usize::MAX`.
pub open spec fn brush_col(x: int, dx: int, b: int) -> int {
    let s = if x + dx > usize::MAX { usize::MAX as int } else { x + dx };
    if s - b / 2 < 0 {
        0
    } else {
        s - b / 2
    }
}

/// Whether one of the first `n` steps of the brush paints column `px`.
pub open spec fn brush_reaches(px: int, x: int, b: int, n: int) -> bool {
    exists|dx: int| 0 <= dx < n && brush_col(x, dx, b) == px
}

/// Whether cell `i` is painted once the brush has done its first `rows` rows and
/// the first `cols` steps of the next.
pub open spec fn brush_covers(i: int, w: int, x: int, b: int, rows: int, cols: int) -> bool {
    ||| i / w < rows && brush_reaches(i % w, x, b, b)
    ||| i / w == rows && brush_reaches(i % w, x, b, cols)
}

/// The cells with the covered ones painted with material `mi` (a brush-menu index),
/// fire painted hot.
pub open spec fn painted_part(c: Cells, w: int, x: int, b: int, mi: usize, rows: int, cols: int) -> Cells {
    (
        Seq::new(c.0.len(), |i: int| if brush_covers(i, w, x, b, rows, cols) { material_of(mi) } else { c.0[i] }),
        Seq::new(c.1.len(), |i: int| if brush_covers(i, w, x, b, rows, cols) && mi == 3 { FIRE_HEAT } else { c.1[i] }),
    )
}

/// The cells after a brush `b` cells square of material `mi` is painted on the top
/// rows at column `x`.
pub open spec fn painted(c: Cells, w: int, x: int, b: int, mi: usize) -> Cells {
    painted_part(c, w, x, b, mi, b, 0)
}

proof fn lemma_brush_step(px: int, x: int, b: int, n: int)
    requires
        n >= 0,
    ensures
        brush_reaches(px, x, b, n + 1) <==> (brush_reaches(px, x, b, n) || brush_col(x, n, b) == px),
{
    if brush_reaches(px, x, b, n + 1) {
        let dx = choose|dx: int| 0 <= dx < n + 1 && brush_col(x, dx, b) == px;
        if dx < n {
            assert(brush_reaches(px, x, b, n));
        }
    }
    if brush_reaches(px, x, b, n) {
        let dx = choose|dx: int| 0 <= dx < n && brush_col(x, dx, b) == px;
        assert(0 <= dx < n + 1 && brush_col(x, dx, b) == px);
    }
    if brush_col(x, n, b) == px {
        assert(0 <= n < n + 1 && brush_col(x, n, b) == px);
    }
}

/// The colour of a cell: fixed per material, fire fading from orange to red as it
/// cools.
pub open spec fn material_rgb(material: Material, heat: u8) -> Color {
    match material {
        Material::Empty => Color { r: 0, g: 0, b: 0 },
        Material::Sand => Color { r: 194, g: 178, b: 128 },
        Material::Water => Color { r: 50, g: 100, b: 200 },
        Material::Stone => Color { r: 100, g: 100, b: 100 },
        Material::Wood => Color { r: 139, g: 90, b: 43 },
        Material::Fire => Color { r: 255, g: (200 - 2 * (if heat > 100 { 100 } else { heat as int })) as u8, b: 0 },
    }
}

/// The cell that pixel `(px, py)` shows when the box is stretched over the canvas.
pub open spec fn source_cell(px: int, py: int, width: int, height: int, w: int, h: int) -> int {
    flat(px * w / width, py * h / height, w)
}

/// A falling-sand box: sand and water fall, fire rises, burns out and lights wood.
pub struct FallingSand {
    brush_size: usize,
    current_material: usize,
    grid: Vec<Material>,
    width: usize,
    height: usize,
    heat: Vec<u8>,
}

impl FallingSand {
    pub closed spec fn spec_width(&self) -> int {
        self.width as int
    }

    pub closed spec fn spec_height(&self) -> int {
        self.height as int
    }

    pub closed spec fn spec_cells(&self) -> Cells {
        (self.grid@, self.heat@)
    }

    pub closed spec fn spec_brush_size(&self) -> int {
        self.brush_size as int
    }

    pub closed spec fn spec_current_material(&self) -> usize {
        self.current_material
    }

    /// Both grids cover the box.
    pub open spec fn wf(&self) -> bool {
        &&& dims_ok(self.spec_width(), self.spec_height())
        &&& self.spec_cells().0.len() == self.spec_width() * self.spec_height()
        &&& self.spec_cells().1.len() == self.spec_width() * self.spec_height()
    }

    /// The box is `o`'s box with the same brush.
    pub open spec fn same_box(&self, o: &Self) -> bool {
        &&& self.spec_width() == o.spec_width()
        &&& self.spec_height() == o.spec_height()
        &&& self.spec_brush_size() == o.spec_brush_size()
        &&& self.spec_current_material() == o.spec_current_material()
    }

    /// An empty, cold box of `width` by `height` cells with a brush of three cells
    /// painting sand.
    pub fn with_size(width: usize, height: usize) -> (r: Self)
        requires
            dims_ok(width as int, height as int),
        ensures
            r.wf(),
            r.spec_width() == width,
            r.spec_height() == height,
            r.spec_cells() == (Seq::new((width * height) as nat, |i: int| Material::Empty), Seq::new((width * height) as nat, |i: int| 0u8)),
            r.spec_brush_size() == 3,
            r.spec_current_material() == 0,
    {
        let n = width * height;
        let grid = vec![Material::Empty; n];
        let heat = vec![0u8; n];
        assert(grid@ =~= Seq::new(n as nat, |i: int| Material::Empty));
        assert(heat@ =~= Seq::new(n as nat, |i: int| 0u8));
        FallingSand { brush_size: 3, current_material: 0, grid, width, height, heat }
    }

    /// An empty 200 by 150 box.
    pub fn new() -> (r: Self)
        ensures
            r.wf(),
            r.spec_width() == 200,
            r.spec_height() == 150,
            r.spec_cells() == (Seq::new(30000, |i: int| Material::Empty), Seq::new(30000, |i: int| 0u8)),
    {
        FallingSand::with_size(200, 150)
    }

    /// The colour of a cell: fixed per material, fire fading from orange to red as
    /// it cools.
    pub fn material_color(material: Material, heat: u8) -> (c: Color)
        ensures
            c == material_rgb(material, heat),
    {
        match material {
            Material::Empty => Color { r: 0, g: 0, b: 0 },
            Material::Sand => Color { r: 194, g: 178, b: 128 },
            Material::Water => Color { r: 50, g: 100, b: 200 },
            Material::Stone => Color { r: 100, g: 100, b: 100 },
            Material::Fire => {
                let t: u8 = if heat > 100 { 100 } else { heat };
                Color { r: 255, g: 200 - 2 * t, b: 0 }
            },
            Material::Wood => Color { r: 139, g: 90, b: 43 },
        }
    }

    pub open spec fn spec_material_name(index: usize) -> Seq<char> {
        if index == 1 {
            "Water"@
        } else if index == 2 {
            "Stone"@
        } else if index == 3 {
            "Fire"@
        } else if index == 4 {
            "Wood"@
        } else {
            "Sand"@
        }
    }

    /// The brush menu's label of material `index`.
    pub fn material_name(index: usize) -> (r: &'static str)
        ensures
            r@ == Self::spec_material_name(index),
    {
        if index == 1 {
            "Water"
        } else if index == 2 {
            "Stone"
        } else if index == 3 {
            "Fire"
        } else if index == 4 {
            "Wood"
        } else {
            "Sand"
        }
    }

    pub fn index_to_material(index: usize) -> (m: Material)
        ensures
            m == material_of(index),
    {
        if index == 1 {
            Material::Water
        } else if index == 2 {
            Material::Stone
        } else if index == 3 {
            Material::Fire
        } else if index == 4 {
            Material::Wood
        } else {
            Material::Sand
        }
    }

    fn swap_cells(&mut self, i: usize, j: usize)
        requires
            old(self).wf(),
            i < old(self).spec_cells().0.len(),
            j < old(self).spec_cells().0.len(),
        ensures
            final(self).wf(),
            final(self).same_box(&*old(self)),
            final(self).spec_cells() == (swapped(old(self).spec_cells().0, i as int, j as int), swapped(old(self).spec_cells().1, i as int, j as int)),
    {
        let a = self.grid[i];
        let b = self.grid[j];
        self.grid.set(i, b);
        self.grid.set(j, a);
        let ta = self.heat[i];
        let tb = self.heat[j];
        self.heat.set(i, tb);
        self.heat.set(j, ta);
    }

    /// Moves the sand grain at `(x, y)`; `left` picks the side it slides to.
    pub fn update_sand_with(&mut self, x: usize, y: usize, left: bool)
        requires
            old(self).wf(),
            x < old(self).spec_width(),
            y < old(self).spec_height(),
        ensures
            final(self).wf(),
            final(self).same_box(&*old(self)),
            final(self).spec_cells() == sand_moved(old(self).spec_cells(), old(self).spec_width(), old(self).spec_height(), x as int, y as int, left),
    {
        let w = self.width;
        let h = self.height;
        if y >= h - 1 {
            return;
        }
        proof {
            lemma_flat_in_grid(x as int, y as int, w as int, h as int);
            lemma_flat_in_grid(x as int, y + 1, w as int, h as int);
        }
        let idx = y * w + x;
        let below = (y + 1) * w + x;
        let m = self.grid[below];
        if m == Material::Empty || m == Material::Water {
            self.swap_cells(idx, below);
        } else if left {
            if x >= 1 {
                proof {
                    lemma_flat_in_grid(x - 1, y + 1, w as int, h as int);
                }
                let d = (y + 1) * w + (x - 1);
                let md = self.grid[d];
                if md == Material::Empty || md == Material::Water {
                    self.swap_cells(idx, d);
                }
            }
        } else if x + 1 < w {
            proof {
                lemma_flat_in_grid(x + 1, y + 1, w as int, h as int);
            }
            let d = (y + 1) * w + (x + 1);
            let md = self.grid[d];
            if md == Material::Empty || md == Material::Water {
                self.swap_cells(idx, d);
            }
        }
    }

    /// Moves the water at `(x, y)`; `left` picks the side it flows to.
    pub fn update_water_with(&mut self, x: usize, y: usize, left: bool)
        requires
            old(self).wf(),
            x < old(self).spec_width(),
            y < old(self).spec_height(),
        ensures
            final(self).wf(),
            final(self).same_box(&*old(self)),
            final(self).spec_cells() == water_moved(old(self).spec_cells(), old(self).spec_width(), old(self).spec_height(), x as int, y as int, left),
    {
        let w = self.width;
        let h = self.height;
        if y >= h - 1 {
            return;
        }
        proof {
            lemma_flat_in_grid(x as int, y as int, w as int, h as int);
            lemma_flat_in_grid(x as int, y + 1, w as int, h as int);
        }
        let idx = y * w + x;
        let below = (y + 1) * w + x;
        if self.grid[below] == Material::Empty {
            self.swap_cells(idx, below);
        } else if left {
            if x >= 1 {
                proof {
                    lemma_flat_in_grid(x - 1, y as int, w as int, h as int);
                }
                let d = y * w + (x - 1);
                if self.grid[d] == Material::Empty {
                    self.swap_cells(idx, d);
                }
            }
        } else if x + 1 < w {
            proof {
                lemma_flat_in_grid(x + 1, y as int, w as int, h as int);
            }
            let d = y * w + (x + 1);
            if self.grid[d] == Material::Empty {
                self.swap_cells(idx, d);
            }
        }
    }

    fn ignite_with(&mut self, nx: usize, ny: usize, on_box: bool, lit: bool)
        requires
            old(self).wf(),
        ensures
            final(self).wf(),
            final(self).same_box(&*old(self)),
            on_box ==> final(self).spec_cells() == ignited(old(self).spec_cells(), old(self).spec_width(), old(self).spec_height(), nx as int, ny as int, lit),
            !on_box ==> final(self).spec_cells() == old(self).spec_cells(),
    {
        if on_box && nx < self.width && ny < self.height {
            proof {
                lemma_flat_in_grid(nx as int, ny as int, self.spec_width(), self.spec_height());
            }
            let i = ny * self.width + nx;
            if self.grid[i] == Material::Wood && lit {
                self.grid.set(i, Material::Fire);
                self.heat.set(i, FIRE_HEAT);
            }
        }
    }

    /// Burns the fire at `(x, y)`: `rise` says whether it may climb into an empty
    /// cell above, and `lit` which neighbouring wood cells (left, right, up, down)
    /// catch fire.
    pub fn update_fire_with(&mut self, x: usize, y: usize, rise: bool, lit: (bool, bool, bool, bool))
        requires
            old(self).wf(),
            x < old(self).spec_width(),
            y < old(self).spec_height(),
        ensures
            final(self).wf(),
            final(self).same_box(&*old(self)),
            final(self).spec_cells() == fire_moved(old(self).spec_cells(), old(self).spec_width(), old(self).spec_height(), x as int, y as int, rise, lit),
    {
        let w = self.width;
        let h = self.height;
        proof {
            lemma_flat_in_grid(x as int, y as int, w as int, h as int);
        }
        let idx = y * w + x;
        let t = self.heat[idx];
        let t1 = if t == 0 { 0 } else { t - 1 };
        self.heat.set(idx, t1);
        if t1 == 0 {
            self.grid.set(idx, Material::Empty);
            return;
        }
        if y > 0 {
            proof {
                lemma_flat_in_grid(x as int, y - 1, w as int, h as int);
            }
            let above = (y - 1) * w + x;
            if self.grid[above] == Material::Empty && rise {
                self.swap_cells(idx, above);
            }
        }
        self.ignite_with(if x >= 1 { x - 1 } else { 0 }, y, x >= 1, lit.0);
        self.ignite_with(x + 1, y, true, lit.1);
        self.ignite_with(x, if y >= 1 { y - 1 } else { 0 }, y >= 1, lit.2);
        self.ignite_with(x, y + 1, true, lit.3);
    }

    /// Moves the particle at `(x, y)` by its material's rule, drawing the random
    /// choices that the rule needs: sand and water pick a side with even odds, fire
    /// rises with odds of three in ten and lights each neighbouring wood cell with
    /// odds of one in ten; stone, wood and empty cells stay.
    pub fn update_particle(&mut self, x: usize, y: usize)
        requires
            old(self).wf(),
            x < old(self).spec_width(),
            y < old(self).spec_height(),
        ensures
            final(self).wf(),
            final(self).same_box(&*old(self)),
            ({
                let c = old(self).spec_cells();
                let w = old(self).spec_width();
                let h = old(self).spec_height();
                match c.0[flat(x as int, y as int, w)] {
                    Material::Sand => exists|left: bool| final(self).spec_cells() == #[trigger] sand_moved(c, w, h, x as int, y as int, left),
                    Material::Water => exists|left: bool| final(self).spec_cells() == #[trigger] water_moved(c, w, h, x as int, y as int, left),
                    Material::Fire => exists|rise: bool, lit: (bool, bool, bool, bool)|
                        final(self).spec_cells() == #[trigger] fire_moved(c, w, h, x as int, y as int, rise, lit),
                    _ => final(self).spec_cells() == c,
                }
            }),
    {
        proof {
            lemma_flat_in_grid(x as int, y as int, self.spec_width(), self.spec_height());
        }
        let m = self.grid[y * self.width + x];
        match m {
            Material::Sand => {
                let left = random_below(2) == 0;
                self.update_sand_with(x, y, left);
            },
            Material::Water => {
                let left = random_below(2) == 0;
                self.update_water_with(x, y, left);
            },
            Material::Fire => {
                let rise = random_below(10) < 3;
                let lit = (random_below(10) == 0, random_below(10) == 0, random_below(10) == 0, random_below(10) == 0);
                self.update_fire_with(x, y, rise, lit);
            },
            _ => {},
        }
    }

    /// Paints a brush-sized square of the current material on the top rows, its
    /// left edge half a brush left of column `x`; fire is painted hot.
    pub fn paint_top(&mut self, x: usize)
        requires
            old(self).wf(),
        ensures
            final(self).wf(),
            final(self).same_box(&*old(self)),
            final(self).spec_cells() == painted(
                old(self).spec_cells(),
                old(self).spec_width(),
                x as int,
                old(self).spec_brush_size(),
                old(self).spec_current_material(),
            ),
    {
        let b = self.brush_size;
        let mi = self.current_material;
        let mat = Self::index_to_material(mi);
        let w = self.width;
        let ghost c0 = self.spec_cells();
        proof {
            assert(c0 =~= painted_part(c0, w as int, x as int, b as int, mi, 0, 0));
        }
        let mut dy: usize = 0;
        while dy < b
            invariant
                self.wf(),
                self.same_box(&*old(self)),
                b == self.spec_brush_size(),
                mi == self.spec_current_material(),
                mat == material_of(mi),
                w == self.spec_width(),
                c0 == old(self).spec_cells(),
                dy <= b,
                self.spec_cells() == painted_part(c0, w as int, x as int, b as int, mi, dy as int, 0),
            decreases b - dy,
        {
            let mut dx: usize = 0;
            while dx < b
                invariant
                    self.wf(),
                    self.same_box(&*old(self)),
                    b == self.spec_brush_size(),
                    mi == self.spec_current_material(),
                    mat == material_of(mi),
                    w == self.spec_width(),
                    c0 == old(self).spec_cells(),
                    dy < b,
                    dx <= b,
                    self.spec_cells() == painted_part(c0, w as int, x as int, b as int, mi, dy as int, dx as int),
                decreases b - dx,
            {
                let px = x.saturating_add(dx).saturating_sub(b / 2);
                let py = dy;
                let ghost before = self.spec_cells();
                if px < self.width && py < self.height {
                    proof {
                        lemma_flat_in_grid(px as int, py as int, self.spec_width(), self.spec_height());
                        crate::grid::lemma_flat_coords(px as int, py as int, w as int);
                    }
                    let i = py * self.width + px;
                    self.grid.set(i, mat);
                    if self.current_material == 3 {
                        self.heat.set(i, FIRE_HEAT);
                    }
                }
                proof {
                    let next = painted_part(c0, w as int, x as int, b as int, mi, dy as int, dx + 1);
                    assert forall|j: int| #![trigger self.spec_cells().0[j]] #![trigger self.spec_cells().1[j]] 0 <= j < c0.0.len() implies self.spec_cells().0[j] == next.0[j] && self.spec_cells().1[j] == next.1[j] by {
                        lemma_brush_step(j % (w as int), x as int, b as int, dx as int);
                        crate::grid::lemma_coords_in_grid(j, w as int, self.spec_height());
                        if px < w && py < self.spec_height() {
                            crate::grid::lemma_flat_coords(px as int, py as int, w as int);
                        }
                        if j / (w as int) == py && j % (w as int) == px {
                            assert(j == flat(px as int, py as int, w as int));
                        }
                    }
                    assert(self.spec_cells().0 =~= next.0);
                    assert(self.spec_cells().1 =~= next.1);
                }
                dx = dx + 1;
            }
            proof {
                let next = painted_part(c0, w as int, x as int, b as int, mi, dy + 1, 0);
                assert(self.spec_cells().0 =~= next.0);
                assert(self.spec_cells().1 =~= next.1);
            }
            dy = dy + 1;
        }
    }

    /// The cells once the brush is painted at the column `paint` holds, if any.
    pub open spec fn painted_by(&self, paint: Option<usize>) -> Cells {
        match paint {
            Some(x) => painted(
                self.spec_cells(),
                self.spec_width(),
                x as int,
                self.spec_brush_size(),
                self.spec_current_material(),
            ),
            None => self.spec_cells(),
        }
    }

    /// Moves the particle at `(x, y)` by its material's rule with the choices `ch`.
    pub fn update_particle_with(&mut self, x: usize, y: usize, ch: Choice)
        requires
            old(self).wf(),
            x < old(self).spec_width(),
            y < old(self).spec_height(),
        ensures
            final(self).wf(),
            final(self).same_box(&*old(self)),
            final(self).spec_cells() == particle_moved(old(self).spec_cells(), old(self).spec_width(), old(self).spec_height(), x as int, y as int, ch),
    {
        proof {
            lemma_flat_in_grid(x as int, y as int, self.spec_width(), self.spec_height());
        }
        let m = self.grid[y * self.width + x];
        match m {
            Material::Sand => self.update_sand_with(x, y, ch.0),
            Material::Water => self.update_water_with(x, y, ch.0),
            Material::Fire => self.update_fire_with(x, y, ch.1, ch.2),
            _ => {},
        }
    }

    /// One frame with the given draws: the brush is painted at column `paint` if
    /// there is one, then every particle is moved, rows from the bottom up and each
    /// row left to right, the particle at a cell taking the choices at that cell's
    /// index in `choices`.
    pub fn tick_with(&mut self, paint: Option<usize>, choices: &Vec<Choice>)
        requires
            old(self).wf(),
            choices@.len() == old(self).spec_width() * old(self).spec_height(),
        ensures
            final(self).wf(),
            final(self).same_box(&*old(self)),
            final(self).spec_cells() == swept(old(self).painted_by(paint), old(self).spec_width(), old(self).spec_height(), choices@),
    {
        if let Some(x) = paint {
            self.paint_top(x);
        }
        let ghost p = self.spec_cells();
        let w = self.width;
        let h = self.height;
        let mut row: usize = h;
        while row > 0
            invariant
                self.wf(),
                self.same_box(&*old(self)),
                w == self.spec_width(),
                h == self.spec_height(),
                row <= h,
                choices@.len() == w * h,
                p == old(self).painted_by(paint),
                self.spec_cells() == rows_swept(p, w as int, h as int, h - row, choices@),
            decreases row,
        {
            row = row - 1;
            let ghost base = self.spec_cells();
            let mut x: usize = 0;
            while x < w
                invariant
                    self.wf(),
                    self.same_box(&*old(self)),
                    w == self.spec_width(),
                    h == self.spec_height(),
                    row < h,
                    x <= w,
                    choices@.len() == w * h,
                    p == old(self).painted_by(paint),
                    base == rows_swept(p, w as int, h as int, h - row - 1, choices@),
                    self.spec_cells() == row_swept(base, w as int, h as int, row as int, x as int, choices@),
                decreases w - x,
            {
                proof {
                    lemma_flat_in_grid(x as int, row as int, w as int, h as int);
                }
                let ch = choices[row * w + x];
                self.update_particle_with(x, row, ch);
                x = x + 1;
            }
        }
    }

    /// One frame: with odds of three in ten a brush of material is painted at a
    /// random column of the top rows, then every particle is moved, rows from the
    /// bottom up and each row left to right, by its material's rule with choices
    /// drawn as `update_particle` draws them.
    pub fn tick(&mut self)
        requires
            old(self).wf(),
        ensures
            final(self).wf(),
            final(self).same_box(&*old(self)),
            exists|paint: Option<usize>, chs: Seq<Choice>|
                chs.len() == old(self).spec_width() * old(self).spec_height()
                    && final(self).spec_cells() == #[trigger] swept(old(self).painted_by(paint), old(self).spec_width(), old(self).spec_height(), chs),
    {
        let paint = if random_below(10) < 3 {
            Some(random_below(self.width))
        } else {
            None
        };
        let n = self.width * self.height;
        let mut choices: Vec<Choice> = Vec::with_capacity(n);
        let mut k: usize = 0;
        while k < n
            invariant
                k <= n,
                choices@.len() == k,
            decreases n - k,
        {
            let left = random_below(2) == 0;
            let rise = random_below(10) < 3;
            let lit = (random_below(10) == 0, random_below(10) == 0, random_below(10) == 0, random_below(10) == 0);
            choices.push((left, rise, lit));
            k = k + 1;
        }
        self.tick_with(paint, &choices);
    }

    /// Empties the box and cools every cell.
    pub fn clear(&mut self)
        requires
            old(self).wf(),
        ensures
            final(self).wf(),
            final(self).same_box(&*old(self)),
            final(self).spec_cells() == (Seq::new(old(self).spec_cells().0.len(), |i: int| Material::Empty), Seq::new(old(self).spec_cells().0.len(), |i: int| 0u8)),
    {
        let n = self.grid.len();
        self.grid = vec![Material::Empty; n];
        self.heat = vec![0u8; n];
        assert(self.grid@ =~= Seq::new(n as nat, |i: int| Material::Empty));
        assert(self.heat@ =~= Seq::new(n as nat, |i: int| 0u8));
    }

    /// Sets the brush size and the material it paints (a brush-menu index).
    pub fn set_brush(&mut self, brush_size: usize, material: usize)
        ensures
            final(self).spec_brush_size() == brush_size,
            final(self).spec_current_material() == material,
            final(self).spec_cells() == old(self).spec_cells(),
            final(self).spec_width() == old(self).spec_width(),
            final(self).spec_height() == old(self).spec_height(),
    {
        self.brush_size = brush_size;
        self.current_material = material;
    }

    pub fn width(&self) -> (r: usize)
        ensures
            r == self.spec_width(),
    {
        self.width
    }

    pub fn height(&self) -> (r: usize)
        ensures
            r == self.spec_height(),
    {
        self.height
    }

    /// Material and heat of cell `(x, y)`.
    pub fn cell(&self, x: usize, y: usize) -> (r: (Material, u8))
        requires
            self.wf(),
            x < self.spec_width(),
            y < self.spec_height(),
        ensures
            r.0 == self.spec_cells().0[flat(x as int, y as int, self.spec_width())],
            r.1 == self.spec_cells().1[flat(x as int, y as int, self.spec_width())],
    {
        proof {
            lemma_flat_in_grid(x as int, y as int, self.spec_width(), self.spec_height());
        }
        let i = y * self.width + x;
        (self.grid[i], self.heat[i])
    }

    /// Sets cell `(x, y)` to `m` with heat `heat`.
    pub fn set_cell(&mut self, x: usize, y: usize, m: Material, heat: u8)
        requires
            old(self).wf(),
            x < old(self).spec_width(),
            y < old(self).spec_height(),
        ensures
            final(self).wf(),
            final(self).same_box(&*old(self)),
            final(self).spec_cells() == (
                old(self).spec_cells().0.update(flat(x as int, y as int, old(self).spec_width()), m),
                old(self).spec_cells().1.update(flat(x as int, y as int, old(self).spec_width()), heat),
            ),
    {
        proof {
            lemma_flat_in_grid(x as int, y as int, self.spec_width(), self.spec_height());
        }
        let i = y * self.width + x;
        self.grid.set(i, m);
        self.heat.set(i, heat);
    }

    /// Draws the box stretched over a `width` by `height` canvas, row-major.
    pub fn compute(&self, width: usize, height: usize) -> (r: Vec<Color>)
        requires
            self.wf(),
            width * height <= usize::MAX,
        ensures
            r@.len() == width * height,
            forall|px: int, py: int|
                0 <= px < width && 0 <= py < height ==> #[trigger] r@[flat(px, py, width as int)] == ({
                    let i = source_cell(px, py, width as int, height as int, self.spec_width(), self.spec_height());
                    material_rgb(self.spec_cells().0[i], self.spec_cells().1[i])
                }),
    {
        let w = self.width;
        let h = self.height;
        let mut out: Vec<Color> = Vec::with_capacity(width * height);
        let mut py: usize = 0;
        while py < height
            invariant
                self.wf(),
                w == self.spec_width(),
                h == self.spec_height(),
                py <= height,
                width * height <= usize::MAX,
                out@.len() == py * width,
                forall|i: int| 0 <= i < py * width ==> #[trigger] out@[i] == ({
                    let c = source_cell(i % (width as int), i / (width as int), width as int, height as int, w as int, h as int);
                    material_rgb(self.spec_cells().0[c], self.spec_cells().1[c])
                }),
            decreases height - py,
        {
            proof {
                assert((py as int) * (h as int) <= u128::MAX && (py as int) * (h as int) / (height as int) < h) by (nonlinear_arith)
                    requires
                        py < height,
                        h >= 1,
                        py <= usize::MAX,
                        h <= usize::MAX,
                        usize::MAX <= u64::MAX,
                ;
            }
            let sy = ((py as u128) * (h as u128) / (height as u128)) as usize;
            let mut px: usize = 0;
            while px < width
                invariant
                    self.wf(),
                    w == self.spec_width(),
                    h == self.spec_height(),
                    py < height,
                    px <= width,
                    sy < h,
                    sy == (py as int) * (h as int) / (height as int),
                    width * height <= usize::MAX,
                    out@.len() == py * width + px,
                    forall|i: int| 0 <= i < py * width + px ==> #[trigger] out@[i] == ({
                        let c = source_cell(i % (width as int), i / (width as int), width as int, height as int, w as int, h as int);
                        material_rgb(self.spec_cells().0[c], self.spec_cells().1[c])
                    }),
                decreases width - px,
            {
                proof {
                    lemma_flat_in_grid(px as int, py as int, width as int, height as int);
                    crate::grid::lemma_flat_coords(px as int, py as int, width as int);
                    assert((px as int) * (w as int) <= u128::MAX && (px as int) * (w as int) / (width as int) < w) by (nonlinear_arith)
                        requires
                            px < width,
                            w >= 1,
                            px <= usize::MAX,
                            w <= usize::MAX,
                            usize::MAX <= u64::MAX,
                    ;
                }
                let sx = ((px as u128) * (w as u128) / (width as u128)) as usize;
                let (m, t) = self.cell(sx, sy);
                out.push(Self::material_color(m, t));
                px = px + 1;
            }
            proof {
                assert((py + 1) * width == py * width + width) by (nonlinear_arith);
            }
            py = py + 1;
        }
        proof {
            assert(height * width == width * height) by (nonlinear_arith);
            assert forall|px: int, py: int| 0 <= px < width && 0 <= py < height implies #[trigger] out@[flat(px, py, width as int)] == ({
                let i = source_cell(px, py, width as int, height as int, w as int, h as int);
                material_rgb(self.spec_cells().0[i], self.spec_cells().1[i])
            }) by {
                lemma_flat_in_grid(px, py, width as int, height as int);
                crate::grid::lemma_flat_coords(px, py, width as int);
            }
        }
        out
    }
}

} // verus!
