use vstd::prelude::*;
use crate::color::Color;
use crate::grid::{flat, lemma_flat_coords, lemma_flat_in_grid};

verus! {

/// Side of the block of pixels that shows one cell along an axis of `extent`
/// pixels holding `cells` cells: the whole number of pixels per cell, at least one.
pub open spec fn block(extent: int, cells: int) -> int {
    if extent / cells >= 1 { extent / cells } else { 1 }
}

/// The grid cell that pixel `(px, py)` shows when a `gw` by `gh` grid is drawn on a
/// `width` by `height` canvas, or `None` for the margin beyond the grid.
pub open spec fn pixel_cell(px: int, py: int, width: int, height: int, gw: int, gh: int) -> Option<
    (int, int),
> {
    let gx = px / block(width, gw);
    let gy = py / block(height, gh);
    if gx < gw && gy < gh { Some((gx, gy)) } else { None }
}

pub open spec fn black() -> Color {
    Color { r: 0, g: 0, b: 0 }
}

/// Whether `c` is the colour that pixel `(px, py)` gets: the colour `cell_color`
/// gives the cell under it, black in the margin.
pub open spec fn shows<F: Fn(usize, usize) -> Color>(
    cell_color: F,
    c: Color,
    px: int,
    py: int,
    width: int,
    height: int,
    gw: int,
    gh: int,
) -> bool {
    match pixel_cell(px, py, width, height, gw, gh) {
        Some((gx, gy)) => cell_color.ensures((gx as usize, gy as usize), c),
        None => c == black(),
    }
}

fn block_size(extent: usize, cells: usize) -> (r: usize)
    requires
        cells > 0,
    ensures
        r == block(extent as int, cells as int),
        r >= 1,
{
    let b = extent / cells;
    if b >= 1 {
        b
    } else {
        1
    }
}

/// Draws a `gw` by `gh` grid on a `width` by `height` canvas, row-major: each pixel
/// takes the colour of the cell under it, and pixels beyond the grid are black.
pub fn render<F: Fn(usize, usize) -> Color>(
    width: usize,
    height: usize,
    gw: usize,
    gh: usize,
    cell_color: &F,
) -> (r: Vec<Color>)
    requires
        gw > 0,
        gh > 0,
        width * height <= usize::MAX,
        forall|x: usize, y: usize| x < gw && y < gh ==> cell_color.requires((x, y)),
    ensures
        r@.len() == width * height,
        forall|px: int, py: int|
            0 <= px < width && 0 <= py < height ==> shows(
                *cell_color,
                #[trigger] r@[flat(px, py, width as int)],
                px,
                py,
                width as int,
                height as int,
                gw as int,
                gh as int,
            ),
{
    let cw = block_size(width, gw);
    let ch = block_size(height, gh);
    let mut out: Vec<Color> = Vec::with_capacity(width * height);
    let mut py: usize = 0;
    while py < height
        invariant
            py <= height,
            cw == block(width as int, gw as int),
            ch == block(height as int, gh as int),
            cw >= 1,
            ch >= 1,
            gw > 0,
            gh > 0,
            width * height <= usize::MAX,
            forall|x: usize, y: usize| x < gw && y < gh ==> cell_color.requires((x, y)),
            out@.len() == py * width,
            forall|i: int|
                0 <= i < py * width ==> shows(
                    *cell_color,
                    #[trigger] out@[i],
                    i % (width as int),
                    i / (width as int),
                    width as int,
                    height as int,
                    gw as int,
                    gh as int,
                ),
        decreases height - py,
    {
        let mut px: usize = 0;
        while px < width
            invariant
                px <= width,
                py < height,
                cw == block(width as int, gw as int),
                ch == block(height as int, gh as int),
                cw >= 1,
                ch >= 1,
                gw > 0,
                gh > 0,
                width * height <= usize::MAX,
                forall|x: usize, y: usize| x < gw && y < gh ==> cell_color.requires((x, y)),
                out@.len() == py * width + px,
                forall|i: int|
                    0 <= i < py * width + px ==> shows(
                        *cell_color,
                        #[trigger] out@[i],
                        i % (width as int),
                        i / (width as int),
                        width as int,
                        height as int,
                        gw as int,
                        gh as int,
                    ),
            decreases width - px,
        {
            proof {
                lemma_flat_in_grid(px as int, py as int, width as int, height as int);
                lemma_flat_coords(px as int, py as int, width as int);
            }
            let gx = px / cw;
            let gy = py / ch;
            let c = if gx < gw && gy < gh {
                cell_color(gx, gy)
            } else {
                Color { r: 0, g: 0, b: 0 }
            };
            out.push(c);
            px = px + 1;
        }
        proof {
            assert((py + 1) * width == py * width + width) by (nonlinear_arith);
        }
        py = py + 1;
    }
    proof {
        assert(height * width == width * height) by (nonlinear_arith);
        assert forall|px: int, py: int| 0 <= px < width && 0 <= py < height implies shows(
            *cell_color,
            #[trigger] out@[flat(px, py, width as int)],
            px,
            py,
            width as int,
            height as int,
            gw as int,
            gh as int,
        ) by {
            lemma_flat_in_grid(px, py, width as int, height as int);
            lemma_flat_coords(px, py, width as int);
        }
    }
    out
}

/// Whether `(x, y)` lies on a `width` by `height` canvas.
pub open spec fn on_canvas(x: int, y: int, width: int, height: int) -> bool {
    0 <= x < width && 0 <= y < height
}

/// Whether `(x, y)` lies in the bounding box of the segment from `(x0, y0)` to `(x1, y1)`.
pub open spec fn in_segment_box(x: int, y: int, x0: int, y0: int, x1: int, y1: int) -> bool {
    &&& (x0 <= x <= x1 || x1 <= x <= x0)
    &&& (y0 <= y <= y1 || y1 <= y <= y0)
}

fn plot(pixels: &mut Vec<Color>, width: usize, height: usize, x: i64, y: i64, color: Color)
    requires
        old(pixels)@.len() == width * height,
    ensures
        final(pixels)@.len() == old(pixels)@.len(),
        on_canvas(x as int, y as int, width as int, height as int) ==> final(pixels)@ == old(pixels)@.update(
            flat(x as int, y as int, width as int),
            color,
        ),
        !on_canvas(x as int, y as int, width as int, height as int) ==> final(pixels)@ == old(pixels)@,
{
    let _len = pixels.len();
    if x >= 0 && y >= 0 && (x as u64 as u128) < (width as u128) && (y as u64 as u128) < (height as u128) {
        let xu = x as usize;
        let yu = y as usize;
        proof {
            lemma_flat_in_grid(xu as int, yu as int, width as int, height as int);
        }
        pixels.set(yu * width + xu, color);
    }
}

/// Draws the segment from `(x0, y0)` to `(x1, y1)` with Bresenham's algorithm,
/// stepping one pixel at a time along the major axis; the parts off the canvas are
/// skipped. Both end points are drawn, and nothing outside the segment's bounding
/// box changes.
pub fn draw_line(
    pixels: &mut Vec<Color>,
    width: usize,
    height: usize,
    x0: i32,
    y0: i32,
    x1: i32,
    y1: i32,
    color: Color,
)
    requires
        old(pixels)@.len() == width * height,
    ensures
        final(pixels)@.len() == old(pixels)@.len(),
        on_canvas(x0 as int, y0 as int, width as int, height as int) ==> final(pixels)@[flat(
            x0 as int,
            y0 as int,
            width as int,
        )] == color,
        on_canvas(x1 as int, y1 as int, width as int, height as int) ==> final(pixels)@[flat(
            x1 as int,
            y1 as int,
            width as int,
        )] == color,
        forall|k: int|
            0 <= k < final(pixels)@.len() ==> #[trigger] final(pixels)@[k] == old(pixels)@[k] || (
            final(pixels)@[k] == color && in_segment_box(
                k % (width as int),
                k / (width as int),
                x0 as int,
                y0 as int,
                x1 as int,
                y1 as int,
            )),
{
    let ghost start = pixels@;
    let ghost n = pixels@.len();
    let dx: i64 = if x1 >= x0 { x1 as i64 - x0 as i64 } else { x0 as i64 - x1 as i64 };
    let dy: i64 = if y1 >= y0 { y0 as i64 - y1 as i64 } else { y1 as i64 - y0 as i64 };
    let sx: i64 = if x0 < x1 { 1 } else { -1 };
    let sy: i64 = if y0 < y1 { 1 } else { -1 };
    let mut err: i128 = dx as i128 + dy as i128;
    let mut x: i64 = x0 as i64;
    let mut y: i64 = y0 as i64;
    let ghost mut i: int = 0;
    let ghost mut j: int = 0;
    proof {
        if on_canvas(x as int, y as int, width as int, height as int) {
            crate::grid::lemma_flat_coords(x as int, y as int, width as int);
            lemma_flat_in_grid(x as int, y as int, width as int, height as int);
        }
        assert(err == dx * (1 + j) + dy * (1 + i)) by (nonlinear_arith)
            requires
                i == 0,
                j == 0,
                err == dx + dy,
        ;
    }
    plot(pixels, width, height, x, y, color);
    loop
        invariant
            pixels@.len() == n,
            n == width * height,
            start == old(pixels)@,
            dx == if x1 >= x0 { x1 - x0 } else { x0 - x1 },
            dy == if y1 >= y0 { y0 - y1 } else { y1 - y0 },
            sx == if x0 < x1 { 1int } else { -1int },
            sy == if y0 < y1 { 1int } else { -1int },
            x == if x0 < x1 { x0 + i } else { x0 - i },
            y == if y0 < y1 { y0 + j } else { y0 - j },
            err == dx * (1 + j) + dy * (1 + i),
            0 <= i <= dx,
            0 <= j <= -dy,
            on_canvas(x0 as int, y0 as int, width as int, height as int) ==> 0 <= flat(x0 as int, y0 as int, width as int) < n,
            on_canvas(x0 as int, y0 as int, width as int, height as int) ==> pixels@[flat(x0 as int, y0 as int, width as int)] == color,
            on_canvas(x as int, y as int, width as int, height as int) ==> pixels@[flat(x as int, y as int, width as int)] == color,
            forall|k: int|
                0 <= k < n ==> #[trigger] pixels@[k] == start[k] || (pixels@[k] == color && in_segment_box(
                    k % (width as int),
                    k / (width as int),
                    x0 as int,
                    y0 as int,
                    x1 as int,
                    y1 as int,
                )),
        ensures
            x == x1 && y == y1,
            pixels@.len() == n,
            on_canvas(x0 as int, y0 as int, width as int, height as int) ==> pixels@[flat(x0 as int, y0 as int, width as int)] == color,
            on_canvas(x as int, y as int, width as int, height as int) ==> pixels@[flat(x as int, y as int, width as int)] == color,
            forall|k: int|
                0 <= k < n ==> #[trigger] pixels@[k] == start[k] || (pixels@[k] == color && in_segment_box(
                    k % (width as int),
                    k / (width as int),
                    x0 as int,
                    y0 as int,
                    x1 as int,
                    y1 as int,
                )),
        decreases (dx - i) + (-dy - j),
    {
        if x == x1 as i64 && y == y1 as i64 {
            break;
        }
        proof {
            let a = dx as int;
            let b = dy as int;
            if i == a && j < -b {
                assert(err <= b) by (nonlinear_arith)
                    requires
                        err == a * (1 + j) + b * (1 + i),
                        i == a,
                        j < -b,
                        a >= 0,
                        j >= 0,
                ;
            }
            if j == -b && i < a {
                assert(err >= a) by (nonlinear_arith)
                    requires
                        err == a * (1 + j) + b * (1 + i),
                        j == -b,
                        i < a,
                        b <= 0,
                        i >= 0,
                ;
            }
            assert(0 <= a * (1 + j) <= a * (1 - b)) by (nonlinear_arith)
                requires
                    0 <= j <= -b,
                    a >= 0,
            ;
            assert(b * (1 + a) <= b * (1 + i) <= 0) by (nonlinear_arith)
                requires
                    0 <= i <= a,
                    b <= 0,
            ;
            assert(a <= 0x1_0000_0000 && -b <= 0x1_0000_0000);
            assert(a * (1 - b) <= 0x1_0000_0000 * 0x1_0000_0001) by (nonlinear_arith)
                requires
                    0 <= a <= 0x1_0000_0000,
                    0 <= -b <= 0x1_0000_0000,
            ;
            assert(b * (1 + a) >= -(0x1_0000_0000 * 0x1_0000_0001)) by (nonlinear_arith)
                requires
                    0 <= a <= 0x1_0000_0000,
                    0 <= -b <= 0x1_0000_0000,
            ;
        }
        let e2: i128 = 2 * err;
        if e2 >= dy as i128 {
            err = err + dy as i128;
            x = x + sx;
            proof {
                assert(dy * (1 + (i + 1)) == dy * (1 + i) + dy) by (nonlinear_arith);
                i = i + 1;
            }
        }
        if e2 <= dx as i128 {
            err = err + dx as i128;
            y = y + sy;
            proof {
                assert(dx * (1 + (j + 1)) == dx * (1 + j) + dx) by (nonlinear_arith);
                j = j + 1;
            }
        }
        proof {
            if width > 0 && on_canvas(x as int, y as int, width as int, height as int) {
                crate::grid::lemma_flat_coords(x as int, y as int, width as int);
                lemma_flat_in_grid(x as int, y as int, width as int, height as int);
            }
        }
        plot(pixels, width, height, x, y, color);
    }
}

} // verus!
