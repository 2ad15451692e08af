use vstd::prelude::*;
use vstd::arithmetic::div_mod::{
    lemma_fundamental_div_mod, lemma_fundamental_div_mod_converse, lemma_mod_multiples_vanish,
};

verus! {

/// Reduces a coordinate onto `[0, n)` as on a torus.
pub open spec fn wrap(v: int, n: int) -> int {
    v % n
}

/// Flat row-major index of cell `(x, y)` in a grid `w` cells wide.
pub open spec fn flat(x: int, y: int, w: int) -> int {
    y * w + x
}

/// A grid of `w` by `h` cells whose flat index fits in `usize`.
pub open spec fn dims_ok(w: int, h: int) -> bool {
    w > 0 && h > 0 && w * h <= usize::MAX
}

pub proof fn lemma_flat_in_grid(x: int, y: int, w: int, h: int)
    requires
        0 <= x < w,
        0 <= y < h,
    ensures
        0 <= flat(x, y, w) < w * h,
        flat(x, y, w) + 1 <= w * h,
{
    assert(0 <= y * w + x < w * h) by (nonlinear_arith)
        requires
            0 <= x < w,
            0 <= y < h,
    ;
}

/// The coordinates of a flat index are its remainder and quotient by the width.
pub proof fn lemma_flat_coords(x: int, y: int, w: int)
    requires
        0 <= x < w,
        0 <= y,
    ensures
        flat(x, y, w) % w == x,
        flat(x, y, w) / w == y,
{
    lemma_fundamental_div_mod_converse(flat(x, y, w), w, y, x);
}

/// Every flat index below `w * h` is the index of a cell of the grid.
pub proof fn lemma_coords_in_grid(i: int, w: int, h: int)
    requires
        w > 0,
        0 <= i < w * h,
    ensures
        0 <= i % w < w,
        0 <= i / w < h,
        flat(i % w, i / w, w) == i,
{
    assert(i == (i / w) * w + i % w && 0 <= i % w < w) by (nonlinear_arith)
        requires
            w > 0,
    ;
    assert(0 <= i / w < h) by (nonlinear_arith)
        requires
            w > 0,
            0 <= i < w * h,
            i == (i / w) * w + i % w,
            0 <= i % w < w,
    ;
}

pub proof fn lemma_wrap_exact(v: int, n: int, q: int, r: int)
    requires
        n > 0,
        0 <= r < n,
        v == q * n + r,
    ensures
        wrap(v, n) == r,
{
    lemma_fundamental_div_mod_converse(v, n, q, r);
}

/// The cell before `x` on a ring of `n` cells.
pub fn wrap_prev(x: usize, n: usize) -> (r: usize)
    requires
        x < n,
    ensures
        r < n,
        r as int == wrap(x - 1, n as int),
{
    proof {
        if x == 0 {
            lemma_wrap_exact(x - 1, n as int, -1, n - 1);
        } else {
            lemma_wrap_exact(x - 1, n as int, 0, x - 1);
        }
    }
    if x == 0 {
        n - 1
    } else {
        x - 1
    }
}

/// The cell after `x` on a ring of `n` cells.
pub fn wrap_next(x: usize, n: usize) -> (r: usize)
    requires
        x < n,
    ensures
        r < n,
        r as int == wrap(x + 1, n as int),
{
    proof {
        if x + 1 == n {
            lemma_wrap_exact(x + 1, n as int, 1, 0);
        } else {
            lemma_wrap_exact(x + 1, n as int, 0, x + 1);
        }
    }
    if x + 1 == n {
        0
    } else {
        x + 1
    }
}

/// Moving a wrapped coordinate by `d` lands where moving the raw one does.
pub proof fn lemma_wrap_shift(a: int, d: int, n: int)
    requires
        n > 0,
    ensures
        wrap(wrap(a, n) + d, n) == wrap(a + d, n),
{
    lemma_fundamental_div_mod(a, n);
    lemma_mod_multiples_vanish(a / n, a % n + d, n);
    assert(a + d == n * (a / n) + (a % n + d));
}

/// The cell `d` steps along from `x` on a ring of `n` cells, for a step of at most two.
pub fn shift(x: usize, d: i32, n: usize) -> (r: usize)
    requires
        x < n,
        -2 <= d <= 2,
    ensures
        r < n,
        r as int == wrap(x + d, n as int),
{
    proof {
        lemma_wrap_exact(x as int, n as int, 0, x as int);
    }
    if d == 0 {
        x
    } else if d == 1 {
        wrap_next(x, n)
    } else if d == -1 {
        wrap_prev(x, n)
    } else if d == 2 {
        let a = wrap_next(x, n);
        proof {
            lemma_wrap_shift(x + 1, 1, n as int);
        }
        wrap_next(a, n)
    } else {
        let a = wrap_prev(x, n);
        proof {
            lemma_wrap_shift(x - 1, -1, n as int);
        }
        wrap_prev(a, n)
    }
}

} // verus!
