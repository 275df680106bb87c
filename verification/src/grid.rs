use vstd::prelude::*;
use vstd::arithmetic::div_mod::{
    lemma_fundamental_div_mod, lemma_fundamental_div_mod_converse_div,
    lemma_fundamental_div_mod_converse_mod,
};

verus! {

/// Flat position of channel `c` of cell `(x, y)` in a row-major buffer of
/// `ch`-channel cells over a grid `w` cells wide.
pub open spec fn idx3(w: int, ch: int, x: int, y: int, c: int) -> int {
    (y * w + x) * ch + c
}

/// Cell column of a flat buffer position.
pub open spec fn flat_x(i: int, w: int, ch: int) -> int {
    (i / ch) % w
}

/// Cell row of a flat buffer position.
pub open spec fn flat_y(i: int, w: int, ch: int) -> int {
    (i / ch) / w
}

/// Channel of a flat buffer position.
pub open spec fn flat_c(i: int, ch: int) -> int {
    i % ch
}

pub proof fn lemma_idx3_bounds(w: int, h: int, ch: int, x: int, y: int, c: int)
    requires
        1 <= w,
        1 <= h,
        1 <= ch,
        0 <= x < w,
        0 <= y < h,
        0 <= c < ch,
    ensures
        0 <= idx3(w, ch, x, y, c) < w * h * ch,
{
    assert(0 <= (y * w + x) * ch + c < w * h * ch) by (nonlinear_arith)
        requires
            1 <= w && 1 <= h && 1 <= ch,
            0 <= x < w,
            0 <= y < h,
            0 <= c < ch,
    ;
}

/// Decomposing the flat position of `(x, y, c)` gives back `x`, `y` and `c`.
pub proof fn lemma_idx3_split(w: int, h: int, ch: int, x: int, y: int, c: int)
    requires
        1 <= w,
        1 <= h,
        1 <= ch,
        0 <= x < w,
        0 <= y < h,
        0 <= c < ch,
    ensures
        flat_x(idx3(w, ch, x, y, c), w, ch) == x,
        flat_y(idx3(w, ch, x, y, c), w, ch) == y,
        flat_c(idx3(w, ch, x, y, c), ch) == c,
{
    let i = idx3(w, ch, x, y, c);
    lemma_fundamental_div_mod_converse_div(i, ch, y * w + x, c);
    lemma_fundamental_div_mod_converse_mod(i, ch, y * w + x, c);
    assert(i / ch == y * w + x);
    lemma_fundamental_div_mod_converse_div(y * w + x, w, y, x);
    lemma_fundamental_div_mod_converse_mod(y * w + x, w, y, x);
}

/// Every flat position within the buffer decomposes into an in-range cell and
/// channel, and recomposing them gives the position back.
pub proof fn lemma_flat_split(w: int, h: int, ch: int, i: int)
    requires
        1 <= w,
        1 <= h,
        1 <= ch,
        0 <= i < w * h * ch,
    ensures
        0 <= flat_x(i, w, ch) < w,
        0 <= flat_y(i, w, ch) < h,
        0 <= flat_c(i, ch) < ch,
        idx3(w, ch, flat_x(i, w, ch), flat_y(i, w, ch), flat_c(i, ch)) == i,
{
    lemma_fundamental_div_mod(i, ch);
    let q = i / ch;
    let c = i % ch;
    assert(0 <= c < ch);
    assert(q >= 0) by {
        crate::fixed::lemma_div_range(i, ch);
    }
    assert(q < w * h) by {
        if q >= w * h {
            assert(ch * q + c >= w * h * ch) by (nonlinear_arith)
                requires
                    1 <= ch,
                    q >= w * h,
                    c >= 0,
                    w * h >= 1,
            ;
        }
    }
    lemma_fundamental_div_mod(q, w);
    let y = q / w;
    let x = q % w;
    assert(0 <= x < w);
    assert(y >= 0) by {
        crate::fixed::lemma_div_range(q, w);
    }
    assert(y < h) by {
        if y >= h {
            assert(w * y + x >= w * h) by (nonlinear_arith)
                requires
                    1 <= w,
                    y >= h,
                    x >= 0,
                    h >= 1,
            ;
        }
    }
    assert((y * w + x) * ch + c == i) by (nonlinear_arith)
        requires
            i == ch * q + c,
            q == w * y + x,
    ;
}

/// Flat position of channel `c` of cell `(x, y)`.
pub fn index3(w: usize, ch: usize, x: usize, y: usize, c: usize) -> (r: usize)
    requires
        1 <= w <= crate::fixed::GRID_MAX,
        x < w,
        y < crate::fixed::GRID_MAX,
        1 <= ch <= 4,
        c < ch,
    ensures
        r == idx3(w as int, ch as int, x as int, y as int, c as int),
{
    proof {
        assert(y * w <= 268435456 && (y * w + x) * ch + c < 1073741824) by (nonlinear_arith)
            requires
                y < 16384,
                1 <= w <= 16384,
                x < w,
                1 <= ch <= 4,
                c < ch,
        ;
    }
    (y * w + x) * ch + c
}

/// Cell and channel of a flat buffer position.
pub fn split_index(i: usize, w: usize, ch: usize) -> (r: (usize, usize, usize))
    requires
        1 <= w,
        1 <= ch,
    ensures
        r.0 == flat_x(i as int, w as int, ch as int),
        r.1 == flat_y(i as int, w as int, ch as int),
        r.2 == flat_c(i as int, ch as int),
{
    let q = i / ch;
    (q % w, q / w, i % ch)
}

} // verus!
