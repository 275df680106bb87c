use vstd::prelude::*;
use crate::fixed::{SCALE, GRID_MAX, fdiv, lemma_div_range, lemma_div_mono};
use vstd::arithmetic::div_mod::lemma_div_multiples_vanish;

verus! {

/// Relies on `rand::random`: an arbitrary value of the type.  Nothing can be
/// promised of a random value beyond its type's range.  The call can abort if
/// the operating system's randomness source fails while the thread-local
/// generator seeds itself — an environmental failure of the same kind as an
/// allocation failure, not a function of the arguments.
pub assume_specification<T>[ rand::random::<T> ]() -> (r: T)
    where
        rand::distr::StandardUniform: rand::distr::Distribution<T>,
;

/// An initial canvas of random color noise: every cell gets three random
/// color channels scaled into `[0, SCALE]` and a fully opaque alpha channel.
/// Whatever bytes the generator returns, every sample lands in `[0, SCALE]`.
pub fn noise_field(w: usize, h: usize) -> (r: Vec<i64>)
    requires
        1 <= w <= GRID_MAX,
        1 <= h <= GRID_MAX,
    ensures
        r@.len() == w * h * 4,
        forall|i: int| 0 <= i < r@.len() ==> 0 <= #[trigger] r@[i] <= SCALE,
        forall|i: int| 0 <= i < r@.len() && i % 4 == 3 ==> r@[i] == SCALE,
{
    proof {
        assert(w * h * 4 <= 16384 * 16384 * 4) by (nonlinear_arith)
            requires
                1 <= w <= 16384 && 1 <= h <= 16384,
        ;
    }
    let len = w * h * 4;
    let mut out: Vec<i64> = Vec::with_capacity(len);
    let mut i: usize = 0;
    while i < len
        invariant
            out@.len() == i,
            i <= len,
            forall|j: int| 0 <= j < i ==> 0 <= #[trigger] out@[j] <= SCALE,
            forall|j: int| 0 <= j < i && j % 4 == 3 ==> out@[j] == SCALE,
        decreases len - i,
    {
        if i % 4 == 3 {
            out.push(SCALE);
        } else {
            let b: u8 = rand::random::<u8>();
            proof {
                lemma_div_range((b as int) * (SCALE as int), 255);
                lemma_div_mono((b as int) * (SCALE as int), 255 * (SCALE as int), 255);
                lemma_div_multiples_vanish(SCALE as int, 255);
            }
            out.push(fdiv((b as i64) * SCALE, 255));
        }
        i = i + 1;
    }
    out
}

} // verus!
