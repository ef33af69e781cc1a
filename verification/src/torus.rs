//! Toroidal coordinate arithmetic.
//!
//! A coordinate on a torus of circumference `len` is an integer in
//! `[0, len)`.  Adding a signed offset to it can leave that range in either
//! direction; the Euclidean remainder brings it back, so that stepping off
//! one edge reappears at the opposite edge.

use vstd::prelude::*;

verus! {

use vstd::arithmetic::div_mod::{lemma_fundamental_div_mod_converse, lemma_mod_bound};

/// The toroidally wrapped coordinate `(pos + delta) mod len`, where `%` on
/// `int` is the Euclidean remainder: non-negative for every `pos + delta`
/// whenever `len > 0`.
pub open spec fn wrap_spec(pos: int, delta: int, len: int) -> int {
    (pos + delta) % len
}

/// Wrapping moves a coordinate that has stepped just outside `[0, len)`
/// to the opposite edge, and leaves a coordinate inside the range alone.
pub proof fn lemma_wrap_near(len: int, t: int)
    requires
        0 < len,
        -1 <= t <= len,
    ensures
        t % len == (if t < 0 {
            t + len
        } else if t >= len {
            t - len
        } else {
            t
        }),
{
    if t < 0 {
        lemma_fundamental_div_mod_converse(t, len, -1, t + len);
    } else if t >= len {
        lemma_fundamental_div_mod_converse(t, len, 1, t - len);
    } else {
        lemma_fundamental_div_mod_converse(t, len, 0, t);
    }
}

/// Wraps `pos + delta` back into `[0, len)`, treating row (or column)
/// numbers as positions on a torus of circumference `len`.  A negative sum
/// wraps to the high end of the range, never to a negative index.
pub fn wrap_add(pos: usize, delta: i32, len: usize) -> (r: usize)
    requires
        0 < len,
        pos < len,
    ensures
        r < len,
        r == wrap_spec(pos as int, delta as int, len as int),
{
    let sum: i128 = pos as i128 + delta as i128;
    let l: i128 = len as i128;
    proof {
        lemma_mod_bound(sum as int, l as int);
    }
    let w: i128 = sum.checked_rem_euclid(l).unwrap();
    w as usize
}

} // verus!
