//! Walking round a ring of `n` places: the little modular arithmetic that the
//! ring of a body, its long diagonals and its closed border all share.

use vstd::arithmetic::div_mod::lemma_fundamental_div_mod_converse_mod;
use vstd::arithmetic::div_mod::lemma_mod_add_multiples_vanish;
use vstd::prelude::*;

verus! {

/// A place within the ring is its own remainder; one within the next lap
/// stands `n` places further back.
pub proof fn lemma_lap(x: int, n: int)
    requires
        n > 0,
        0 <= x < 2 * n,
    ensures
        x % n == (if x < n {
            x
        } else {
            x - n
        }),
{
    if x < n {
        lemma_fundamental_div_mod_converse_mod(x, n, 0, x);
    } else {
        lemma_fundamental_div_mod_converse_mod(x, n, 1, x - n);
    }
}

/// A whole lap on from `x` is `x`'s own place.
pub proof fn lemma_start_again(x: int, n: int)
    requires
        n > 0,
    ensures
        (x + n) % n == x % n,
{
    lemma_mod_add_multiples_vanish(x, n);
}

} // verus!
