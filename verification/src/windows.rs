//! The two `itertools` adaptors the body's bookkeeping leans on, each behind a
//! function whose contract is taken on trust from the adaptor's source.

use itertools::Itertools;
use vstd::prelude::*;

verus! {

/// Runs `Itertools::tuple_windows` at width two over `items`.
///
/// Trusted: the adaptor hands out every pair of neighbours, in order, each
/// made of an item and the one right after it; fewer than two items give no
/// pair at all.
#[verifier::external_body]
pub(crate) fn pair_windows(items: Vec<usize>) -> (pairs: Vec<(usize, usize)>)
    ensures
        pairs@.len() == (if items@.len() == 0 {
            0
        } else {
            items@.len() - 1
        }),
        forall|i: int| 0 <= i < pairs@.len() ==> pairs@[i] == (items@[i], items@[i + 1]),
{
    items.into_iter().tuple_windows().collect()
}

/// Runs `Itertools::cartesian_product` over `left` and `right`.
///
/// Trusted: the adaptor pairs every item of `left` with every item of
/// `right`, walking `right` once in full for each item of `left`. The pairs
/// are gathered in a vector, so there must not be more of them than a vector
/// can count.
#[verifier::external_body]
pub(crate) fn product(left: Vec<usize>, right: Vec<i8>) -> (pairs: Vec<(usize, i8)>)
    requires
        left@.len() * right@.len() <= usize::MAX,
    ensures
        pairs@.len() == left@.len() * right@.len(),
        forall|i: int, j: int|
            #![trigger left@[i], right@[j]]
            0 <= i < left@.len() && 0 <= j < right@.len() ==> pairs@[i * right@.len() + j] == (
                left@[i],
                right@[j],
            ),
{
    left.into_iter().cartesian_product(right).collect()
}

} // verus!
