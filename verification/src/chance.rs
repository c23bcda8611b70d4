//! The library's source of randomness: the thread-local generator of the
//! `rand` crate. Nothing here is proved; each contract states what the
//! crate's source shows of the call, for every outcome of the draw.

use vstd::prelude::*;

verus! {

/// `rand::Rng::gen_range(0, bound)` on `rand::thread_rng()`: a number at
/// least 0 and less than `bound`. The call panics where the range is empty,
/// so `bound` has to be positive.
#[verifier::external_body]
pub(crate) fn random_below(bound: usize) -> (res: usize)
    requires
        bound > 0,
    ensures
        res < bound,
{
    rand::Rng::gen_range(&mut rand::thread_rng(), 0, bound)
}

/// `rand::random::<bool>()`: either truth value; nothing is promised of it.
#[verifier::external_body]
pub(crate) fn random_bool() -> bool {
    rand::random()
}

/// `rand::Rng::shuffle` on `rand::thread_rng()`: the call only swaps
/// elements of `values`, so afterwards the slice holds what it held before,
/// each element as often as before, in some order.
#[verifier::external_body]
pub(crate) fn shuffle<T>(values: &mut [T])
    ensures
        final(values)@.to_multiset() == old(values)@.to_multiset(),
{
    rand::Rng::shuffle(&mut rand::thread_rng(), values)
}

/// `rand::Rng::choose` on `rand::thread_rng()`: `None` for an empty slice,
/// else a reference to one of its elements.
#[verifier::external_body]
pub(crate) fn pick_one<'a, T>(values: &'a [T]) -> (res: Option<&'a T>)
    ensures
        values@.len() == 0 ==> res is None,
        values@.len() > 0 ==> res is Some && values@.contains(*res->0),
{
    rand::Rng::choose(&mut rand::thread_rng(), values)
}

} // verus!
