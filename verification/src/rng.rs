use vstd::prelude::*;

verus! {

#[verifier::external_type_specification]
#[verifier::external_body]
pub struct ExRng(fastrand::Rng);

/// Relies on fastrand's Rng::usize over the half-open range below `n`, which
/// is non-empty here, so the draw cannot panic and lies below `n`. Nothing
/// more can be promised of a random draw.
#[verifier::external_body]
pub(crate) fn rng_usize_below(rng: &mut fastrand::Rng, n: usize) -> (r: usize)
    requires
        n >= 1,
    ensures
        r < n,
{
    rng.usize(0..n)
}

/// Relies on fastrand's Rng::bool; nothing can be promised of the outcome.
#[verifier::external_body]
pub(crate) fn rng_bool(rng: &mut fastrand::Rng) -> (r: bool) {
    rng.bool()
}

/// Relies on fastrand's Rng::shuffle, which permutes the slice in place by
/// swaps: the result holds the same items with the same multiplicities, in
/// some order.
#[verifier::external_body]
pub(crate) fn rng_shuffle_dirs(rng: &mut fastrand::Rng, dirs: &mut Vec<(i8, i8)>)
    ensures
        final(dirs)@.len() == old(dirs)@.len(),
        final(dirs)@.to_multiset() == old(dirs)@.to_multiset(),
        forall|i: int| 0 <= i < final(dirs)@.len() ==> old(dirs)@.contains(final(dirs)@[i]),
{
    rng.shuffle(dirs.as_mut_slice())
}

} // verus!
