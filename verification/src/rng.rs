use vstd::prelude::*;

verus! {

/// Relies on rand::Rng::gen_range over `0..n`: the sample is drawn from the
/// half-open range, which is nonempty because `n >= 1`, so the call does not
/// panic and the result is below `n`.
#[verifier::external_body]
pub(crate) fn random_below(n: usize) -> (r: usize)
    requires
        1 <= n,
    ensures
        r < n,
{
    rand::Rng::gen_range(&mut rand::thread_rng(), 0..n)
}

/// Relies on rand::random for `bool`: a fair coin flip. Either answer can
/// come back, so nothing is promised of the outcome.
#[verifier::external_body]
pub(crate) fn random_flag() -> (r: bool) {
    rand::random::<bool>()
}

} // verus!
