use vstd::prelude::*;

verus! {

/// Draws a uniformly distributed integer from the closed range `min..=max`.
///
/// Trusted: calls `fastrand::usize(min..=max)` (re-exported by
/// `fastrand_contrib`). Its source returns `low + rng.gen_mod(len)` for a
/// non-empty range, so the value lies in `min..=max`; it panics on an empty
/// range, which `requires` excludes. Which value comes out is left open.
#[verifier::external_body]
pub fn random_int_range(min: usize, max: usize) -> (r: usize)
    requires
        min <= max,
    ensures
        min <= r <= max,
{
    fastrand_contrib::fastrand::usize(min..=max)
}

} // verus!
