//! Random draws for the starting state.

use vstd::prelude::*;

verus! {

/// A draw from `lo..=hi`, each value as likely as any other.
///
/// Calls `rand::random_range` on the inclusive range, which samples from the
/// thread's generator. Taken on trust: the call returns, and what it returns
/// lies in the range. The range must not be empty, for the call panics on an
/// empty one. Two calls on one range may differ, so nothing more is said.
#[verifier::external_body]
pub(crate) fn random_in_range(lo: i64, hi: i64) -> (drawn: i64)
    requires
        lo <= hi,
    ensures
        lo <= drawn <= hi,
{
    rand::random_range(lo..=hi)
}

} // verus!
