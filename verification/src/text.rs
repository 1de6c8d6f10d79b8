//! Small helpers on string slices.

use vstd::prelude::*;

verus! {

/// Equality of two string slices, by `str`'s `==` of the standard library.
/// Trusted: the result is claimed to be true exactly when both slices hold
/// the same characters.
#[verifier::external_body]
pub(crate) fn same_text(a: &str, b: &str) -> (same: bool)
    ensures
        same == (a@ == b@),
{
    a == b
}

} // verus!
