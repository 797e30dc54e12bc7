//! String operations that the library needs and vstd does not specify.

use vstd::prelude::*;

verus! {

/// Equality of string slices, which is std's `==` on `str`. Trusted: two
/// slices are equal exactly when they hold the same characters in the same
/// order.
#[verifier::external_body]
pub(crate) fn str_eq(a: &str, b: &str) -> (same: bool)
    ensures
        same == (a@ == b@),
{
    a == b
}

} // verus!
