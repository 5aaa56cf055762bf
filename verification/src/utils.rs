//! Small generic helpers and string utilities shared across the crate.

use std::cmp::Ordering;
use vstd::prelude::*;
use vstd::std_specs::cmp::PartialOrdSpec;

verus! {

/// Maximum of two values that implement the `PartialOrd` trait.
pub fn max<T: PartialOrd>(x: T, y: T) -> (r: T)
    ensures
        T::obeys_partial_cmp_spec() ==> r == (if x.partial_cmp_spec(&y) == Some(
            Ordering::Greater,
        ) {
            x
        } else {
            y
        }),
{
    if x > y {
        x
    } else {
        y
    }
}

/// Minimum of two values that implement the `PartialOrd` trait.
pub fn min<T: PartialOrd>(x: T, y: T) -> (r: T)
    ensures
        T::obeys_partial_cmp_spec() ==> r == (if x.partial_cmp_spec(&y) == Some(Ordering::Less) {
            x
        } else {
            y
        }),
{
    if x < y {
        x
    } else {
        y
    }
}

/// Relies on str's `PartialEq`: two string slices compare equal exactly when
/// their character sequences are equal.
#[verifier::external_body]
pub(crate) fn str_eq(a: &str, b: &str) -> (r: bool)
    ensures
        r == (a@ == b@),
{
    a == b
}

} // verus!
