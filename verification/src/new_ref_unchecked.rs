//! The escape hatch for view types: wrap borrowed text whose validity the
//! caller has already established, without running the validator.

use vstd::prelude::*;

use crate::as_str::AsStr;
use crate::validate::Validate;

verus! {

/// Wrap already-valid borrowed text as a view, without re-validating.
///
/// The caller's claim of validity is not checked at run time: it is a
/// precondition, so every verified caller must prove it.  The view returned
/// aliases `input` directly; nothing is copied.
pub trait NewRefUnchecked<'a>: Sized + AsStr + Validate {
    /// Alias `input` as a view of this type.  `input` must already satisfy
    /// this type's validation contract.
    fn new_ref_unchecked(input: &'a str) -> (r: Self)
        requires
            Self::spec_valid(input@),
        ensures
            r.spec_str() == input@,
    ;
}

} // verus!
