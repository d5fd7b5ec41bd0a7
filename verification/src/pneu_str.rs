//! The view side of a constrained text type: a borrowed, zero-copy wrapper
//! over existing text storage whose content is guaranteed valid.

use vstd::prelude::*;

use crate::as_str::AsStr;
use crate::new_ref_unchecked::NewRefUnchecked;
use crate::validate::{constrain_matches, Validate};

verus! {

/// A constrained view type: it aliases borrowed text, owns nothing, and its
/// existence guarantees that the aliased text satisfies the validation
/// contract.
///
/// `new_ref` is the only validating constructor; it checks the text exactly
/// once and aliases it without copying.  The provided implementation applies
/// to every view type, so a concrete type only supplies the escape hatch and
/// the contract itself.
pub trait PneuStr<'a>: Sized + AsStr + Validate + NewRefUnchecked<'a> {
    /// Validate the given text and alias it as a view; no copy is made.
    /// Fails if and only if the validation contract fails, returning the
    /// contract's own error unchanged.
    fn new_ref(s: &'a str) -> (r: Result<Self, Self::Error>)
        ensures
            constrain_matches::<Self, Self>(s@, r),
    {
        match Self::validate(s) {
            Ok(()) => Ok(Self::new_ref_unchecked(s)),
            Err(e) => Err(e),
        }
    }
}

} // verus!
