//! A free-standing view type with no owned counterpart: nonempty text.
//!
//! A view type can stand alone; nothing requires a matching owned type.

use vstd::prelude::*;

use crate::as_str::AsStr;
use crate::new_ref_unchecked::NewRefUnchecked;
use crate::pneu_str::PneuStr;
use crate::validate::Validate;

verus! {

/// A borrowed view over nonempty text.
#[derive(Clone, Copy, Debug, Eq, Hash, PartialEq)]
pub struct FreeStandingStr<'a> {
    s: &'a str,
}

impl<'a> FreeStandingStr<'a> {
    #[verifier::type_invariant]
    spec fn inv(self) -> bool {
        self.s@.len() > 0
    }
}

impl<'a> AsStr for FreeStandingStr<'a> {
    closed spec fn spec_str(&self) -> Seq<char> {
        self.s@
    }

    fn as_str(&self) -> &str {
        self.s
    }
}

impl<'a> Validate for FreeStandingStr<'a> {
    type Error = &'static str;

    open spec fn spec_valid(data: Seq<char>) -> bool {
        data.len() > 0
    }

    open spec fn spec_error(data: Seq<char>) -> &'static str {
        "empty string is not allowed"
    }

    fn validate(data: &str) -> (r: Result<(), &'static str>) {
        if data.is_empty() {
            Err("empty string is not allowed")
        } else {
            Ok(())
        }
    }
}

impl<'a> NewRefUnchecked<'a> for FreeStandingStr<'a> {
    fn new_ref_unchecked(input: &'a str) -> Self {
        FreeStandingStr { s: input }
    }
}

impl<'a> PneuStr<'a> for FreeStandingStr<'a> {

}

} // verus!
