//! The owned side of a constrained text type: a heap-backed, growable wrapper
//! around a text buffer whose content is guaranteed valid.

use vstd::prelude::*;

use crate::as_str::AsStr;
use crate::validate::{constrain_matches, Validate};

verus! {

/// A constrained owned type: it exclusively owns its text buffer, and its
/// existence guarantees that the buffer satisfies the validation contract.
///
/// `try_new` and `try_new_str` are the validating constructors; both check the
/// text exactly once, at the moment it crosses from unconstrained to
/// constrained status.  `new_unchecked` is the escape hatch: its claim of
/// validity is a precondition that every verified caller must prove.  The
/// provided constructors apply to every owned type, so a concrete type only
/// supplies the escape hatch, the dissolution into raw text, and the contract
/// itself.
pub trait PneuString: Sized + AsStr + Validate {
    /// Take ownership of already-valid text without re-validating.  The text
    /// must already satisfy this type's validation contract.
    fn new_unchecked(s: String) -> (r: Self)
        requires
            Self::spec_valid(s@),
        ensures
            r.spec_str() == s@,
    ;

    /// Dissolve this value and take the underlying text buffer; no validation
    /// is needed, since a live value already guarantees validity.
    fn into_string(self) -> (r: String)
        ensures
            r@ == self.spec_str(),
    ;

    /// Validate the given text and take ownership of it.  Fails if and only
    /// if the validation contract fails, returning the contract's own error
    /// unchanged.
    fn try_new(s: String) -> (r: Result<Self, Self::Error>)
        ensures
            constrain_matches::<Self, Self>(s@, r),
    {
        match Self::validate(s.as_str()) {
            Ok(()) => Ok(Self::new_unchecked(s)),
            Err(e) => Err(e),
        }
    }

    /// Validate the given borrowed text and copy it into an owned value.
    /// Identical contract to `try_new`.
    fn try_new_str(s: &str) -> (r: Result<Self, Self::Error>)
        ensures
            constrain_matches::<Self, Self>(s@, r),
    {
        match Self::validate(s) {
            Ok(()) => Ok(Self::new_unchecked(s.to_owned())),
            Err(e) => Err(e),
        }
    }
}

/// Law: the promotion round-trip is content-equal.  Viewing an owned value
/// yields a view with the owned value's content, and promoting that view
/// copies the view's content, so what comes back equals what was viewed.
/// The two premises are exactly what `as_pneu_str` and `to_owned` ensure.
pub proof fn lemma_promotion_round_trip(owned: Seq<char>, viewed: Seq<char>, promoted: Seq<char>)
    requires
        viewed == owned,
        promoted == viewed,
    ensures
        promoted == owned,
{
}

/// An unconstrained `String` is itself the trivial owned constrained type,
/// under the identity contract.
impl Validate for String {
    type Error = &'static str;

    open spec fn spec_valid(data: Seq<char>) -> bool {
        true
    }

    open spec fn spec_error(data: Seq<char>) -> &'static str {
        ""
    }

    fn validate(data: &str) -> (r: Result<(), &'static str>) {
        Ok(())
    }
}

impl PneuString for String {
    fn new_unchecked(s: String) -> Self {
        s
    }

    fn into_string(self) -> String {
        self
    }
}

} // verus!
