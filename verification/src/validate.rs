//! The validation contract: the pluggable predicate that defines which text
//! values a constrained type accepts, together with the error it reports.

use vstd::prelude::*;

use crate::as_str::AsStr;

verus! {

/// The validation contract for a constrained text type.
///
/// `spec_valid` is the single source of truth for what "valid" means for the
/// type; `spec_error` names the diagnosis reported for each invalid text.  The
/// executable `validate` decides the predicate exactly: it succeeds if and
/// only if the text is valid, and on failure it returns exactly the error the
/// specification names.  It is pure: it depends on the text alone.
pub trait Validate {
    /// The error reported when validation fails.
    type Error;

    /// Which text content this contract accepts.
    spec fn spec_valid(data: Seq<char>) -> bool;

    /// The diagnosis reported for invalid text.
    spec fn spec_error(data: Seq<char>) -> Self::Error;

    /// Decide the validation predicate for the given text.
    fn validate(data: &str) -> (r: Result<(), Self::Error>)
        ensures
            r is Ok <==> Self::spec_valid(data@),
            r is Err ==> r->Err_0 == Self::spec_error(data@),
    ;
}

/// The identity contract for unconstrained raw text: every text is valid, so
/// validation never fails.  This is the trivial base case of the contract.
impl Validate for str {
    type Error = &'static str;

    open spec fn spec_valid(data: Seq<char>) -> bool {
        true
    }

    open spec fn spec_error(data: Seq<char>) -> &'static str {
        ""
    }

    fn validate(data: &str) -> (r: Result<(), &'static str>) {
        Ok(())
    }
}

/// The result of passing text through a validation contract, as a value: valid
/// text is accepted unchanged, invalid text is rejected with the contract's
/// own error.  Every fallible construction path in this crate agrees with this
/// function, so validation happens exactly once, when text crosses from
/// unconstrained to constrained status, and never changes the text.
pub open spec fn spec_constrain<V: Validate + ?Sized>(data: Seq<char>) -> Result<Seq<char>, V::Error> {
    if V::spec_valid(data) {
        Result::Ok(data)
    } else {
        Result::Err(V::spec_error(data))
    }
}

/// What every fallible construction path returns: a constrained value whose
/// content is exactly the given text when the contract `V` accepts it, and
/// exactly `V`'s own error when it does not.
pub open spec fn constrain_matches<V: Validate + ?Sized, T: AsStr>(
    data: Seq<char>,
    r: Result<T, V::Error>,
) -> bool {
    match r {
        Result::Ok(v) => V::spec_valid(data) && v.spec_str() == data,
        Result::Err(e) => !V::spec_valid(data) && e == V::spec_error(data),
    }
}

/// Law: a construction result that matches the contract agrees with
/// `spec_constrain`: it succeeds exactly on the text `spec_constrain` accepts,
/// its content is that text unchanged, and its error is the contract's own.
pub proof fn lemma_constrain_matches_agrees<V: Validate + ?Sized, T: AsStr>(
    data: Seq<char>,
    r: Result<T, V::Error>,
)
    requires
        constrain_matches::<V, T>(data, r),
    ensures
        r is Ok <==> spec_constrain::<V>(data) is Ok,
        r is Ok ==> r->Ok_0.spec_str() == spec_constrain::<V>(data)->Ok_0,
        r is Err ==> r->Err_0 == spec_constrain::<V>(data)->Err_0,
{
}

/// Law: constraining text never changes its content; accepted text comes back
/// exactly as it went in.
pub proof fn lemma_constrain_preserves_content<V: Validate + ?Sized>(data: Seq<char>)
    ensures
        spec_constrain::<V>(data) is Ok ==> spec_constrain::<V>(data)->Ok_0 == data,
{
}

/// Law: for text the contract accepts, validating construction succeeds, and
/// the constructed value's text, read back directly or through its view, is
/// the input unchanged.
pub proof fn lemma_construction_round_trip<V: Validate + ?Sized>(data: Seq<char>)
    requires
        V::spec_valid(data),
    ensures
        spec_constrain::<V>(data) == Result::<Seq<char>, V::Error>::Ok(data),
{
}

/// Law: for text the contract rejects, every validating constructor fails,
/// and the error returned is the contract's own, unchanged.
pub proof fn lemma_construction_rejects<V: Validate + ?Sized>(data: Seq<char>)
    requires
        !V::spec_valid(data),
    ensures
        spec_constrain::<V>(data) == Result::<Seq<char>, V::Error>::Err(V::spec_error(data)),
{
}

/// Law: re-validating already-constrained text is idempotent; text accepted
/// once is accepted again, with the same content.
pub proof fn lemma_constrain_idempotent<V: Validate + ?Sized>(data: Seq<char>)
    requires
        spec_constrain::<V>(data) is Ok,
    ensures
        spec_constrain::<V>(spec_constrain::<V>(data)->Ok_0) == spec_constrain::<V>(data),
{
}

} // verus!
