//! The serialization gateway: where untrusted external text becomes a
//! constrained value, and where a constrained value becomes external text.
//!
//! On the way in, the full validating construction path runs and the
//! contract's error surfaces as the failure.  On the way out, the raw text is
//! emitted directly: a live value's invariant already guarantees validity, so
//! nothing re-validates.  A view deserializes by aliasing the input's storage
//! directly, without copying.

use vstd::prelude::*;

use crate::as_str::AsStr;
use crate::pneu_str::PneuStr;
use crate::pneu_string::PneuString;
use crate::validate::{constrain_matches, spec_constrain, Validate};

verus! {

/// Serialize a constrained owned value: emit exactly its text, without
/// re-validating.
pub fn serialize_pneu_string<T: PneuString>(v: &T) -> (r: &str)
    ensures
        r@ == v.spec_str(),
{
    v.as_str()
}

/// Deserialize untrusted text into a constrained owned value: validates, and
/// fails with the contract's own error exactly when the contract rejects.
pub fn deserialize_pneu_string<T: PneuString>(s: String) -> (r: Result<T, T::Error>)
    ensures
        constrain_matches::<T, T>(s@, r),
{
    T::try_new(s)
}

/// Serialize a constrained view: emit exactly its text, without
/// re-validating.
pub fn serialize_pneu_str<'a, T: PneuStr<'a>>(v: &T) -> (r: &str)
    ensures
        r@ == v.spec_str(),
{
    v.as_str()
}

/// Deserialize borrowed untrusted text into a constrained view: validates,
/// then aliases the input's storage directly; no copy is made.
pub fn deserialize_pneu_str<'a, T: PneuStr<'a>>(s: &'a str) -> (r: Result<T, T::Error>)
    ensures
        constrain_matches::<T, T>(s@, r),
{
    T::new_ref(s)
}

/// Law: the gateway round-trips.  Serialization emits a live value's content
/// unchanged, and deserializing that content succeeds and rebuilds the same
/// content, because validation accepts exactly what a live value already
/// guarantees.
pub proof fn lemma_gateway_round_trip<V: Validate + ?Sized>(content: Seq<char>)
    requires
        V::spec_valid(content),
    ensures
        spec_constrain::<V>(content) == Result::<Seq<char>, V::Error>::Ok(content),
{
}

} // verus!
