//! The generic binding layer: constrained text parameterized by an auxiliary
//! value type, where "valid" means "this text parses as a value of that type".

use vstd::prelude::*;

use crate::as_str::AsStr;
use crate::new_ref_unchecked::NewRefUnchecked;
use crate::pneu_str::PneuStr;
use crate::pneu_string::PneuString;
use crate::validate::Validate;

verus! {

/// An auxiliary value type that text can be parsed into and formatted from.
///
/// `spec_parses` and `spec_value` say which text the type's canonical parser
/// accepts and what value it yields; `spec_text` says what text formatting a
/// value produces.  The relationship "formatted text parses back to an equal
/// value" is an expectation on the implementer, not something this trait
/// forces: [`ValueString::set_value`] states it as a precondition, and the
/// implementations shipped here prove it as explicit lemmas.
pub trait AuxValue: Sized {
    /// Which text the canonical parser accepts.
    spec fn spec_parses(text: Seq<char>) -> bool;

    /// The value the canonical parser yields on accepted text.
    spec fn spec_value(text: Seq<char>) -> Self;

    /// The text that formatting this value produces.
    spec fn spec_text(&self) -> Seq<char>;

    /// Run the canonical parser: yields the parsed value exactly on the text
    /// that `spec_parses` accepts.
    fn parse_text(text: &str) -> (r: Option<Self>)
        ensures
            match r {
                Some(v) => Self::spec_parses(text@) && v == Self::spec_value(text@),
                None => !Self::spec_parses(text@),
            },
    ;

    /// Format this value as text.
    fn format_value(&self) -> (r: String)
        ensures
            r@ == self.spec_text(),
    ;
}

/// A borrowed view over text that parses as a value of type `T`.  Holding a
/// value of this type is proof that the aliased text parses.
#[derive(Debug, Eq, Hash, PartialEq)]
pub struct ValueStr<'a, T: AuxValue> {
    p: core::marker::PhantomData<T>,
    s: &'a str,
}

impl<'a, T: AuxValue> ValueStr<'a, T> {
    #[verifier::type_invariant]
    spec fn inv(self) -> bool {
        T::spec_parses(self.s@)
    }

    /// Parse the already-valid text; infallible, because a live view is proof
    /// that the text parses.
    pub fn to_value(&self) -> (r: T)
        ensures
            r == T::spec_value(self.spec_str()),
    {
        proof {
            use_type_invariant(&*self);
        }
        match T::parse_text(self.s) {
            Some(v) => v,
            None => vstd::pervasive::unreached(),
        }
    }

    /// Promote this view to an owned [`ValueString`] by copying the aliased
    /// text; always succeeds, since the view is already proof of validity.
    pub fn to_owned(&self) -> (r: ValueString<T>)
        ensures
            r.spec_str() == self.spec_str(),
    {
        proof {
            use_type_invariant(&*self);
        }
        ValueString { p: core::marker::PhantomData, s: self.s.to_owned() }
    }
}

impl<'a, T: AuxValue> AsStr for ValueStr<'a, T> {
    closed spec fn spec_str(&self) -> Seq<char> {
        self.s@
    }

    fn as_str(&self) -> &str {
        self.s
    }
}

impl<'a, T: AuxValue> Validate for ValueStr<'a, T> {
    type Error = &'static str;

    open spec fn spec_valid(data: Seq<char>) -> bool {
        T::spec_parses(data)
    }

    open spec fn spec_error(data: Seq<char>) -> &'static str {
        "parse error in value"
    }

    fn validate(data: &str) -> (r: Result<(), &'static str>) {
        match T::parse_text(data) {
            Some(_) => Ok(()),
            None => Err("parse error in value"),
        }
    }
}

impl<'a, T: AuxValue> NewRefUnchecked<'a> for ValueStr<'a, T> {
    fn new_ref_unchecked(input: &'a str) -> Self {
        ValueStr { p: core::marker::PhantomData, s: input }
    }
}

impl<'a, T: AuxValue> PneuStr<'a> for ValueStr<'a, T> {

}

/// Owned text that parses as a value of type `T`.  Holding a value of this
/// type is proof that the buffer it owns parses.
#[derive(Debug, Eq, Hash, PartialEq)]
pub struct ValueString<T: AuxValue> {
    p: core::marker::PhantomData<T>,
    s: String,
}

impl<T: AuxValue> ValueString<T> {
    #[verifier::type_invariant]
    spec fn inv(self) -> bool {
        T::spec_parses(self.s@)
    }

    /// Return self as the associated view type: a zero-copy alias of this
    /// value's buffer.
    pub fn as_pneu_str<'a>(&'a self) -> (r: ValueStr<'a, T>)
        ensures
            r.spec_str() == self.spec_str(),
    {
        proof {
            use_type_invariant(&*self);
        }
        ValueStr::new_ref_unchecked(self.s.as_str())
    }

    /// Parse the already-valid text; infallible, because a live value is
    /// proof that the text parses.
    pub fn to_value(&self) -> (r: T)
        ensures
            r == T::spec_value(self.spec_str()),
    {
        self.as_pneu_str().to_value()
    }

    /// Replace the stored text with the formatting of `value`.  Formatting is
    /// not forced to be consistent with parsing, so the formatted text is
    /// re-validated before it is committed; the precondition states the
    /// consistency expectation the caller owes, and an implementer whose
    /// formatting ever failed to parse back would be stopped here rather than
    /// corrupt the value.
    pub fn set_value(&mut self, value: &T)
        requires
            T::spec_parses(value.spec_text()),
        ensures
            final(self).spec_str() == value.spec_text(),
    {
        let s = value.format_value();
        match T::parse_text(s.as_str()) {
            Some(_) => {
                *self = ValueString { p: core::marker::PhantomData, s };
            },
            None => vstd::pervasive::unreached(),
        }
    }
}

impl<T: AuxValue> AsStr for ValueString<T> {
    closed spec fn spec_str(&self) -> Seq<char> {
        self.s@
    }

    fn as_str(&self) -> &str {
        self.s.as_str()
    }
}

impl<T: AuxValue> Validate for ValueString<T> {
    type Error = &'static str;

    open spec fn spec_valid(data: Seq<char>) -> bool {
        T::spec_parses(data)
    }

    open spec fn spec_error(data: Seq<char>) -> &'static str {
        "parse error in value"
    }

    fn validate(data: &str) -> (r: Result<(), &'static str>) {
        <ValueStr<'_, T> as Validate>::validate(data)
    }
}

/// Law: the owned type and its view enforce the same contract: on any text,
/// their fallible constructors succeed together and fail together, with
/// equal errors.
pub proof fn lemma_value_owned_view_same_contract<T: AuxValue>(data: Seq<char>)
    ensures
        <ValueString<T> as Validate>::spec_valid(data) == <ValueStr<'static, T> as Validate>::spec_valid(data),
        <ValueString<T> as Validate>::spec_error(data) == <ValueStr<'static, T> as Validate>::spec_error(data),
{
}

impl<T: AuxValue> PneuString for ValueString<T> {
    fn new_unchecked(s: String) -> Self {
        ValueString { p: core::marker::PhantomData, s }
    }

    fn into_string(self) -> String {
        self.s
    }
}

} // verus!
