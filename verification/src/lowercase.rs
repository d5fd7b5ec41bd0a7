//! An example constrained type: text made of ASCII lowercase letters only.

use vstd::prelude::*;

use crate::as_str::AsStr;
use crate::new_ref_unchecked::NewRefUnchecked;
use crate::pneu_str::PneuStr;
use crate::pneu_string::PneuString;
use crate::validate::Validate;

verus! {

/// Whether `c` is an ASCII lowercase letter.
pub open spec fn spec_is_ascii_lowercase(c: char) -> bool {
    'a' <= c && c <= 'z'
}

/// Whether every character of `data` is an ASCII lowercase letter.
pub open spec fn spec_lowercase(data: Seq<char>) -> bool {
    forall|i: int| 0 <= i < data.len() ==> spec_is_ascii_lowercase(#[trigger] data[i])
}

/// A borrowed view over text that is all ASCII lowercase.  Holding a value of
/// this type is proof that the aliased text satisfies the predicate.
#[derive(Clone, Copy, Debug, Eq, Hash, PartialEq)]
pub struct LowercaseStr<'a> {
    s: &'a str,
}

impl<'a> LowercaseStr<'a> {
    #[verifier::type_invariant]
    spec fn inv(self) -> bool {
        spec_lowercase(self.s@)
    }
}

impl<'a> AsStr for LowercaseStr<'a> {
    closed spec fn spec_str(&self) -> Seq<char> {
        self.s@
    }

    fn as_str(&self) -> &str {
        self.s
    }
}

impl<'a> Validate for LowercaseStr<'a> {
    type Error = &'static str;

    open spec fn spec_valid(data: Seq<char>) -> bool {
        spec_lowercase(data)
    }

    open spec fn spec_error(data: Seq<char>) -> &'static str {
        "must be an all-lowercase string"
    }

    fn validate(data: &str) -> (r: Result<(), &'static str>) {
        let n = data.unicode_len();
        for i in 0..n
            invariant
                n == data@.len(),
                forall|j: int| 0 <= j < i ==> spec_is_ascii_lowercase(#[trigger] data@[j]),
        {
            let c = data.get_char(i);
            let u = c as u32;
            if u < 97 || u > 122 {
                return Err("must be an all-lowercase string");
            }
        }
        Ok(())
    }
}

impl<'a> NewRefUnchecked<'a> for LowercaseStr<'a> {
    fn new_ref_unchecked(input: &'a str) -> Self {
        LowercaseStr { s: input }
    }
}

impl<'a> PneuStr<'a> for LowercaseStr<'a> {

}

impl<'a> LowercaseStr<'a> {
    /// Promote this view to an owned [`Lowercase`] by copying the aliased
    /// text; always succeeds, since the view is already proof of validity.
    pub fn to_owned(&self) -> (r: Lowercase)
        ensures
            r.spec_str() == self.spec_str(),
    {
        proof {
            use_type_invariant(&*self);
        }
        Lowercase { s: self.s.to_owned() }
    }

    /// The number of ASCII lowercase characters in this text; for a live view
    /// that is every character.
    pub fn count_lowercase_chars(&self) -> (n: usize)
        ensures
            n == spec_count_lowercase(self.spec_str()),
            n == self.spec_str().len(),
    {
        proof {
            use_type_invariant(&*self);
        }
        let len = self.s.unicode_len();
        let mut n: usize = 0;
        for i in 0..len
            invariant
                len == self.s@.len(),
                n == spec_count_lowercase(self.s@.subrange(0, i as int)),
                n <= i,
        {
            let c = self.s.get_char(i);
            let u = c as u32;
            proof {
                assert(self.s@.subrange(0, i + 1).drop_last() =~= self.s@.subrange(0, i as int));
                assert(self.s@.subrange(0, i + 1).last() == self.s@[i as int]);
            }
            if 97 <= u && u <= 122 {
                n += 1;
            }
        }
        proof {
            assert(self.s@.subrange(0, len as int) =~= self.s@);
            lemma_count_lowercase_all(self.s@);
        }
        n
    }
}

/// The number of ASCII lowercase characters in `data`.
pub open spec fn spec_count_lowercase(data: Seq<char>) -> nat
    decreases data.len(),
{
    if data.len() == 0 {
        0
    } else {
        spec_count_lowercase(data.drop_last()) + if spec_is_ascii_lowercase(data.last()) {
            1nat
        } else {
            0nat
        }
    }
}

/// In all-lowercase text, the lowercase count is the whole length.
proof fn lemma_count_lowercase_all(data: Seq<char>)
    requires
        spec_lowercase(data),
    ensures
        spec_count_lowercase(data) == data.len(),
    decreases data.len(),
{
    if data.len() > 0 {
        assert(spec_lowercase(data.drop_last()));
        lemma_count_lowercase_all(data.drop_last());
    }
}

/// Owned text that is all ASCII lowercase.  Holding a value of this type is
/// proof that the buffer it owns satisfies the predicate.
#[derive(Debug, Eq, Hash, PartialEq)]
pub struct Lowercase {
    s: String,
}

impl Lowercase {
    #[verifier::type_invariant]
    spec fn inv(self) -> bool {
        spec_lowercase(self.s@)
    }

    /// Return self as the associated view type: a zero-copy alias of this
    /// value's buffer.
    pub fn as_pneu_str<'a>(&'a self) -> (r: LowercaseStr<'a>)
        ensures
            r.spec_str() == self.spec_str(),
    {
        proof {
            use_type_invariant(&*self);
        }
        LowercaseStr::new_ref_unchecked(self.s.as_str())
    }

    /// Reverse the order of the characters.  Reversal keeps every character
    /// lowercase, so the validation constraint is preserved by proof; nothing
    /// is re-checked at run time.
    pub fn reverse(&mut self)
        ensures
            final(self).spec_str() == old(self).spec_str().reverse(),
    {
        proof {
            use_type_invariant(&*self);
        }
        let ghost orig = self.s@;
        let len = self.s.as_str().unicode_len();
        let mut out = String::new();
        let mut i = len;
        while i > 0
            invariant
                i <= len,
                len == orig.len(),
                self.s@ == orig,
                out@.len() == len - i,
                forall|k: int| 0 <= k < len - i ==> out@[k] == orig[len - 1 - k],
            decreases i,
        {
            i -= 1;
            let piece = self.s.as_str().substring_char(i, i + 1);
            out.append(piece);
        }
        proof {
            use_type_invariant(&*self);
            assert(out@ =~= orig.reverse());
        }
        *self = Lowercase { s: out };
    }
}

impl AsStr for Lowercase {
    closed spec fn spec_str(&self) -> Seq<char> {
        self.s@
    }

    fn as_str(&self) -> &str {
        self.s.as_str()
    }
}

impl Validate for Lowercase {
    type Error = &'static str;

    open spec fn spec_valid(data: Seq<char>) -> bool {
        spec_lowercase(data)
    }

    open spec fn spec_error(data: Seq<char>) -> &'static str {
        "must be an all-lowercase string"
    }

    fn validate(data: &str) -> (r: Result<(), &'static str>) {
        <LowercaseStr<'_> as Validate>::validate(data)
    }
}

/// Law: the owned type and its view enforce the same contract: on any text,
/// their fallible constructors succeed together and fail together, with
/// equal errors.
pub proof fn lemma_lowercase_owned_view_same_contract(data: Seq<char>)
    ensures
        <Lowercase as Validate>::spec_valid(data) == <LowercaseStr<'static> as Validate>::spec_valid(data),
        <Lowercase as Validate>::spec_error(data) == <LowercaseStr<'static> as Validate>::spec_error(data),
{
}

impl PneuString for Lowercase {
    fn new_unchecked(s: String) -> Self {
        Lowercase { s }
    }

    fn into_string(self) -> String {
        self.s
    }
}

} // verus!
