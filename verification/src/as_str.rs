//! A minimal trait for borrowing a value's text content as a `&str`.

use vstd::prelude::*;

verus! {

/// Borrow the text content of a value.  Every constrained type in this crate
/// implements it, as do `str` and `String` themselves, so generic code can
/// reach the underlying text uniformly.
pub trait AsStr {
    /// The text content of the value, as a sequence of characters.
    spec fn spec_str(&self) -> Seq<char>;

    /// Borrow the text content.
    fn as_str(&self) -> (r: &str)
        ensures
            r@ == self.spec_str(),
    ;
}

impl AsStr for str {
    open spec fn spec_str(&self) -> Seq<char> {
        self@
    }

    fn as_str(&self) -> &str {
        self
    }
}

impl AsStr for String {
    open spec fn spec_str(&self) -> Seq<char> {
        self@
    }

    fn as_str(&self) -> &str {
        String::as_str(self)
    }
}

} // verus!
