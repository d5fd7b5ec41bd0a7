//! An example constrained type: URL-shaped text, with read-only accessors for
//! its components.
//!
//! The shape accepted is deliberately simple: a nonempty all-letter scheme, a
//! `://` separator, and, when a port section follows the host, one or more
//! digits denoting a number that fits in sixteen bits.  The accessors operate
//! on already-validated text, so they are proved never to fail.

use vstd::prelude::*;

use crate::as_str::AsStr;
use crate::digits::{
    all_digits_range, digits_val_range, lemma_digits_val_first_nonzero, lemma_digits_val_skip_zeros,
    lemma_pow10_5, skip_zeros_range, spec_all_digits, spec_digits_val,
};
use crate::new_ref_unchecked::NewRefUnchecked;
use crate::pneu_str::PneuStr;
use crate::pneu_string::PneuString;
use crate::validate::Validate;

verus! {

/// The first position at or after `from` where `c` occurs in `t`, or the
/// length of `t` when it does not occur there.
pub open spec fn spec_find(t: Seq<char>, c: char, from: int) -> int
    decreases t.len() - from,
{
    if from < 0 || from >= t.len() {
        t.len() as int
    } else if t[from] == c {
        from
    } else {
        spec_find(t, c, from + 1)
    }
}

/// What `spec_find` returns: the first occurrence at or after `from`, or the
/// length of the text.
pub proof fn lemma_spec_find(t: Seq<char>, c: char, from: int)
    requires
        0 <= from <= t.len(),
    ensures
        from <= spec_find(t, c, from) <= t.len(),
        spec_find(t, c, from) < t.len() ==> t[spec_find(t, c, from)] == c,
        forall|j: int| from <= j < spec_find(t, c, from) ==> t[j] != c,
    decreases t.len() - from,
{
    if from < t.len() && t[from] != c {
        lemma_spec_find(t, c, from + 1);
    }
}

/// Whether the three-character separator `://` stands at position `i` of `t`.
pub open spec fn spec_has_sep_at(t: Seq<char>, i: int) -> bool {
    0 <= i && i + 3 <= t.len() && t[i] == ':' && t[i + 1] == '/' && t[i + 2] == '/'
}

/// The first position at or after `from` where the separator `://` stands in
/// `t`, or the length of `t` when it stands nowhere there.
pub open spec fn spec_find_sep(t: Seq<char>, from: int) -> int
    decreases t.len() - from,
{
    if from < 0 || from + 3 > t.len() {
        t.len() as int
    } else if spec_has_sep_at(t, from) {
        from
    } else {
        spec_find_sep(t, from + 1)
    }
}

/// What `spec_find_sep` returns: the first separator position at or after
/// `from`, or the length of the text.
pub proof fn lemma_spec_find_sep(t: Seq<char>, from: int)
    requires
        0 <= from <= t.len(),
    ensures
        from <= spec_find_sep(t, from) <= t.len(),
        spec_find_sep(t, from) < t.len() ==> spec_has_sep_at(t, spec_find_sep(t, from)),
        forall|j: int| from <= j < spec_find_sep(t, from) ==> !spec_has_sep_at(t, j),
    decreases t.len() - from,
{
    if from + 3 <= t.len() && !spec_has_sep_at(t, from) {
        lemma_spec_find_sep(t, from + 1);
    }
}

/// The smaller of two positions.
pub open spec fn spec_min2(a: int, b: int) -> int {
    if a <= b {
        a
    } else {
        b
    }
}

/// The smallest of three positions.
pub open spec fn spec_min3(a: int, b: int, c: int) -> int {
    spec_min2(a, spec_min2(b, c))
}

/// Whether `c` may stand in a scheme: an ASCII lowercase letter.
pub open spec fn spec_is_scheme_char(c: char) -> bool {
    'a' <= c && c <= 'z'
}

/// The position of the `://` separator in `t`.
pub open spec fn spec_url_sep(t: Seq<char>) -> int {
    spec_find_sep(t, 0)
}

/// The scheme of `t`: everything before the separator.
pub open spec fn spec_url_scheme(t: Seq<char>) -> Seq<char> {
    t.subrange(0, spec_url_sep(t))
}

/// The authority-and-rest of `t`: everything after the separator.
pub open spec fn spec_url_after(t: Seq<char>) -> Seq<char> {
    t.subrange(spec_url_sep(t) + 3, t.len() as int)
}

/// Where the port digits end in `a` when they start at `pstart`: the first
/// following `/`, `?` or `#`, or the end of the text.
pub open spec fn spec_url_port_end(a: Seq<char>, pstart: int) -> int {
    spec_min3(spec_find(a, '/', pstart), spec_find(a, '?', pstart), spec_find(a, '#', pstart))
}

/// Whether the port section of `a` (after the first `:`, if any) is one or
/// more digits denoting a number that fits in sixteen bits.
pub open spec fn spec_url_port_ok(a: Seq<char>) -> bool {
    let c = spec_find(a, ':', 0);
    c < a.len() ==> {
        let p = a.subrange(c + 1, spec_url_port_end(a, c + 1));
        p.len() > 0 && spec_all_digits(p) && spec_digits_val(p) <= 65535
    }
}

/// The host of `t`: the part after the separator up to the first `:`, `/`,
/// `?` or `#`; possibly empty.
pub open spec fn spec_url_host(t: Seq<char>) -> Seq<char> {
    let a = spec_url_after(t);
    let n = spec_min2(
        spec_find(a, ':', 0),
        spec_min3(spec_find(a, '/', 0), spec_find(a, '?', 0), spec_find(a, '#', 0)),
    );
    a.subrange(0, n)
}

/// The port of `t`: the number denoted by the digits after the first `:`
/// following the separator, if there is such a `:`.
pub open spec fn spec_url_port(t: Seq<char>) -> Option<u16> {
    let a = spec_url_after(t);
    let c = spec_find(a, ':', 0);
    if c == a.len() {
        None
    } else {
        Some(spec_digits_val(a.subrange(c + 1, spec_url_port_end(a, c + 1))) as u16)
    }
}

/// The path of `t`: from the first `/` after the separator up to the first
/// following `?` or `#`, if there is such a `/`.
pub open spec fn spec_url_path(t: Seq<char>) -> Option<Seq<char>> {
    let a = spec_url_after(t);
    let ps = spec_find(a, '/', 0);
    if ps == a.len() {
        None
    } else {
        Some(a.subrange(ps, spec_min2(spec_find(a, '?', ps), spec_find(a, '#', ps))))
    }
}

/// The query of `t`: between the first `?` after the separator and the first
/// `#`, if such a `?` comes before any `#`.
pub open spec fn spec_url_query(t: Seq<char>) -> Option<Seq<char>> {
    let a = spec_url_after(t);
    let f = spec_find(a, '#', 0);
    let q = spec_find(a, '?', 0);
    if q < f {
        Some(a.subrange(q + 1, f))
    } else {
        None
    }
}

/// The fragment of `t`: everything after the first `#` following the
/// separator, if there is such a `#`.
pub open spec fn spec_url_fragment(t: Seq<char>) -> Option<Seq<char>> {
    let a = spec_url_after(t);
    let f = spec_find(a, '#', 0);
    if f == a.len() {
        None
    } else {
        Some(a.subrange(f + 1, a.len() as int))
    }
}

/// URL-shaped text: a nonempty scheme of lowercase letters, the separator
/// `://`, and a well-formed port section when one is present.
pub open spec fn spec_url_valid(t: Seq<char>) -> bool {
    let sep = spec_url_sep(t);
    &&& sep + 3 <= t.len()
    &&& sep >= 1
    &&& (forall|i: int| 0 <= i < sep ==> spec_is_scheme_char(#[trigger] t[i]))
    &&& spec_url_port_ok(spec_url_after(t))
}

/// The first position at or after `from` where `c` occurs in `s`, or the
/// length of `s`.
fn find_char_from(s: &str, c: char, from: usize) -> (r: usize)
    requires
        from <= s@.len(),
    ensures
        r == spec_find(s@, c, from as int),
{
    let len = s.unicode_len();
    let mut i = from;
    while i < len
        invariant
            from <= i <= len,
            len == s@.len(),
            spec_find(s@, c, from as int) == spec_find(s@, c, i as int),
        decreases len - i,
    {
        if s.get_char(i) == c {
            return i;
        }
        i += 1;
    }
    len
}

/// The first position where the separator `://` stands in `s`, or the length
/// of `s`.
fn find_sep(s: &str) -> (r: usize)
    ensures
        r == spec_find_sep(s@, 0),
{
    let len = s.unicode_len();
    let mut i: usize = 0;
    while i < len && len - i >= 3
        invariant
            i <= len,
            len == s@.len(),
            spec_find_sep(s@, 0) == spec_find_sep(s@, i as int),
        decreases len - i,
    {
        if s.get_char(i) == ':' && s.get_char(i + 1) == '/' && s.get_char(i + 2) == '/' {
            return i;
        }
        i += 1;
    }
    len
}

/// The smallest of three positions.
fn min3(a: usize, b: usize, c: usize) -> (r: usize)
    ensures
        r == spec_min3(a as int, b as int, c as int),
{
    if a <= b && a <= c {
        a
    } else if b <= c {
        b
    } else {
        c
    }
}

/// A borrowed view over URL-shaped text.  Holding a value of this type is
/// proof that the aliased text has the shape, so the accessors below never
/// fail on it.
#[derive(Clone, Copy, Debug, Eq, Hash, PartialEq)]
pub struct URLStr<'a> {
    s: &'a str,
}

impl<'a> URLStr<'a> {
    #[verifier::type_invariant]
    spec fn inv(self) -> bool {
        spec_url_valid(self.s@)
    }
}

impl<'a> AsStr for URLStr<'a> {
    closed spec fn spec_str(&self) -> Seq<char> {
        self.s@
    }

    fn as_str(&self) -> &str {
        self.s
    }
}

impl<'a> Validate for URLStr<'a> {
    type Error = &'static str;

    open spec fn spec_valid(data: Seq<char>) -> bool {
        spec_url_valid(data)
    }

    open spec fn spec_error(data: Seq<char>) -> &'static str {
        "not a well-formed URL"
    }

    fn validate(data: &str) -> (r: Result<(), &'static str>) {
        if validate_url_text(data) {
            Ok(())
        } else {
            Err("not a well-formed URL")
        }
    }
}

/// Decide `spec_url_valid` for the given text.
fn validate_url_text(data: &str) -> (r: bool)
    ensures
        r == spec_url_valid(data@),
{
    let len = data.unicode_len();
    let sep = find_sep(data);
    proof {
        lemma_spec_find_sep(data@, 0);
    }
    if sep == len {
        return false;
    }
    if sep == 0 {
        return false;
    }
    // Every scheme character must be a lowercase letter.
    for i in 0..sep
        invariant
            sep == spec_find_sep(data@, 0),
            spec_has_sep_at(data@, sep as int),
            1 <= sep,
            sep + 3 <= len,
            len == data@.len(),
            forall|j: int| 0 <= j < i ==> spec_is_scheme_char(#[trigger] data@[j]),
    {
        let c = data.get_char(i);
        let u = c as u32;
        if u < 97 || u > 122 {
            assert(!spec_is_scheme_char(data@[i as int]));
            return false;
        }
    }
    let after = data.substring_char(sep + 3, len);
    proof {
        assert(after@ == spec_url_after(data@));
    }
    validate_port_section(after)
}

/// Decide `spec_url_port_ok` for the part after the separator.
fn validate_port_section(after: &str) -> (r: bool)
    ensures
        r == spec_url_port_ok(after@),
{
    let alen = after.unicode_len();
    let c = find_char_from(after, ':', 0);
    proof {
        lemma_spec_find(after@, ':', 0);
    }
    if c == alen {
        return true;
    }
    let pstart = c + 1;
    let e1 = find_char_from(after, '/', pstart);
    let e2 = find_char_from(after, '?', pstart);
    let e3 = find_char_from(after, '#', pstart);
    let pend = min3(e1, e2, e3);
    proof {
        lemma_spec_find(after@, '/', pstart as int);
        lemma_spec_find(after@, '?', pstart as int);
        lemma_spec_find(after@, '#', pstart as int);
    }
    let ghost p = after@.subrange(pstart as int, pend as int);
    if pend == pstart {
        return false;
    }
    if !all_digits_range(after, pstart, pend) {
        return false;
    }
    // The denoted number must fit in sixteen bits: skip leading zeros, then
    // at most five digits may remain, and they must not exceed the bound.
    let z = skip_zeros_range(after, pstart, pend);
    proof {
        lemma_digits_val_skip_zeros(p, z - pstart);
        assert(p.subrange(z - pstart, p.len() as int) =~= after@.subrange(z as int, pend as int));
        lemma_pow10_5();
    }
    if pend - z > 5 {
        proof {
            let q = after@.subrange(z as int, pend as int);
            lemma_digits_val_first_nonzero(q);
            crate::digits::lemma_pow10_monotone(5, (q.len() - 1) as nat);
        }
        return false;
    }
    proof {
        assert(spec_all_digits(after@.subrange(z as int, pend as int)));
    }
    let acc = digits_val_range(after, z, pend);
    acc <= 65535
}

impl<'a> NewRefUnchecked<'a> for URLStr<'a> {
    fn new_ref_unchecked(input: &'a str) -> Self {
        URLStr { s: input }
    }
}

impl<'a> PneuStr<'a> for URLStr<'a> {

}

impl<'a> URLStr<'a> {
    /// The separator position and the text after the separator; the aliased
    /// text is URL-shaped, as every live view's is.
    fn after_part(&self) -> (r: (usize, &'a str))
        ensures
            spec_url_valid(self.spec_str()),
            r.0 == spec_url_sep(self.spec_str()),
            r.1@ == spec_url_after(self.spec_str()),
    {
        proof {
            use_type_invariant(&*self);
            lemma_spec_find_sep(self.s@, 0);
        }
        let len = self.s.unicode_len();
        let sep = find_sep(self.s);
        let after = self.s.substring_char(sep + 3, len);
        (sep, after)
    }

    /// The scheme: everything before the separator.
    pub fn scheme(&self) -> (r: &str)
        ensures
            r@ == spec_url_scheme(self.spec_str()),
    {
        proof {
            use_type_invariant(&*self);
            lemma_spec_find_sep(self.s@, 0);
        }
        let sep = find_sep(self.s);
        self.s.substring_char(0, sep)
    }

    /// The host: the part after the separator up to the first `:`, `/`, `?`
    /// or `#`; possibly empty.
    pub fn host(&self) -> (r: &str)
        ensures
            r@ == spec_url_host(self.spec_str()),
    {
        let (_sep, after) = self.after_part();
        let f1 = find_char_from(after, ':', 0);
        let f2 = find_char_from(after, '/', 0);
        let f3 = find_char_from(after, '?', 0);
        let f4 = find_char_from(after, '#', 0);
        proof {
            lemma_spec_find(after@, ':', 0);
            lemma_spec_find(after@, '/', 0);
            lemma_spec_find(after@, '?', 0);
            lemma_spec_find(after@, '#', 0);
        }
        let rest = min3(f2, f3, f4);
        let n = if f1 <= rest {
            f1
        } else {
            rest
        };
        after.substring_char(0, n)
    }

    /// The port: the number denoted by the digits after the first `:`
    /// following the separator, if there is such a `:`.  A live view's port
    /// section is already known well-formed, so this never fails.
    pub fn port(&self) -> (r: Option<u16>)
        ensures
            r == spec_url_port(self.spec_str()),
    {
        let (_sep, after) = self.after_part();
        let alen = after.unicode_len();
        let c = find_char_from(after, ':', 0);
        proof {
            lemma_spec_find(after@, ':', 0);
        }
        if c == alen {
            return None;
        }
        let pstart = c + 1;
        let e1 = find_char_from(after, '/', pstart);
        let e2 = find_char_from(after, '?', pstart);
        let e3 = find_char_from(after, '#', pstart);
        proof {
            lemma_spec_find(after@, '/', pstart as int);
            lemma_spec_find(after@, '?', pstart as int);
            lemma_spec_find(after@, '#', pstart as int);
        }
        let pend = min3(e1, e2, e3);
        let ghost p = after@.subrange(pstart as int, pend as int);
        let z = skip_zeros_range(after, pstart, pend);
        proof {
            lemma_digits_val_skip_zeros(p, z - pstart);
            assert(p.subrange(z - pstart, p.len() as int) =~= after@.subrange(
                z as int,
                pend as int,
            ));
            lemma_pow10_5();
            if pend - z > 5 {
                let q = after@.subrange(z as int, pend as int);
                lemma_digits_val_first_nonzero(q);
                crate::digits::lemma_pow10_monotone(5, (q.len() - 1) as nat);
            }
            assert(spec_all_digits(after@.subrange(z as int, pend as int)));
        }
        let acc = digits_val_range(after, z, pend);
        Some(acc as u16)
    }

    /// The path: from the first `/` after the separator up to the first
    /// following `?` or `#`, if there is such a `/`.
    pub fn path(&self) -> (r: Option<&str>)
        ensures
            r is Some <==> spec_url_path(self.spec_str()) is Some,
            r is Some ==> r->0@ == spec_url_path(self.spec_str())->0,
    {
        let (_sep, after) = self.after_part();
        let alen = after.unicode_len();
        let ps = find_char_from(after, '/', 0);
        proof {
            lemma_spec_find(after@, '/', 0);
        }
        if ps == alen {
            return None;
        }
        let e1 = find_char_from(after, '?', ps);
        let e2 = find_char_from(after, '#', ps);
        proof {
            lemma_spec_find(after@, '?', ps as int);
            lemma_spec_find(after@, '#', ps as int);
        }
        let pe = if e1 <= e2 {
            e1
        } else {
            e2
        };
        Some(after.substring_char(ps, pe))
    }

    /// The query: between the first `?` after the separator and the first
    /// `#`, if such a `?` comes before any `#`.
    pub fn query(&self) -> (r: Option<&str>)
        ensures
            r is Some <==> spec_url_query(self.spec_str()) is Some,
            r is Some ==> r->0@ == spec_url_query(self.spec_str())->0,
    {
        let (_sep, after) = self.after_part();
        let f = find_char_from(after, '#', 0);
        let q = find_char_from(after, '?', 0);
        proof {
            lemma_spec_find(after@, '#', 0);
            lemma_spec_find(after@, '?', 0);
        }
        if q < f {
            Some(after.substring_char(q + 1, f))
        } else {
            None
        }
    }

    /// The fragment: everything after the first `#` following the separator,
    /// if there is such a `#`.
    pub fn fragment(&self) -> (r: Option<&str>)
        ensures
            r is Some <==> spec_url_fragment(self.spec_str()) is Some,
            r is Some ==> r->0@ == spec_url_fragment(self.spec_str())->0,
    {
        let (_sep, after) = self.after_part();
        let alen = after.unicode_len();
        let f = find_char_from(after, '#', 0);
        proof {
            lemma_spec_find(after@, '#', 0);
        }
        if f == alen {
            None
        } else {
            Some(after.substring_char(f + 1, alen))
        }
    }

    /// Promote this view to an owned [`URL`] by copying the aliased text;
    /// always succeeds, since the view is already proof of validity.
    pub fn to_owned(&self) -> (r: URL)
        ensures
            r.spec_str() == self.spec_str(),
    {
        proof {
            use_type_invariant(&*self);
        }
        URL { s: self.s.to_owned() }
    }
}

/// Owned URL-shaped text.  Holding a value of this type is proof that the
/// buffer it owns has the shape.
#[derive(Debug, Eq, PartialEq)]
pub struct URL {
    s: String,
}

impl URL {
    #[verifier::type_invariant]
    spec fn inv(self) -> bool {
        spec_url_valid(self.s@)
    }

    /// Return self as the associated view type: a zero-copy alias of this
    /// value's buffer.
    pub fn as_url_str<'a>(&'a self) -> (r: URLStr<'a>)
        ensures
            r.spec_str() == self.spec_str(),
    {
        proof {
            use_type_invariant(&*self);
        }
        URLStr::new_ref_unchecked(self.s.as_str())
    }
}

impl AsStr for URL {
    closed spec fn spec_str(&self) -> Seq<char> {
        self.s@
    }

    fn as_str(&self) -> &str {
        self.s.as_str()
    }
}

impl Validate for URL {
    type Error = &'static str;

    open spec fn spec_valid(data: Seq<char>) -> bool {
        spec_url_valid(data)
    }

    open spec fn spec_error(data: Seq<char>) -> &'static str {
        "not a well-formed URL"
    }

    fn validate(data: &str) -> (r: Result<(), &'static str>) {
        <URLStr<'_> as Validate>::validate(data)
    }
}

/// Law: the owned type and its view enforce the same contract: on any text,
/// their fallible constructors succeed together and fail together, with
/// equal errors.
pub proof fn lemma_url_owned_view_same_contract(data: Seq<char>)
    ensures
        <URL as Validate>::spec_valid(data) == <URLStr<'static> as Validate>::spec_valid(data),
        <URL as Validate>::spec_error(data) == <URLStr<'static> as Validate>::spec_error(data),
{
}

impl PneuString for URL {
    fn new_unchecked(s: String) -> Self {
        URL { s }
    }

    fn into_string(self) -> String {
        self.s
    }
}

} // verus!
