//! Auxiliary value types shipped with the crate: signed 32-bit integers with
//! their decimal text form, and booleans with their `true`/`false` text form.

use vstd::prelude::*;

use crate::digits::{
    all_digits_range, digits_val_range, format_u32_digits, lemma_digits_val_bounds,
    lemma_digits_val_first_nonzero, lemma_digits_val_skip_zeros, lemma_nat_digits, lemma_pow10_10,
    lemma_pow10_monotone, skip_zeros_range, spec_all_digits, spec_digits_val,
    spec_is_digit, spec_nat_digits,
};
use crate::value::AuxValue;

verus! {

/// The digits of `t` once an optional single leading sign is removed.
pub open spec fn spec_i32_body(t: Seq<char>) -> Seq<char> {
    if t.len() > 0 && (t[0] == '+' || t[0] == '-') {
        t.subrange(1, t.len() as int)
    } else {
        t
    }
}

/// The sign `t` denotes: negative exactly when it starts with `-`.
pub open spec fn spec_i32_sign(t: Seq<char>) -> int {
    if t.len() > 0 && t[0] == '-' {
        -1
    } else {
        1
    }
}

impl AuxValue for i32 {
    /// Text accepted for an `i32`: an optional single `+` or `-` sign, then
    /// one or more decimal digits, denoting a value in the type's range.
    open spec fn spec_parses(text: Seq<char>) -> bool {
        let body = spec_i32_body(text);
        body.len() > 0 && spec_all_digits(body) && i32::MIN <= spec_i32_sign(text)
            * spec_digits_val(body) <= i32::MAX
    }

    open spec fn spec_value(text: Seq<char>) -> i32 {
        (spec_i32_sign(text) * spec_digits_val(spec_i32_body(text))) as i32
    }

    /// The canonical decimal text of the value: a `-` sign when negative,
    /// then the digits of its magnitude without leading zeros.
    open spec fn spec_text(&self) -> Seq<char> {
        if *self >= 0 {
            spec_nat_digits(*self as nat)
        } else {
            seq!['-'] + spec_nat_digits((-(*self as int)) as nat)
        }
    }

    fn parse_text(text: &str) -> (r: Option<i32>) {
        parse_i32_text(text)
    }

    fn format_value(&self) -> (r: String) {
        let mut out = String::new();
        if *self >= 0 {
            format_u32_digits(*self as u32, &mut out);
        } else {
            proof {
                reveal_strlit("-");
            }
            out.append("-");
            let magnitude = (-(*self as i64)) as u32;
            format_u32_digits(magnitude, &mut out);
            proof {
                assert(out@ =~= seq!['-'] + spec_nat_digits((-(*self as int)) as nat));
            }
        }
        out
    }
}

/// Parse decimal text as an `i32`: an optional single sign, then one or more
/// digits, rejected when the denoted value is out of the type's range.
fn parse_i32_text(text: &str) -> (r: Option<i32>)
    ensures
        match r {
            Some(v) => <i32 as AuxValue>::spec_parses(text@) && v == <i32 as AuxValue>::spec_value(
                text@,
            ),
            None => !<i32 as AuxValue>::spec_parses(text@),
        },
{
    let len = text.unicode_len();
    if len == 0 {
        return None;
    }
    let c0 = text.get_char(0);
    let neg = c0 == '-';
    let start: usize = if c0 == '-' || c0 == '+' {
        1
    } else {
        0
    };
    let ghost body = spec_i32_body(text@);
    proof {
        assert(body =~= text@.subrange(start as int, len as int));
    }
    if start == len {
        return None;
    }
    if !all_digits_range(text, start, len) {
        return None;
    }
    // Skip leading zeros so that a plain length test decides overflow.
    let z = skip_zeros_range(text, start, len);
    let ghost digits = text@.subrange(z as int, len as int);
    proof {
        lemma_digits_val_skip_zeros(body, z - start);
        assert(body.subrange(z - start, body.len() as int) =~= digits);
        assert(spec_all_digits(digits));
    }
    if len - z > 10 {
        // At least eleven digits with no leading zero: the value is at least
        // ten to the tenth, out of range for either sign.
        proof {
            lemma_digits_val_first_nonzero(digits);
            lemma_pow10_10();
            lemma_pow10_monotone(10, (digits.len() - 1) as nat);
        }
        return None;
    }
    let acc = digits_val_range(text, z, len);
    proof {
        lemma_pow10_10();
        lemma_pow10_monotone((len - z) as nat, 10);
        lemma_digits_val_bounds(digits);
    }
    if neg {
        if acc > 2147483648 {
            None
        } else if acc == 2147483648 {
            Some(i32::MIN)
        } else {
            Some(-(acc as i32))
        }
    } else {
        if acc > 2147483647 {
            None
        } else {
            Some(acc as i32)
        }
    }
}

/// Law: formatting an `i32` and parsing the text back yields the value that
/// went in.  This is the parse/format consistency that the generic binding
/// layer documents as the implementer's obligation; for `i32` it is proved.
pub proof fn lemma_i32_format_parses(v: i32)
    ensures
        <i32 as AuxValue>::spec_parses(AuxValue::spec_text(&v)),
        <i32 as AuxValue>::spec_value(AuxValue::spec_text(&v)) == v,
{
    let t = AuxValue::spec_text(&v);
    if v >= 0 {
        lemma_nat_digits(v as nat);
        assert(spec_is_digit(t[0]));
        assert(t[0] != '+' && t[0] != '-');
        assert(spec_i32_body(t) == t);
        assert(spec_i32_sign(t) == 1);
    } else {
        let m = (-(v as int)) as nat;
        lemma_nat_digits(m);
        assert(t[0] == '-');
        assert(spec_i32_body(t) =~= spec_nat_digits(m));
        assert(spec_i32_sign(t) == -1);
        assert(spec_digits_val(spec_i32_body(t)) == m);
    }
}

impl AuxValue for bool {
    /// Text accepted for a `bool`: exactly `true` or `false`.
    open spec fn spec_parses(text: Seq<char>) -> bool {
        text == "true"@ || text == "false"@
    }

    open spec fn spec_value(text: Seq<char>) -> bool {
        text == "true"@
    }

    open spec fn spec_text(&self) -> Seq<char> {
        if *self {
            "true"@
        } else {
            "false"@
        }
    }

    fn parse_text(text: &str) -> (r: Option<bool>) {
        proof {
            reveal_strlit("true");
            reveal_strlit("false");
        }
        let len = text.unicode_len();
        if len == 4 {
            let eq = text.get_char(0) == 't' && text.get_char(1) == 'r' && text.get_char(2) == 'u'
                && text.get_char(3) == 'e';
            if eq {
                proof {
                    assert(text@ =~= "true"@);
                }
                Some(true)
            } else {
                None
            }
        } else if len == 5 {
            let eq = text.get_char(0) == 'f' && text.get_char(1) == 'a' && text.get_char(2) == 'l'
                && text.get_char(3) == 's' && text.get_char(4) == 'e';
            if eq {
                proof {
                    assert(text@ =~= "false"@);
                }
                Some(false)
            } else {
                None
            }
        } else {
            None
        }
    }

    fn format_value(&self) -> (r: String) {
        if *self {
            String::from_str("true")
        } else {
            String::from_str("false")
        }
    }
}

/// Law: formatting a `bool` and parsing the text back yields the value that
/// went in; the parse/format consistency obligation, proved for `bool`.
pub proof fn lemma_bool_format_parses(v: bool)
    ensures
        <bool as AuxValue>::spec_parses(AuxValue::spec_text(&v)),
        <bool as AuxValue>::spec_value(AuxValue::spec_text(&v)) == v,
{
    reveal_strlit("true");
    reveal_strlit("false");
    assert("true"@.len() != "false"@.len());
}

} // verus!
