//! Decimal digit text: specifications and proofs relating digit strings to
//! the numbers they denote, plus small executable helpers built on them.

use vstd::prelude::*;

verus! {

/// Whether `c` is an ASCII decimal digit.
pub open spec fn spec_is_digit(c: char) -> bool {
    '0' <= c && c <= '9'
}

/// The numeric value of a digit character.
pub open spec fn spec_digit_val(c: char) -> int {
    c as int - 48
}

/// Whether every character of `s` is an ASCII decimal digit.
pub open spec fn spec_all_digits(s: Seq<char>) -> bool {
    forall|i: int| 0 <= i < s.len() ==> spec_is_digit(#[trigger] s[i])
}

/// The number denoted by the digit string `s`, read most significant first.
pub open spec fn spec_digits_val(s: Seq<char>) -> int
    decreases s.len(),
{
    if s.len() == 0 {
        0
    } else {
        spec_digits_val(s.drop_last()) * 10 + spec_digit_val(s.last())
    }
}

/// Ten to the `n`th power.
pub open spec fn pow10(n: nat) -> int
    decreases n,
{
    if n == 0 {
        1
    } else {
        10 * pow10((n - 1) as nat)
    }
}

/// The digit character denoting the value `d`.
pub open spec fn spec_char_of_digit(d: int) -> char {
    if d == 0 {
        '0'
    } else if d == 1 {
        '1'
    } else if d == 2 {
        '2'
    } else if d == 3 {
        '3'
    } else if d == 4 {
        '4'
    } else if d == 5 {
        '5'
    } else if d == 6 {
        '6'
    } else if d == 7 {
        '7'
    } else if d == 8 {
        '8'
    } else {
        '9'
    }
}

/// The decimal digit string denoting `n`, without leading zeros (except for
/// `n == 0` itself, which is the single digit `0`).
pub open spec fn spec_nat_digits(n: nat) -> Seq<char>
    decreases n,
{
    if n < 10 {
        seq![spec_char_of_digit(n as int)]
    } else {
        spec_nat_digits(n / 10).push(spec_char_of_digit((n % 10) as int))
    }
}

/// A digit string denotes a number between zero (inclusive) and ten to its
/// length (exclusive).
pub proof fn lemma_digits_val_bounds(s: Seq<char>)
    requires
        spec_all_digits(s),
    ensures
        0 <= spec_digits_val(s) < pow10(s.len()),
    decreases s.len(),
{
    if s.len() > 0 {
        assert(spec_all_digits(s.drop_last()));
        lemma_digits_val_bounds(s.drop_last());
        assert(spec_is_digit(s.last()));
    }
}

/// A digit string that does not start with `0` denotes at least ten to the
/// power of one less than its length.
pub proof fn lemma_digits_val_first_nonzero(s: Seq<char>)
    requires
        spec_all_digits(s),
        s.len() > 0,
        s[0] != '0',
    ensures
        spec_digits_val(s) >= pow10((s.len() - 1) as nat),
    decreases s.len(),
{
    if s.len() == 1 {
        assert(spec_is_digit(s[0]));
        assert(spec_digits_val(s) == spec_digits_val(s.drop_last()) * 10 + spec_digit_val(s[0]));
        assert(s[0] as int != 48);
    } else {
        assert(spec_all_digits(s.drop_last()));
        lemma_digits_val_first_nonzero(s.drop_last());
        assert(spec_is_digit(s.last()));
        assert(spec_digit_val(s.last()) >= 0);
        assert(pow10((s.len() - 1) as nat) == 10 * pow10((s.len() - 2) as nat));
        assert(spec_digits_val(s.drop_last()) >= pow10((s.len() - 2) as nat));
    }
}

/// A leading zero does not change the number a digit string denotes.
pub proof fn lemma_digits_val_drop_zero(s: Seq<char>)
    requires
        s.len() >= 1,
        s[0] == '0',
    ensures
        spec_digits_val(s) == spec_digits_val(s.subrange(1, s.len() as int)),
    decreases s.len(),
{
    if s.len() == 1 {
        assert(s.subrange(1, 1).len() == 0);
        assert(spec_digits_val(s) == spec_digits_val(s.drop_last()) * 10 + spec_digit_val(s.last()));
    } else {
        lemma_digits_val_drop_zero(s.drop_last());
        assert(s.drop_last().subrange(1, s.len() - 1) =~= s.subrange(1, s.len() as int).drop_last());
        assert(s.subrange(1, s.len() as int).last() == s.last());
    }
}

/// Leading zeros do not change the number a digit string denotes.
pub proof fn lemma_digits_val_skip_zeros(s: Seq<char>, k: int)
    requires
        0 <= k <= s.len(),
        forall|i: int| 0 <= i < k ==> s[i] == '0',
    ensures
        spec_digits_val(s) == spec_digits_val(s.subrange(k, s.len() as int)),
    decreases k,
{
    if k > 0 {
        lemma_digits_val_drop_zero(s);
        let t = s.subrange(1, s.len() as int);
        lemma_digits_val_skip_zeros(t, k - 1);
        assert(t.subrange(k - 1, t.len() as int) =~= s.subrange(k, s.len() as int));
    } else {
        assert(s.subrange(0, s.len() as int) =~= s);
    }
}

/// The digit string of a number is made of digits, denotes that number, and
/// starts with `0` only when the number is zero.
pub proof fn lemma_nat_digits(n: nat)
    ensures
        spec_nat_digits(n).len() >= 1,
        spec_all_digits(spec_nat_digits(n)),
        spec_digits_val(spec_nat_digits(n)) == n,
        n > 0 ==> spec_nat_digits(n)[0] != '0',
    decreases n,
{
    if n < 10 {
        let d = spec_nat_digits(n);
        assert(d.drop_last() =~= Seq::<char>::empty());
        assert(spec_digits_val(d) == spec_digits_val(d.drop_last()) * 10 + spec_digit_val(d.last()));
        assert(spec_digit_val(spec_char_of_digit(n as int)) == n);
    } else {
        lemma_nat_digits(n / 10);
        let d = spec_nat_digits(n);
        assert(d.drop_last() =~= spec_nat_digits(n / 10));
        assert(d.last() == spec_char_of_digit((n % 10) as int));
        assert(spec_digit_val(spec_char_of_digit((n % 10) as int)) == n % 10);
        assert(spec_digits_val(d) == (n / 10) * 10 + n % 10);
        assert(n == (n / 10) * 10 + n % 10) by (nonlinear_arith);
    }
}

/// Powers of ten are at least one.
pub proof fn lemma_pow10_pos(n: nat)
    ensures
        pow10(n) >= 1,
    decreases n,
{
    if n > 0 {
        lemma_pow10_pos((n - 1) as nat);
    }
}

/// Powers of ten grow with the exponent.
pub proof fn lemma_pow10_monotone(a: nat, b: nat)
    requires
        a <= b,
    ensures
        pow10(a) <= pow10(b),
    decreases b,
{
    if a < b {
        lemma_pow10_monotone(a, (b - 1) as nat);
        lemma_pow10_pos((b - 1) as nat);
        assert(pow10(b) == 10 * pow10((b - 1) as nat));
    }
}

/// Ten to the tenth power, written out; the smallest value an eleven-digit
/// string without a leading zero can denote.
pub proof fn lemma_pow10_10()
    ensures
        pow10(10) == 10000000000,
{
    assert(pow10(0) == 1);
    assert(pow10(1) == 10);
    assert(pow10(2) == 100);
    assert(pow10(3) == 1000);
    assert(pow10(4) == 10000);
    assert(pow10(5) == 100000);
    assert(pow10(6) == 1000000);
    assert(pow10(7) == 10000000);
    assert(pow10(8) == 100000000);
    assert(pow10(9) == 1000000000);
}

/// Ten to the fifth power, written out; the smallest value a six-digit string
/// without a leading zero can denote.
pub proof fn lemma_pow10_5()
    ensures
        pow10(5) == 100000,
{
    assert(pow10(0) == 1);
    assert(pow10(1) == 10);
    assert(pow10(2) == 100);
    assert(pow10(3) == 1000);
    assert(pow10(4) == 10000);
}

/// Whether every character of `text` in `start..end` is a decimal digit.
pub fn all_digits_range(text: &str, start: usize, end: usize) -> (r: bool)
    requires
        start <= end <= text@.len(),
    ensures
        r == spec_all_digits(text@.subrange(start as int, end as int)),
{
    for i in start..end
        invariant
            start <= i <= end <= text@.len(),
            forall|j: int| start <= j < i ==> spec_is_digit(#[trigger] text@[j]),
    {
        let c = text.get_char(i);
        if digit_of_char(c).is_none() {
            assert(!spec_is_digit(text@.subrange(start as int, end as int)[i - start]));
            return false;
        }
    }
    assert forall|j: int| 0 <= j < end - start implies spec_is_digit(
        #[trigger] text@.subrange(start as int, end as int)[j],
    ) by {
        assert(spec_is_digit(text@[start + j]));
    }
    true
}

/// The first position in `start..end` whose character is not `0`, or `end`.
pub fn skip_zeros_range(text: &str, start: usize, end: usize) -> (z: usize)
    requires
        start <= end <= text@.len(),
    ensures
        start <= z <= end,
        forall|j: int| start <= j < z ==> text@[j] == '0',
        z < end ==> text@[z as int] != '0',
{
    let mut z = start;
    while z < end && text.get_char(z) == '0'
        invariant
            start <= z <= end <= text@.len(),
            forall|j: int| start <= j < z ==> text@[j] == '0',
        decreases end - z,
    {
        z += 1;
    }
    z
}

/// The number denoted by the digit characters of `text` in `z..end`; at most
/// ten digits, so the value fits comfortably.
pub fn digits_val_range(text: &str, z: usize, end: usize) -> (acc: u64)
    requires
        z <= end <= text@.len(),
        end - z <= 10,
        spec_all_digits(text@.subrange(z as int, end as int)),
    ensures
        acc == spec_digits_val(text@.subrange(z as int, end as int)),
        acc < pow10((end - z) as nat),
{
    let ghost digits = text@.subrange(z as int, end as int);
    let mut acc: u64 = 0;
    let mut i = z;
    while i < end
        invariant
            z <= i <= end <= text@.len(),
            end - z <= 10,
            spec_all_digits(digits),
            digits == text@.subrange(z as int, end as int),
            acc == spec_digits_val(digits.subrange(0, i - z)),
            acc < pow10((i - z) as nat),
        decreases end - i,
    {
        proof {
            assert(digits[i - z] == text@[i as int]);
        }
        let c = text.get_char(i);
        let d = match digit_of_char(c) {
            Some(d) => d,
            None => vstd::pervasive::unreached(),
        };
        proof {
            lemma_pow10_10();
            lemma_pow10_monotone((i - z) as nat, 10);
            assert(digits.subrange(0, i + 1 - z).drop_last() =~= digits.subrange(0, i - z));
            assert(digits.subrange(0, i + 1 - z).last() == text@[i as int]);
        }
        acc = acc * 10 + d as u64;
        i += 1;
        proof {
            assert(pow10((i - z) as nat) == 10 * pow10((i - 1 - z) as nat));
        }
    }
    proof {
        assert(digits.subrange(0, end - z) =~= digits);
    }
    acc
}

/// The numeric value of a digit character, if it is one.
pub fn digit_of_char(c: char) -> (r: Option<u8>)
    ensures
        r is Some <==> spec_is_digit(c),
        r is Some ==> r->0 as int == spec_digit_val(c),
{
    let u = c as u32;
    if 48 <= u && u <= 57 {
        Some((u - 48) as u8)
    } else {
        None
    }
}

/// The one-character text denoting the digit value `d`.
pub fn digit_str(d: u8) -> (r: &'static str)
    requires
        d < 10,
    ensures
        r@ =~= seq![spec_char_of_digit(d as int)],
{
    proof {
        reveal_strlit("0");
        reveal_strlit("1");
        reveal_strlit("2");
        reveal_strlit("3");
        reveal_strlit("4");
        reveal_strlit("5");
        reveal_strlit("6");
        reveal_strlit("7");
        reveal_strlit("8");
        reveal_strlit("9");
    }
    match d {
        0 => "0",
        1 => "1",
        2 => "2",
        3 => "3",
        4 => "4",
        5 => "5",
        6 => "6",
        7 => "7",
        8 => "8",
        _ => "9",
    }
}

/// Append the decimal digit string of `n` to `out`.
pub fn format_u32_digits(n: u32, out: &mut String)
    ensures
        final(out)@ == old(out)@ + spec_nat_digits(n as nat),
    decreases n,
{
    if n < 10 {
        out.append(digit_str(n as u8));
    } else {
        format_u32_digits(n / 10, out);
        out.append(digit_str((n % 10) as u8));
        proof {
            assert(spec_nat_digits(n as nat) =~= spec_nat_digits((n / 10) as nat).push(
                spec_char_of_digit((n % 10) as int),
            ));
            assert(old(out)@ + spec_nat_digits((n / 10) as nat) + seq![
                spec_char_of_digit((n % 10) as int),
            ] =~= old(out)@ + spec_nat_digits(n as nat));
        }
    }
}

} // verus!
