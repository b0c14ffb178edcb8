//! The exponent of a number in scientific notation, and its canonical form.
//!
//! An exponent is never passed on as it was written: it is read as a number
//! and written anew, so that `007`, `+7` and `7` all come out as `7`. An
//! exponent that cannot be read as a number is an error.

use vstd::prelude::*;
use crate::text::{chars_of, is_digit};

verus! {

/// Why a captured exponent has no canonical form.
#[derive(Clone, Copy, Debug, PartialEq, Eq, Structural)]
pub enum ExponentError {
    /// Nothing follows the marker.
    Empty,
    /// The text is not an optional sign followed by one or more digits.
    Malformed,
    /// The number is below `-2147483648` or above `2147483647`.
    OutOfRange,
}

/// The number that a digit stands for.
pub open spec fn digit_value(c: char) -> nat
    recommends
        is_digit(c),
{
    (c as int - '0' as int) as nat
}

/// The digit that stands for `d`.
pub open spec fn digit_char(d: nat) -> char
    recommends
        d < 10,
{
    (d + '0' as nat) as char
}

/// The number that a run of digits stands for, read in base ten.
pub open spec fn decimal_value(digits: Seq<char>) -> nat
    decreases digits.len(),
{
    if digits.len() == 0 {
        0
    } else {
        10 * decimal_value(digits.drop_last()) + digit_value(digits.last())
    }
}

/// Whether every character of `s` is a digit.
pub open spec fn all_digits(s: Seq<char>) -> bool {
    forall|i: int| 0 <= i < s.len() ==> is_digit(#[trigger] s[i])
}

/// Whether `s` starts with `+` or `-`.
pub open spec fn has_sign(s: Seq<char>) -> bool {
    s.len() > 0 && (s[0] == '+' || s[0] == '-')
}

/// `s` without its sign, if it has one.
pub open spec fn unsigned_part(s: Seq<char>) -> Seq<char> {
    if has_sign(s) {
        s.drop_first()
    } else {
        s
    }
}

/// Whether `s` is an integer literal: an optional sign, then one or more
/// digits.
pub open spec fn is_integer(s: Seq<char>) -> bool {
    unsigned_part(s).len() > 0 && all_digits(unsigned_part(s))
}

/// The number that an integer literal stands for.
pub open spec fn integer_value(s: Seq<char>) -> int
    recommends
        is_integer(s),
{
    if has_sign(s) && s[0] == '-' {
        -(decimal_value(unsigned_part(s)) as int)
    } else {
        decimal_value(unsigned_part(s)) as int
    }
}

/// `n` in base ten, without leading zeros.
pub open spec fn decimal(n: nat) -> Seq<char>
    decreases n,
{
    if n < 10 {
        seq![digit_char(n)]
    } else {
        decimal(n / 10).push(digit_char(n % 10))
    }
}

/// `v` in base ten: a `-` if it is negative, then its magnitude without
/// leading zeros.
pub open spec fn signed_decimal(v: int) -> Seq<char> {
    if v < 0 {
        seq!['-'] + decimal((-v) as nat)
    } else {
        decimal(v as nat)
    }
}

/// Whether `v` is an exponent that the library accepts.
pub open spec fn in_range(v: int) -> bool {
    -2147483648 <= v <= 2147483647
}

/// The canonical form of a captured exponent, or the reason why it has none.
pub open spec fn normalized_exponent(raw: Seq<char>) -> Result<Seq<char>, ExponentError> {
    if raw.len() == 0 {
        Err(ExponentError::Empty)
    } else if !is_integer(raw) {
        Err(ExponentError::Malformed)
    } else if !in_range(integer_value(raw)) {
        Err(ExponentError::OutOfRange)
    } else {
        Ok(signed_decimal(integer_value(raw)))
    }
}

/// Appends `n` in base ten to `out`.
fn push_decimal(out: &mut String, n: u64)
    ensures
        final(out)@ == old(out)@ + decimal(n as nat),
    decreases n,
{
    if n >= 10 {
        push_decimal(out, n / 10);
    }
    let digit: u8 = (n % 10) as u8;
    out.push((48u8 + digit) as char);
}

/// Reading one more digit can only make the number larger.
proof fn lemma_decimal_value_grows(digits: Seq<char>, n: int)
    requires
        0 <= n < digits.len(),
    ensures
        digits.take(n + 1).drop_last() == digits.take(n),
        decimal_value(digits.take(n + 1)) == 10 * decimal_value(digits.take(n)) + digit_value(
            digits[n],
        ),
        decimal_value(digits.take(n + 1)) >= decimal_value(digits.take(n)),
{
}

/// The canonical form of the exponent in `chars[from..to]`, or the reason
/// why it has none.
pub fn normalize_range(chars: &Vec<char>, from: usize, to: usize) -> (out: Result<
    String,
    ExponentError,
>)
    requires
        from <= to <= chars.len(),
    ensures
        match out {
            Ok(text) => normalized_exponent(chars@.subrange(from as int, to as int)) == Ok::<
                Seq<char>,
                ExponentError,
            >(text@),
            Err(error) => normalized_exponent(chars@.subrange(from as int, to as int)) == Err::<
                Seq<char>,
                ExponentError,
            >(error),
        },
{
    let ghost raw = chars@.subrange(from as int, to as int);
    if from == to {
        return Err(ExponentError::Empty);
    }
    let negative = chars[from] == '-';
    let signed = negative || chars[from] == '+';
    let start: usize = if signed {
        from + 1
    } else {
        from
    };
    let ghost digits = chars@.subrange(start as int, to as int);
    if start == to {
        return Err(ExponentError::Malformed);
    }
    let mut magnitude: u64 = 0;
    let mut too_large = false;
    let mut i: usize = start;
    while i < to
        invariant
            start <= i <= to <= chars.len(),
            raw == chars@.subrange(from as int, to as int),
            digits == chars@.subrange(start as int, to as int),
            digits == unsigned_part(raw),
            all_digits(digits.take(i - start)),
            !too_large ==> magnitude == decimal_value(digits.take(i - start)),
            !too_large ==> magnitude <= 2147483648,
            too_large ==> decimal_value(digits.take(i - start)) > 2147483648,
        decreases to - i,
    {
        let c = chars[i];
        if !('0' <= c && c <= '9') {
            assert(!is_digit(digits[i - start]));
            return Err(ExponentError::Malformed);
        }
        proof {
            lemma_decimal_value_grows(digits, i - start);
        }
        if !too_large {
            magnitude = 10 * magnitude + (c as u64 - 48);
            if magnitude > 2147483648 {
                too_large = true;
            }
        }
        i += 1;
    }
    assert(digits.take(to - start) == digits);
    if too_large || (!negative && magnitude == 2147483648) {
        return Err(ExponentError::OutOfRange);
    }
    let mut text = String::new();
    if negative && magnitude > 0 {
        text.push('-');
    }
    push_decimal(&mut text, magnitude);
    Ok(text)
}

/// The canonical form of a captured exponent: the number that `raw` stands
/// for, written without `+` and without leading zeros, and with `-` only
/// where it is negative.
///
/// Refused, each with its reason, are the empty text, a text that is not an
/// optional sign followed by one or more digits, and a number below
/// `-2147483648` or above `2147483647`.
pub fn normalize_exponent(raw: &str) -> (out: Result<String, ExponentError>)
    ensures
        match out {
            Ok(text) => normalized_exponent(raw@) == Ok::<Seq<char>, ExponentError>(text@),
            Err(error) => normalized_exponent(raw@) == Err::<Seq<char>, ExponentError>(error),
        },
{
    let chars = chars_of(raw);
    assert(chars@.subrange(0, chars.len() as int) == chars@);
    normalize_range(&chars, 0, chars.len())
}

/// What `decimal` writes: one or more digits that stand for `n`, the first
/// of them `0` only where `n` is zero.
pub proof fn lemma_decimal(n: nat)
    ensures
        decimal(n).len() > 0,
        all_digits(decimal(n)),
        decimal_value(decimal(n)) == n,
        decimal(n)[0] == '0' <==> n == 0,
        n == 0 ==> decimal(n) == seq!['0'],
    decreases n,
{
    if n < 10 {
        let digits = decimal(n);
        assert(decimal_value(digits.drop_last()) == 0);
    } else {
        let upper = decimal(n / 10);
        let digits = decimal(n);
        lemma_decimal(n / 10);
        assert(digits.drop_last() == upper);
        assert forall|i: int| 0 <= i < digits.len() implies is_digit(#[trigger] digits[i]) by {
            if i < upper.len() {
                assert(digits[i] == upper[i]);
            }
        }
    }
}

/// What `signed_decimal` writes is an integer literal that stands for `v`.
pub proof fn lemma_signed_decimal(v: int)
    ensures
        is_integer(signed_decimal(v)),
        integer_value(signed_decimal(v)) == v,
        signed_decimal(v)[0] != '+',
{
    if v < 0 {
        lemma_decimal((-v) as nat);
        assert(unsigned_part(signed_decimal(v)) == decimal((-v) as nat));
    } else {
        lemma_decimal(v as nat);
    }
}

/// Normalizing keeps the number: wherever a captured exponent has a
/// canonical form, that form is an integer literal that stands for the same
/// number as the exponent itself.
pub proof fn lemma_normalized_keeps_value(raw: Seq<char>)
    requires
        normalized_exponent(raw) is Ok,
    ensures
        is_integer(normalized_exponent(raw).unwrap()),
        integer_value(normalized_exponent(raw).unwrap()) == integer_value(raw),
{
    lemma_signed_decimal(integer_value(raw));
}

/// A canonical form is written without `+` and without leading zeros, and
/// zero is written as `0`, never as `-0`.
pub proof fn lemma_normalized_is_canonical(raw: Seq<char>)
    requires
        normalized_exponent(raw) is Ok,
    ensures
        ({
            let text = normalized_exponent(raw).unwrap();
            let digits = unsigned_part(text);
            &&& text.len() > 0 && text[0] != '+'
            &&& digits.len() > 1 ==> digits[0] != '0'
            &&& integer_value(raw) == 0 ==> text == seq!['0']
        }),
{
    let v = integer_value(raw);
    lemma_signed_decimal(v);
    if v < 0 {
        lemma_decimal((-v) as nat);
    } else {
        lemma_decimal(v as nat);
    }
}

/// Normalizing twice is normalizing once: a canonical form is its own
/// canonical form.
pub proof fn lemma_normalize_idempotent(raw: Seq<char>)
    requires
        normalized_exponent(raw) is Ok,
    ensures
        normalized_exponent(normalized_exponent(raw).unwrap()) == normalized_exponent(raw),
{
    lemma_signed_decimal(integer_value(raw));
}

/// Two exponents that stand for the same number have the same canonical
/// form.
pub proof fn lemma_equal_values_normalize_alike(a: Seq<char>, b: Seq<char>)
    requires
        is_integer(a),
        is_integer(b),
        integer_value(a) == integer_value(b),
    ensures
        normalized_exponent(a) == normalized_exponent(b),
{
}

} // verus!
