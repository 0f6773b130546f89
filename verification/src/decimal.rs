//! Decimal numerals: what the text of an integer is, and which texts are
//! numerals.

use vstd::prelude::*;

verus! {

/// The character of the digit `d`, for `d` from 0 to 9.
pub open spec fn digit_char(d: int) -> char {
    (d + 48) as char
}

pub open spec fn is_digit(c: char) -> bool {
    '0' <= c <= '9'
}

/// The value of a digit character.
pub open spec fn digit_value(c: char) -> int {
    c as int - 48
}

/// The digits of `n`, most significant first, without leading zeros.
pub open spec fn digits_of(n: nat) -> Seq<char>
    decreases n,
{
    if n < 10 {
        seq![digit_char(n as int)]
    } else {
        digits_of(n / 10).push(digit_char((n % 10) as int))
    }
}

/// The decimal text of an integer: a minus sign where it is negative, then
/// its digits.
pub open spec fn decimal_text(value: int) -> Seq<char> {
    if value < 0 {
        seq!['-'] + digits_of((-value) as nat)
    } else {
        digits_of(value as nat)
    }
}

pub open spec fn all_digits(text: Seq<char>) -> bool {
    forall|i: int| 0 <= i < text.len() ==> is_digit(#[trigger] text[i])
}

/// The number that a sequence of digits stands for.
pub open spec fn digits_value(text: Seq<char>) -> nat
    decreases text.len(),
{
    if text.len() == 0 {
        0
    } else {
        (10 * digits_value(text.drop_last()) + digit_value(text.last())) as nat
    }
}

/// The integer that a text stands for, if it is a numeral: an optional sign,
/// `+` or `-`, and then one digit or more, and nothing else.
pub open spec fn decimal_value(text: Seq<char>) -> Option<int> {
    let signed = text.len() > 0 && (text[0] == '-' || text[0] == '+');
    let digits = if signed {
        text.skip(1)
    } else {
        text
    };
    if digits.len() == 0 || !all_digits(digits) {
        None
    } else if signed && text[0] == '-' {
        Some(-(digits_value(digits) as int))
    } else {
        Some(digits_value(digits) as int)
    }
}

/// The signed 64-bit integer that a text stands for, if it is a numeral of
/// one.
pub open spec fn decimal_i64(text: Seq<char>) -> Option<i64> {
    match decimal_value(text) {
        Some(value) => if i64::MIN <= value <= i64::MAX {
            Some(value as i64)
        } else {
            None
        },
        None => None,
    }
}

/// The digits of a number are digits, at least one, and stand for that
/// number.
pub proof fn lemma_digits_of(n: nat)
    ensures
        digits_of(n).len() >= 1,
        all_digits(digits_of(n)),
        digits_value(digits_of(n)) == n,
    decreases n,
{
    if n < 10 {
        let text = digits_of(n);
        assert(text.drop_last().len() == 0);
        assert(digits_value(text.drop_last()) == 0);
        assert(text.last() == digit_char(n as int));
    } else {
        lemma_digits_of(n / 10);
        let head = digits_of(n / 10);
        let text = digits_of(n);
        assert(text == head.push(digit_char((n % 10) as int)));
        assert(text.drop_last() =~= head);
        assert(text.last() == digit_char((n % 10) as int));
        assert forall|i: int| 0 <= i < text.len() implies is_digit(#[trigger] text[i]) by {
            if i < head.len() {
                assert(text[i] == head[i]);
            }
        }
    }
}

/// The decimal text of an integer is a numeral, and it stands for that
/// integer.
pub proof fn lemma_decimal_round_trip(value: int)
    ensures
        decimal_value(decimal_text(value)) == Some(value),
{
    let text = decimal_text(value);
    if value < 0 {
        let digits = digits_of((-value) as nat);
        lemma_digits_of((-value) as nat);
        assert(text[0] == '-');
        assert(text.skip(1) =~= digits);
    } else {
        lemma_digits_of(value as nat);
        assert(is_digit(text[0]));
    }
}

/// What the standard library's parser says of a text that is no numeral of a
/// signed 64-bit integer.
pub uninterp spec fn parse_failure_text(text: Seq<char>) -> Seq<char>;

/// The decimal text of an integer, as `i128::to_string` of the standard
/// library writes it: a minus sign where the value is negative, then the
/// digits without leading zeros.
#[verifier::external_body]
pub(crate) fn decimal_string(value: i128) -> (text: String)
    ensures
        text@ == decimal_text(value as int),
{
    value.to_string()
}

/// Parses a signed 64-bit integer with `str::parse` of the standard library.
/// It accepts an optional sign followed by decimal digits and nothing else,
/// and refuses a value that does not fit; for a refused text the error holds
/// the parser's own words.
#[verifier::external_body]
pub(crate) fn parse_decimal(text: &str) -> (parsed: Result<i64, String>)
    ensures
        match decimal_i64(text@) {
            Some(value) => parsed == Ok::<i64, String>(value),
            None => parsed is Err && parsed->Err_0@ == parse_failure_text(text@),
        },
{
    match text.parse::<i64>() {
        Ok(value) => Ok(value),
        Err(error) => Err(error.to_string()),
    }
}

} // verus!
