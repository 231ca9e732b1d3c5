//! ASCII text as bytes: case, digits, decimal numerals.

use vstd::prelude::*;

verus! {

/// `b` is one of `0` to `9`.
pub open spec fn is_digit(b: u8) -> bool {
    '0' as u8 <= b <= '9' as u8
}

/// `b` with an upper-case letter made lower case.
pub open spec fn lower_byte(b: u8) -> u8 {
    if 'A' as u8 <= b <= 'Z' as u8 {
        (b + 32) as u8
    } else {
        b
    }
}

/// `text` with every upper-case letter made lower case.
pub open spec fn ascii_lower(text: Seq<u8>) -> Seq<u8> {
    Seq::new(text.len(), |i: int| lower_byte(text[i]))
}

/// The characters whose code points are the given bytes.
pub open spec fn bytes_as_chars(bytes: Seq<u8>) -> Seq<char> {
    Seq::new(bytes.len(), |i: int| bytes[i] as char)
}

/// The low bytes of the code points of the given characters.
pub open spec fn chars_as_bytes(chars: Seq<char>) -> Seq<u8> {
    Seq::new(chars.len(), |i: int| chars[i] as u8)
}

/// Every byte of `text` is a digit.
pub open spec fn all_digits(text: Seq<u8>) -> bool {
    forall|i: int| 0 <= i < text.len() ==> is_digit(#[trigger] text[i])
}

/// The number that the digits `digits` write in base ten.
pub open spec fn decimal_value(digits: Seq<u8>) -> nat
    decreases digits.len(),
{
    if digits.len() == 0 {
        0
    } else {
        decimal_value(digits.drop_last()) * 10 + (digits.last() - '0' as u8) as nat
    }
}

/// The digit that writes `d`, for `d` below ten.
pub open spec fn digit_char(d: nat) -> char {
    (('0' as u8 + d) as u8) as char
}

/// `n` written in base ten, without sign or leading zeros.
pub open spec fn decimal_text(n: nat) -> Seq<char>
    decreases n,
{
    if n < 10 {
        seq![digit_char(n)]
    } else {
        decimal_text(n / 10).push(digit_char(n % 10))
    }
}

/// The number of digits that `text` starts with.
pub open spec fn digit_run(text: Seq<u8>) -> nat
    decreases text.len(),
{
    if text.len() > 0 && is_digit(text[0]) {
        1 + digit_run(text.drop_first())
    } else {
        0
    }
}

/// `digits`, read as a number that fits the machine word; `None` where it
/// is empty, holds another byte than a digit, or writes a larger number.
pub open spec fn decimal_number_of(digits: Seq<u8>) -> Option<usize> {
    if digits.len() > 0 && all_digits(digits) && decimal_value(digits) <= usize::MAX {
        Some(decimal_value(digits) as usize)
    } else {
        None
    }
}

/// The digit run of `text` is `count` long where `text` starts with `count`
/// digits and goes on, if it does, with another byte.
pub proof fn lemma_digit_run(text: Seq<u8>, count: nat)
    requires
        count <= text.len(),
        forall|i: int| 0 <= i < count ==> is_digit(#[trigger] text[i]),
        count == text.len() || !is_digit(text[count as int]),
    ensures
        digit_run(text) == count,
    decreases count,
{
    if count > 0 {
        lemma_digit_run(text.drop_first(), (count - 1) as nat);
    }
}

/// The digit run of a text is a prefix of digits that no digit follows.
pub proof fn lemma_digit_run_is_run(text: Seq<u8>)
    ensures
        digit_run(text) <= text.len(),
        all_digits(text.take(digit_run(text) as int)),
        digit_run(text) == text.len() || !is_digit(text[digit_run(text) as int]),
    decreases text.len(),
{
    if text.len() > 0 && is_digit(text[0]) {
        let rest = text.drop_first();
        lemma_digit_run_is_run(rest);
        let run = text.take(digit_run(text) as int);
        assert forall|i: int| 0 <= i < run.len() implies is_digit(#[trigger] run[i]) by {
            if i > 0 {
                assert(run[i] == rest.take(digit_run(rest) as int)[i - 1]);
            }
        }
    }
}

/// A numeral's prefix writes no larger a number than the numeral.
pub proof fn lemma_decimal_value_prefix(digits: Seq<u8>, len: int)
    requires
        all_digits(digits),
        0 <= len <= digits.len(),
    ensures
        decimal_value(digits.take(len)) <= decimal_value(digits),
    decreases digits.len() - len,
{
    if len == digits.len() {
        assert(digits.take(len) =~= digits);
    } else {
        lemma_decimal_value_prefix(digits, len + 1);
        lemma_decimal_value_step(digits, len);
    }
}

/// One more digit multiplies the number by ten and adds the digit.
pub proof fn lemma_decimal_value_step(digits: Seq<u8>, len: int)
    requires
        0 <= len < digits.len(),
        is_digit(digits[len]),
    ensures
        decimal_value(digits.take(len + 1)) == decimal_value(digits.take(len)) * 10 + (digits[len]
            - '0' as u8),
{
    assert(digits.take(len + 1).drop_last() =~= digits.take(len));
}

/// A number's numeral is made of digits and writes the number.
pub proof fn lemma_decimal_text_value(n: nat)
    ensures
        decimal_text(n).len() > 0,
        all_digits(chars_as_bytes(decimal_text(n))),
        decimal_value(chars_as_bytes(decimal_text(n))) == n,
    decreases n,
{
    let text = chars_as_bytes(decimal_text(n));
    if n < 10 {
        assert(decimal_value(text.drop_last()) == 0);
    } else {
        lemma_decimal_text_value(n / 10);
        let before = chars_as_bytes(decimal_text(n / 10));
        assert(text.drop_last() =~= before);
        assert forall|i: int| 0 <= i < text.len() implies is_digit(#[trigger] text[i]) by {
            if i < before.len() {
                assert(text[i] == before[i]);
            }
        }
    }
}

/// The number of digits that `text` starts with.
pub fn leading_digits(text: &[u8]) -> (count: usize)
    ensures
        count == digit_run(text@),
{
    let mut count: usize = 0;
    while count < text.len() && text[count] >= 48 && text[count] <= 57
        invariant
            count <= text.len(),
            forall|i: int| 0 <= i < count ==> is_digit(#[trigger] text@[i]),
        decreases text.len() - count,
    {
        count += 1;
    }
    proof {
        lemma_digit_run(text@, count as nat);
    }
    count
}

/// Reads a run of digits as a number.
pub fn decimal_number(digits: &[u8]) -> (number: Option<usize>)
    ensures
        number == decimal_number_of(digits@),
{
    if digits.len() == 0 {
        return None;
    }
    let mut value: usize = 0;
    let mut at: usize = 0;
    while at < digits.len()
        invariant
            at <= digits.len(),
            all_digits(digits@.take(at as int)),
            value == decimal_value(digits@.take(at as int)),
        decreases digits.len() - at,
    {
        let byte: u8 = digits[at];
        if byte < 48 || byte > 57 {
            return None;
        }
        let digit: usize = (byte - 48) as usize;
        proof {
            lemma_decimal_value_step(digits@, at as int);
        }
        if value > (usize::MAX - digit) / 10 {
            proof {
                if all_digits(digits@) {
                    lemma_decimal_value_prefix(digits@, at + 1);
                }
            }
            return None;
        }
        value = value * 10 + digit;
        at += 1;
    }
    assert(digits@.take(at as int) =~= digits@);
    Some(value)
}

} // verus!
