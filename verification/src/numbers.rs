//! Numbers written in decimal, and numbers cut to 16 bits.

use vstd::prelude::*;

use crate::text::{chars_of, push};

verus! {

/// A decimal digit.
pub open spec fn is_digit(c: char) -> bool {
    '0' <= c <= '9'
}

/// Every character is a decimal digit.
pub open spec fn all_digits(digits: Seq<char>) -> bool {
    forall|i: int| 0 <= i < digits.len() ==> is_digit(#[trigger] digits[i])
}

/// The value of decimal digits.
pub open spec fn decimal_value(digits: Seq<char>) -> nat
    decreases digits.len(),
{
    if digits.len() == 0 {
        0
    } else {
        decimal_value(digits.drop_last()) * 10 + (digits.last() as u32 - '0' as u32) as nat
    }
}

/// The 32-bit number that text writes in decimal, after an optional plus sign.
pub open spec fn decimal_number(text: Seq<char>) -> Option<u32> {
    let digits = if text.len() > 0 && text[0] == '+' {
        text.skip(1)
    } else {
        text
    };
    if digits.len() > 0 && all_digits(digits) && decimal_value(digits) <= u32::MAX {
        Some(decimal_value(digits) as u32)
    } else {
        None
    }
}

/// A number written in decimal.
pub open spec fn decimal_text(number: nat) -> Seq<char>
    decreases number,
{
    let digit = ('0' as u32 + number % 10) as char;
    if number < 10 {
        seq![digit]
    } else {
        decimal_text(number / 10).push(digit)
    }
}

/// Further digits do not make a number smaller.
proof fn lemma_decimal_value_grows(digits: Seq<char>, count: int)
    requires
        0 <= count <= digits.len(),
        all_digits(digits),
    ensures
        decimal_value(digits.take(count)) <= decimal_value(digits),
    decreases digits.len(),
{
    if count == digits.len() {
        assert(digits.take(count) =~= digits);
    } else {
        assert forall|i: int| 0 <= i < digits.drop_last().len() implies is_digit(
            #[trigger] digits.drop_last()[i],
        ) by {
            assert(digits.drop_last()[i] == digits[i]);
        }
        lemma_decimal_value_grows(digits.drop_last(), count);
        assert(digits.drop_last().take(count) =~= digits.take(count));
    }
}

/// Reads a number written in decimal.
pub fn read_decimal(text: &str) -> (number: Option<u32>)
    ensures
        number == decimal_number(text@),
{
    let chars = chars_of(text);
    let start: usize = if chars.len() > 0 && chars[0] == '+' {
        1
    } else {
        0
    };
    let ghost digits = chars@.skip(start as int);
    assert(start == 0 ==> digits =~= text@);
    if start == chars.len() {
        return None;
    }
    let mut value: u64 = 0;
    let mut at: usize = start;
    while at < chars.len()
        invariant
            start <= at <= chars@.len(),
            start < chars@.len(),
            digits == chars@.skip(start as int),
            all_digits(digits.take(at - start)),
            value == decimal_value(digits.take(at - start)),
            value <= u32::MAX,
            decimal_number(text@) == (if all_digits(digits) && decimal_value(digits) <= u32::MAX {
                Some(decimal_value(digits) as u32)
            } else {
                None
            }),
        decreases chars@.len() - at,
    {
        let c: char = chars[at];
        let ghost next = digits.take(at - start + 1);
        assert(next.drop_last() =~= digits.take(at - start));
        assert(next.last() == c);
        assert(digits[at - start] == c);
        if c < '0' || c > '9' {
            assert(!is_digit(digits[at - start]));
            return None;
        }
        value = value * 10 + (c as u32 - '0' as u32) as u64;
        assert forall|i: int| 0 <= i < next.len() implies is_digit(#[trigger] next[i]) by {
            if i < at - start {
                assert(next[i] == digits.take(at - start)[i]);
            }
        }
        if value > u32::MAX as u64 {
            proof {
                if all_digits(digits) {
                    lemma_decimal_value_grows(digits, at - start + 1);
                }
            }
            return None;
        }
        at += 1;
    }
    assert(digits.take(chars@.len() - start) =~= digits);
    Some(value as u32)
}

/// Appends a number written in decimal.
pub fn push_decimal(text: &mut String, number: u32)
    ensures
        final(text)@ == old(text)@ + decimal_text(number as nat),
    decreases number,
{
    if number >= 10 {
        push_decimal(text, number / 10);
    }
    push(text, ('0' as u8 + (number % 10) as u8) as char);
    assert(text@ =~= old(text)@ + decimal_text(number as nat));
}

/// The low 16 bits of a number.
pub open spec fn low_half(number: u32) -> u16 {
    (number % 0x1_0000) as u16
}

/// The low 16 bits of a signed number, signed.
pub open spec fn low_half_signed(number: i32) -> i16 {
    if number as int % 0x1_0000 < 0x8000 {
        (number as int % 0x1_0000) as i16
    } else {
        (number as int % 0x1_0000 - 0x1_0000) as i16
    }
}

/// The low 16 bits of a number.
pub(crate) fn to_low_half(number: u32) -> (half: u16)
    ensures
        half == low_half(number),
{
    assert(number as u16 == number % 0x1_0000) by (bit_vector);
    number as u16
}

/// The low 16 bits of a number.
pub(crate) fn to_low_half_signed(number: i32) -> (half: i16)
    ensures
        half == low_half_signed(number),
{
    assert(number % 0x1_0000 < 0x8000 ==> number as i16 == number % 0x1_0000) by (bit_vector);
    assert(number % 0x1_0000 >= 0x8000 ==> number as i16 == number % 0x1_0000 - 0x1_0000)
        by (bit_vector);
    number as i16
}

/// Cutting a number to 16 bits takes a multiple of 2^16 away, and a number that fits in 16
/// bits stays as it is.
pub proof fn cut_numbers_lose_whole_multiples(number: u32, signed: i32)
    ensures
        (number - low_half(number)) % 0x1_0000 == 0,
        number < 0x1_0000 ==> low_half(number) == number,
        (signed - low_half_signed(signed)) % 0x1_0000 == 0,
        -0x8000 <= signed < 0x8000 ==> low_half_signed(signed) == signed,
{
}

/// A number written in decimal reads back where it has 32 bits, and is refused where it has
/// more. A plus sign before the digits makes no difference, nor does a zero.
pub proof fn decimals_read_back(number: nat)
    ensures
        number <= u32::MAX ==> decimal_number(decimal_text(number)) == Some(number as u32),
        number > u32::MAX ==> decimal_number(decimal_text(number)) is None,
        decimal_number(seq!['+'] + decimal_text(number)) == decimal_number(decimal_text(number)),
        decimal_number(seq!['0'] + decimal_text(number)) == decimal_number(decimal_text(number)),
{
    lemma_decimal_text(number);
    let digits = decimal_text(number);
    assert((seq!['+'] + digits).skip(1) =~= digits);
    lemma_leading_zero(digits);
    let padded = seq!['0'] + digits;
    assert forall|i: int| 0 <= i < padded.len() implies is_digit(#[trigger] padded[i]) by {
        if i > 0 {
            assert(padded[i] == digits[i - 1]);
        }
    }
}

/// What holds anything but decimal digits after an optional plus sign, or nothing after it,
/// is no number.
pub proof fn only_digits_make_a_number(text: Seq<char>, at: int)
    requires
        0 <= at < text.len(),
        !('0' <= text[at] <= '9'),
        at > 0 || text[at] != '+',
    ensures
        decimal_number(text) is None,
        decimal_number(seq![]) is None,
        decimal_number(seq!['+']) is None,
{
    if text[0] == '+' {
        assert(text.skip(1)[at - 1] == text[at]);
    }
}

proof fn lemma_decimal_text(number: nat)
    ensures
        decimal_text(number).len() > 0,
        all_digits(decimal_text(number)),
        decimal_value(decimal_text(number)) == number,
        decimal_text(number)[0] != '+',
    decreases number,
{
    let digit = ('0' as u32 + number % 10) as char;
    assert(digit as u32 == '0' as u32 + number % 10);
    if number < 10 {
        assert(seq![digit].drop_last() =~= seq![]);
        assert(decimal_value(seq![]) == 0);
    } else {
        lemma_decimal_text(number / 10);
        let before = decimal_text(number / 10);
        let after = before.push(digit);
        assert(after.drop_last() =~= before);
        assert forall|i: int| 0 <= i < after.len() implies is_digit(#[trigger] after[i]) by {
            if i < before.len() {
                assert(after[i] == before[i]);
            }
        }
        assert(after[0] == before[0]);
    }
}

proof fn lemma_leading_zero(digits: Seq<char>)
    ensures
        decimal_value(seq!['0'] + digits) == decimal_value(digits),
    decreases digits.len(),
{
    let padded = seq!['0'] + digits;
    if digits.len() == 0 {
        assert(padded.drop_last() =~= seq![]);
        assert(decimal_value(seq![]) == 0);
    } else {
        lemma_leading_zero(digits.drop_last());
        assert(padded.drop_last() =~= seq!['0'] + digits.drop_last());
        assert(padded.last() == digits.last());
    }
}

} // verus!
