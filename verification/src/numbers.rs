//! Decimal numbers as text.

use crate::text::{chars_of, CharClass};
use vstd::prelude::*;

verus! {

/// The number that decimal digits spell.
pub open spec fn digits_value(digits: Seq<char>) -> nat
    decreases digits.len(),
{
    if digits.len() == 0 {
        0
    } else {
        10 * digits_value(digits.drop_last()) + (digits.last() as int - '0' as int) as nat
    }
}

/// The digits of a decimal text, without the plus sign that may stand before them.
pub open spec fn unsigned_digits(text: Seq<char>) -> Seq<char> {
    if text.len() > 0 && text[0] == '+' {
        text.skip(1)
    } else {
        text
    }
}

/// The number that a decimal text stands for: one digit or more, at most `max`.
pub open spec fn decimal(text: Seq<char>, max: nat) -> Option<nat> {
    let digits = unsigned_digits(text);
    if digits.len() > 0 && crate::text::all_in(digits, CharClass::Digit) && digits_value(digits)
        <= max {
        Some(digits_value(digits))
    } else {
        None
    }
}

/// A longer run of digits spells no smaller number.
proof fn lemma_digits_value_grows(digits: Seq<char>, k: int)
    requires
        0 <= k <= digits.len(),
        crate::text::all_in(digits, CharClass::Digit),
    ensures
        digits_value(digits.take(k)) <= digits_value(digits),
    decreases digits.len() - k,
{
    if k < digits.len() {
        lemma_digits_value_grows(digits, k + 1);
        assert(digits.take(k + 1).drop_last() =~= digits.take(k));
    } else {
        assert(digits.take(k) =~= digits);
    }
}

/// Reads a decimal number.
pub fn parse_u64(text: &str) -> (number: Option<u64>)
    ensures
        number is Some == decimal(text@, u64::MAX as nat) is Some,
        number matches Some(value) ==> decimal(text@, u64::MAX as nat) == Some(value as nat),
{
    let chars: Vec<char> = chars_of(text);
    let start: usize = if chars.len() > 0 && chars[0] == '+' {
        1
    } else {
        0
    };
    let ghost digits = unsigned_digits(text@);
    proof {
        assert(digits =~= chars@.skip(start as int));
    }
    if start == chars.len() {
        return None;
    }
    let mut value: u64 = 0;
    let mut i: usize = start;
    while i < chars.len()
        invariant
            start <= i <= chars@.len(),
            digits == chars@.skip(start as int),
            digits == unsigned_digits(text@),
            forall|j: int| 0 <= j < i - start ==> CharClass::Digit.holds(#[trigger] digits[j]),
            value == digits_value(digits.take(i - start)),
        decreases chars@.len() - i,
    {
        let c: char = chars[i];
        if !CharClass::Digit.admits(c) {
            proof {
                assert(digits[i - start] == c);
            }
            return None;
        }
        let digit: u64 = (c as u32 - 48) as u64;
        proof {
            assert(digits[i - start] == c);
            assert(digits.take(i - start + 1).drop_last() =~= digits.take(i - start));
        }
        let overflow = value > u64::MAX / 10 || (value == u64::MAX / 10 && digit > u64::MAX % 10);
        if overflow {
            proof {
                if crate::text::all_in(digits, CharClass::Digit) {
                    lemma_digits_value_grows(digits, i - start + 1);
                }
            }
            return None;
        }
        value = value * 10 + digit;
        i += 1;
    }
    proof {
        assert(digits.take(digits.len() as int) =~= digits);
    }
    Some(value)
}

/// Reads a decimal number of 16 bits.
pub fn parse_u16(text: &str) -> (number: Option<u16>)
    ensures
        number is Some == decimal(text@, u16::MAX as nat) is Some,
        number matches Some(value) ==> decimal(text@, u16::MAX as nat) == Some(value as nat),
{
    match parse_u64(text) {
        Some(value) => {
            if value <= 65_535 {
                Some(value as u16)
            } else {
                None
            }
        },
        None => None,
    }
}

/// The digits of a number, without leading zeros.
pub open spec fn decimal_text(value: nat) -> Seq<char>
    decreases value,
{
    if value < 10 {
        seq![('0' as int + value) as char]
    } else {
        decimal_text(value / 10).push(('0' as int + value % 10) as char)
    }
}

/// Writes a number in decimal.
pub fn to_decimal(value: u64) -> (digits: String)
    ensures
        digits@ == decimal_text(value as nat),
    decreases value,
{
    let last: u8 = (value % 10) as u8;
    let digit: char = (48 + last) as char;
    if value < 10 {
        let mut digits: String = String::new();
        digits.push(digit);
        proof {
            assert(digits@ =~= decimal_text(value as nat));
        }
        digits
    } else {
        let mut digits: String = to_decimal(value / 10);
        digits.push(digit);
        digits
    }
}

/// Reading a number that was written gives the number back.
pub proof fn law_decimal_round_trip(value: nat)
    ensures
        decimal(decimal_text(value), value) == Some(value),
{
    lemma_decimal_digits(value);
    let text = decimal_text(value);
    assert(text[0] != '+');
}

/// A written number is made of digits that spell it.
pub proof fn lemma_decimal_digits(value: nat)
    ensures
        decimal_text(value).len() > 0,
        crate::text::all_in(decimal_text(value), CharClass::Digit),
        digits_value(decimal_text(value)) == value,
    decreases value,
{
    let text = decimal_text(value);
    if value < 10 {
        assert(text.drop_last() =~= Seq::<char>::empty());
        assert(digits_value(text.drop_last()) == 0);
    } else {
        lemma_decimal_digits(value / 10);
        assert(text.drop_last() =~= decimal_text(value / 10));
    }
}

/// A number is read of digits alone, with or without a plus sign before them, up to its bound;
/// each further digit counts ten times what stands before it.
pub proof fn law_decimal_is_made_of_digits(digits: Seq<char>, digit: char, max: nat)
    requires
        '0' <= digit <= '9',
        forall|i: int| 0 <= i < digits.len() ==> '0' <= #[trigger] digits[i] <= '9',
    ensures
        decimal(Seq::empty(), max) is None,
        decimal(seq![digit], max) == if digit as int - '0' as int <= max {
            Some((digit as int - '0' as int) as nat)
        } else {
            None
        },
        digits.len() > 0 && decimal(digits.push(digit), max) is Some ==> decimal(digits, max)
            is Some && decimal(digits.push(digit), max)->0 == 10 * decimal(digits, max)->0 + (
        digit as int - '0' as int),
        digits.len() > 0 && decimal(digits, max) is Some && 10 * decimal(digits, max)->0 + (
        digit as int - '0' as int) <= max ==> decimal(digits.push(digit), max) is Some,
        digits.len() > 0 ==> decimal(seq!['+'] + digits, max) == decimal(digits, max),
{
    let more = digits.push(digit);
    assert(more.drop_last() =~= digits);
    if digits.len() > 0 {
        assert(digits[0] != '+');
        assert(more[0] == digits[0]);
        assert((seq!['+'] + digits).skip(1) =~= digits);
        assert(crate::text::all_in(digits, CharClass::Digit));
        assert(crate::text::all_in(more, CharClass::Digit));
    }
    let single = seq![digit];
    assert(single.drop_last() =~= Seq::<char>::empty());
    reveal_with_fuel(digits_value, 2);
}

/// A text with any other character, but for a plus sign at its beginning, is no number.
pub proof fn law_other_characters_are_no_number(text: Seq<char>, i: int, max: nat)
    requires
        0 <= i < text.len(),
        !('0' <= text[i] <= '9'),
        i > 0 || text[0] != '+',
    ensures
        decimal(text, max) is None,
{
    if text[0] == '+' {
        assert(text.skip(1)[i - 1] == text[i]);
        assert(!CharClass::Digit.holds(text.skip(1)[i - 1]));
    } else {
        assert(!CharClass::Digit.holds(text[i]));
    }
}

} // verus!
