//! What the JSON texts of numbers and byte strings say.

use vstd::prelude::*;

use crate::wire::{bytes_text, hex_bytes, hex_digit, hex_number, quantity_text};

verus! {

/// The value of a hexadecimal digit in lower case, `None` for any other character.
pub open spec fn digit_value(digit: char) -> Option<int> {
    if '0' <= digit <= '9' {
        Some(digit as int - '0' as int)
    } else if 'a' <= digit <= 'f' {
        Some(digit as int - 'a' as int + 10)
    } else {
        None
    }
}

/// The number that hexadecimal digits stand for, most significant first.
pub open spec fn number_of(digits: Seq<char>) -> Option<int>
    decreases digits.len(),
{
    if digits.len() == 0 {
        Some(0)
    } else {
        match (number_of(digits.drop_last()), digit_value(digits.last())) {
            (Some(rest), Some(last)) => Some(16 * rest + last),
            _ => None,
        }
    }
}

/// A digit has the value that it was written for.
proof fn lemma_digit(value: int)
    requires
        0 <= value < 16,
    ensures
        digit_value(hex_digit(value)) == Some(value),
        hex_digit(value) == '0' <==> value == 0,
{
}

/// The digits of a number stand for that number.
proof fn lemma_number(value: nat)
    ensures
        number_of(hex_number(value)) == Some(value as int),
        hex_number(value).len() > 0,
        hex_number(value)[0] == '0' ==> value == 0,
    decreases value,
{
    let digits = hex_number(value);
    if value < 16 {
        lemma_digit(value as int);
        assert(digits.drop_last() =~= Seq::<char>::empty());
        assert(number_of(digits.drop_last()) == Some(0int));
    } else {
        lemma_number(value / 16);
        lemma_digit((value % 16) as int);
        assert(digits.drop_last() =~= hex_number(value / 16));
        assert(digits[0] == hex_number(value / 16)[0]);
    }
}

/// The text of a quantity is a string of hexadecimal digits behind `0x` that stand for the number,
/// with no zero in front but for zero itself.
pub proof fn law_quantity_text_says_the_number(value: nat)
    ensures
        ({
            let text = quantity_text(value);
            let digits = text.subrange(3, text.len() - 1);
            &&& text.len() >= 5
            &&& text[0] == '"' && text[1] == '0' && text[2] == 'x' && text.last() == '"'
            &&& number_of(digits) == Some(value as int)
            &&& digits[0] == '0' ==> value == 0 && digits.len() == 1
        }),
{
    let text = quantity_text(value);
    lemma_number(value);
    assert(text.subrange(3, text.len() - 1) =~= hex_number(value));
    if value == 0 {
        assert(hex_number(0).len() == 1);
    }
}

/// The text of a byte string is a string of two hexadecimal digits for each byte behind `0x`, in
/// order, that stand for that byte.
pub proof fn law_bytes_text_says_the_bytes(bytes: Seq<u8>, i: int)
    ensures
        ({
            let text = bytes_text(bytes);
            &&& text.len() == 2 * bytes.len() + 4
            &&& text[0] == '"' && text[1] == '0' && text[2] == 'x' && text.last() == '"'
            &&& 0 <= i < bytes.len() ==> {
                &&& digit_value(text[3 + 2 * i]) is Some
                &&& digit_value(text[4 + 2 * i]) is Some
                &&& 16 * digit_value(text[3 + 2 * i])->0 + digit_value(text[4 + 2 * i])->0
                    == bytes[i]
            }
        }),
{
    if 0 <= i < bytes.len() {
        let text = bytes_text(bytes);
        let digits = hex_bytes(bytes);
        assert(text[3 + 2 * i] == digits[2 * i]);
        assert(text[4 + 2 * i] == digits[2 * i + 1]);
        assert((2 * i) / 2 == i && (2 * i) % 2 == 0);
        assert((2 * i + 1) / 2 == i && (2 * i + 1) % 2 == 1);
        lemma_digit(bytes[i] as int / 16);
        lemma_digit(bytes[i] as int % 16);
    }
}

} // verus!
