//! What hexadecimal text stands for, digit by digit.

use vstd::prelude::*;

use crate::encoding::{
    hex_bytes, hex_digit, hex_text, hex_value, is_hash_text, is_hex, is_hex_digit, same_hash,
    to_array,
};

verus! {

/// Whether a character is a hexadecimal digit with some value: a decimal digit, or a
/// letter from A to F of either case.
pub open spec fn has_value(c: char, value: int) -> bool {
    let code = c as u32;
    ||| 0 <= value <= 9 && code == 48 + value
    ||| 10 <= value <= 15 && (code == 97 + (value - 10) || code == 65 + (value - 10))
}

/// Exactly the sixteen digits, the letters among them in either case, are
/// hexadecimal, and a value is written in lower case.
pub proof fn digits_have_their_values(c: char, value: int)
    ensures
        is_hex_digit(c) <==> exists|v: int| #[trigger] has_value(c, v),
        is_hex_digit(c) ==> has_value(c, hex_value(c)),
        has_value(c, value) ==> hex_value(c) == value,
        0 <= value <= 15 ==> has_value(hex_digit(value), value) && !(65 <= hex_digit(value) as u32
            <= 90),
{
    if is_hex_digit(c) {
        assert(has_value(c, hex_value(c)));
    }
}

/// A text stands for bytes where it has two digits for each, the high one first, and
/// bytes are written in the same way.
pub proof fn bytes_have_two_digits_each(text: Seq<char>, bytes: Seq<u8>, i: int)
    ensures
        is_hex(text) <==> text.len() % 2 == 0 && forall|j: int|
            0 <= j < text.len() ==> is_hex_digit(#[trigger] text[j]),
        is_hash_text(text) <==> is_hex(text) && text.len() == 64,
        2 * hex_bytes(text).len() <= text.len() < 2 * hex_bytes(text).len() + 2,
        is_hex(text) && 0 <= 2 * i < text.len() ==> hex_bytes(text)[i] == 16 * hex_value(
            text[2 * i],
        ) + hex_value(text[2 * i + 1]),
        hex_text(bytes).len() == 2 * bytes.len(),
        0 <= i < bytes.len() ==> has_value(hex_text(bytes)[2 * i], bytes[i] as int / 16)
            && has_value(hex_text(bytes)[2 * i + 1], bytes[i] as int % 16),
{
    if is_hex(text) && 0 <= 2 * i < text.len() {
        let high = text[2 * i];
        let low = text[2 * i + 1];
        digits_have_their_values(high, hex_value(high));
        digits_have_their_values(low, hex_value(low));
        assert(0 <= 16 * hex_value(high) + hex_value(low) <= 255);
    }
    if 0 <= i < bytes.len() {
        let byte = bytes[i] as int;
        digits_have_their_values(hex_digit(byte / 16), byte / 16);
        digits_have_their_values(hex_digit(byte % 16), byte % 16);
        assert((2 * i) / 2 == i && (2 * i + 1) / 2 == i);
        assert((2 * i) % 2 == 0 && (2 * i + 1) % 2 == 1);
    }
}

/// An array is made of exactly 32 bytes, and two are the same where all their bytes
/// are.
pub proof fn arrays_hold_their_bytes(
    bytes: Vec<u8>,
    array: Option<[u8; 32]>,
    a: [u8; 32],
    b: [u8; 32],
    same: bool,
)
    requires
        call_ensures(to_array, (&bytes,), array),
        call_ensures(same_hash, (&a, &b), same),
    ensures
        match array {
            Some(array) => bytes@.len() == 32 && array@ == bytes@,
            None => bytes@.len() != 32,
        },
        same <==> forall|i: int| 0 <= i < 32 ==> #[trigger] a@[i] == b@[i],
{
    if forall|i: int| 0 <= i < 32 ==> #[trigger] a@[i] == b@[i] {
        assert(a@ =~= b@);
        assert(a =~= b);
    }
}

} // verus!
