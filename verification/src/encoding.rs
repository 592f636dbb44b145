//! Hexadecimal text.

use vstd::prelude::*;
use vstd::string::*;

verus! {

/// The lower-case hexadecimal digit of a number below sixteen.
pub open spec fn hex_digit(n: int) -> char {
    if n < 10 {
        (48 + n) as char
    } else {
        (87 + n) as char
    }
}

/// Two lower-case hexadecimal digits for each byte, the high one first.
pub open spec fn hex_text(bytes: Seq<u8>) -> Seq<char> {
    Seq::new(
        2 * bytes.len(),
        |i: int|
            if i % 2 == 0 {
                hex_digit(bytes[i / 2] as int / 16)
            } else {
                hex_digit(bytes[i / 2] as int % 16)
            },
    )
}

/// Whether a character is a hexadecimal digit, of either case.
pub open spec fn is_hex_digit(c: char) -> bool {
    ('0' <= c && c <= '9') || ('a' <= c && c <= 'f') || ('A' <= c && c <= 'F')
}

/// The number a hexadecimal digit stands for.
pub open spec fn hex_value(c: char) -> int {
    if '0' <= c && c <= '9' {
        c as int - 48
    } else if 'a' <= c && c <= 'f' {
        c as int - 87
    } else {
        c as int - 55
    }
}

/// Whether a text is an even number of hexadecimal digits.
pub open spec fn is_hex(text: Seq<char>) -> bool {
    &&& text.len() % 2 == 0
    &&& forall|i: int| 0 <= i < text.len() ==> is_hex_digit(#[trigger] text[i])
}

/// The bytes that a hexadecimal text stands for.
pub open spec fn hex_bytes(text: Seq<char>) -> Seq<u8> {
    Seq::new(
        text.len() / 2,
        |i: int| (16 * hex_value(text[2 * i]) + hex_value(text[2 * i + 1])) as u8,
    )
}

/// Whether a text is the hexadecimal form of 32 bytes, in digits of either case.
pub open spec fn is_hash_text(text: Seq<char>) -> bool {
    is_hex(text) && text.len() == 64
}

/// Encodes 32 bytes as lower-case hexadecimal text.
///
/// `cdk_common::util::hex::encode` is trusted to write two lower-case digits
/// for each byte, the high one first.
#[verifier::external_body]
pub(crate) fn hex_encode(bytes: &[u8; 32]) -> (text: String)
    ensures
        text@ == hex_text(bytes@),
{
    cdk_common::util::hex::encode(bytes)
}

/// Decodes hexadecimal text.
///
/// `cdk_common::util::hex::decode` is trusted to accept exactly the texts that
/// are an even number of hexadecimal digits of either case, and to return the
/// bytes they stand for. Which error it reports on other texts is left unsaid.
#[verifier::external_body]
pub(crate) fn hex_decode(text: &str) -> (bytes: Option<Vec<u8>>)
    ensures
        match bytes {
            Some(bytes) => is_hex(text@) && bytes@ == hex_bytes(text@),
            None => !is_hex(text@),
        },
{
    cdk_common::util::hex::decode(text).ok()
}

/// Encodes a payment preimage as lower-case hexadecimal text.
///
/// `hex::encode` is trusted to write two lower-case digits for each byte, the
/// high one first.
#[verifier::external_body]
pub(crate) fn preimage_hex(bytes: &[u8; 32]) -> (text: String)
    ensures
        text@ == hex_text(bytes@),
{
    hex::encode(bytes)
}

/// 32 bytes as an array, where there are exactly 32.
pub fn to_array(bytes: &Vec<u8>) -> (res: Option<[u8; 32]>)
    ensures
        match res {
            Some(array) => bytes@.len() == 32 && array@ == bytes@,
            None => bytes@.len() != 32,
        },
{
    if bytes.len() != 32 {
        return None;
    }
    let mut array: [u8; 32] = [0; 32];
    let mut i: usize = 0;
    while i < 32
        invariant
            i <= 32,
            bytes@.len() == 32,
            forall|j: int| 0 <= j < i ==> array@[j] == bytes@[j],
        decreases 32 - i,
    {
        array[i] = bytes[i];
        i = i + 1;
    }
    assert(array@ =~= bytes@);
    Some(array)
}

/// The array with the given bytes.
pub open spec fn array_of(bytes: Seq<u8>) -> [u8; 32] {
    choose|array: [u8; 32]| #[trigger] array@ == bytes
}

/// An array is the array of its own bytes.
pub proof fn lemma_array_of(array: [u8; 32])
    ensures
        array_of(array@) == array,
{
    let other = array_of(array@);
    assert(other@ == array@);
    assert forall|i: int| 0 <= i < 32 implies other[i] == array[i] by {
        assert(other@[i] == array@[i]);
    }
    assert(other =~= array);
}

/// Whether two hashes are the same.
pub fn same_hash(a: &[u8; 32], b: &[u8; 32]) -> (res: bool)
    ensures
        res == (*a == *b),
{
    let mut i: usize = 0;
    while i < 32
        invariant
            i <= 32,
            forall|j: int| 0 <= j < i ==> a@[j] == b@[j],
        decreases 32 - i,
    {
        if a[i] != b[i] {
            assert(a@[i as int] != b@[i as int]);
            return false;
        }
        i = i + 1;
    }
    assert(*a =~= *b);
    true
}

/// Decoding an encoded hash gives the hash back.
pub proof fn hex_round_trip(bytes: Seq<u8>)
    ensures
        is_hex(hex_text(bytes)),
        hex_bytes(hex_text(bytes)) == bytes,
{
    let text = hex_text(bytes);
    assert forall|i: int| 0 <= i < text.len() implies is_hex_digit(#[trigger] text[i]) by {
        lemma_digit(bytes[i / 2] as int / 16);
        lemma_digit(bytes[i / 2] as int % 16);
    }
    assert(hex_bytes(text) =~= bytes) by {
        assert forall|i: int| 0 <= i < bytes.len() implies hex_bytes(text)[i] == bytes[i] by {
            lemma_digit(bytes[i] as int / 16);
            lemma_digit(bytes[i] as int % 16);
            assert(text[2 * i] == hex_digit(bytes[i] as int / 16));
            assert((2 * i + 1) / 2 == i);
            assert(text[2 * i + 1] == hex_digit(bytes[i] as int % 16));
        }
    }
}

/// Hexadecimal text stands for the same bytes whatever the case of its digits.
pub proof fn hex_ignores_case(text: Seq<char>)
    ensures
        is_hex(crate::text::lower(text)) == is_hex(text),
        is_hex(text) ==> hex_bytes(crate::text::lower(text)) == hex_bytes(text),
{
    let lowered = crate::text::lower(text);
    assert forall|i: int| 0 <= i < text.len() implies is_hex_digit(lowered[i]) == is_hex_digit(
        #[trigger] text[i],
    ) && (is_hex_digit(text[i]) ==> hex_value(lowered[i]) == hex_value(text[i])) by {
        lemma_lower_digit(text[i]);
    }
    if is_hex(text) {
        assert(is_hex(lowered));
        assert(hex_bytes(lowered) =~= hex_bytes(text));
    }
    if is_hex(lowered) {
        assert forall|i: int| 0 <= i < text.len() implies is_hex_digit(#[trigger] text[i]) by {
            assert(is_hex_digit(lowered[i]));
        }
    }
}

proof fn lemma_lower_digit(c: char)
    ensures
        is_hex_digit(crate::text::lower_char(c)) == is_hex_digit(c),
        is_hex_digit(c) ==> hex_value(crate::text::lower_char(c)) == hex_value(c),
{
}

proof fn lemma_digit(n: int)
    requires
        0 <= n < 16,
    ensures
        is_hex_digit(hex_digit(n)),
        hex_value(hex_digit(n)) == n,
        crate::text::lower_char(hex_digit(n)) == hex_digit(n),
        !crate::text::is_space(hex_digit(n)),
{
}

/// The text of an encoded hash is its own lower-case, trimmed form.
pub proof fn lemma_hex_text_is_normal(bytes: Seq<u8>)
    ensures
        crate::text::lower(hex_text(bytes)) == hex_text(bytes),
        crate::text::trimmed(hex_text(bytes)) == hex_text(bytes),
{
    let text = hex_text(bytes);
    assert forall|i: int| 0 <= i < text.len() implies crate::text::lower_char(#[trigger] text[i])
        == text[i] && !crate::text::is_space(text[i]) by {
        lemma_digit(bytes[i / 2] as int / 16);
        lemma_digit(bytes[i / 2] as int % 16);
    }
    assert(crate::text::lower(text) =~= text);
    assert(crate::text::trim_start_of(text) == text);
    assert(crate::text::trim_end_of(text) == text);
}

} // verus!
