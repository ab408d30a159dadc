use vstd::prelude::*;

use crate::ext::push_char;

verus! {

/// ASCII byte of the lowercase hex digit for a nibble value (`0..=9` -> '0'..'9',
/// `10..=15` -> 'a'..'f').
pub open spec fn hex_digit_byte(n: u8) -> u8
    recommends
        n < 16,
{
    if n < 10 {
        (48 + n) as u8
    } else {
        (87 + n) as u8
    }
}

/// ASCII byte of the uppercase hex digit for a nibble value.
pub open spec fn hex_digit_byte_upper(n: u8) -> u8
    recommends
        n < 16,
{
    if n < 10 {
        (48 + n) as u8
    } else {
        (55 + n) as u8
    }
}

/// Lowercase hex digit for a nibble value, as a character.
pub open spec fn hex_char_lower(n: u8) -> char {
    hex_digit_byte(n) as char
}

/// Uppercase hex digit for a nibble value, as a character.
pub open spec fn hex_char_upper(n: u8) -> char {
    hex_digit_byte_upper(n) as char
}

/// A character that is a hex digit in either case.
pub open spec fn is_hex_digit(c: char) -> bool {
    (48 <= c as u32 && c as u32 <= 57) || (97 <= c as u32 && c as u32 <= 102) || (65 <= c as u32
        && c as u32 <= 70)
}

/// Numeric value of a hex digit character.
pub open spec fn hex_digit_val(c: char) -> u8
    recommends
        is_hex_digit(c),
{
    if 48 <= c as u32 && c as u32 <= 57 {
        (c as u32 - 48) as u8
    } else if 97 <= c as u32 && c as u32 <= 102 {
        (c as u32 - 87) as u8
    } else {
        (c as u32 - 55) as u8
    }
}

/// The `i`-th nibble of a byte sequence read in big-endian digit order: even
/// positions are high nibbles, odd positions low nibbles.
pub open spec fn nibble_of(bytes: Seq<u8>, i: int) -> u8 {
    if i % 2 == 0 {
        bytes[i / 2] >> 4u8
    } else {
        bytes[i / 2] & 0x0fu8
    }
}

/// Lowercase hex encoding of a byte sequence, as ASCII bytes.
pub open spec fn hex_lower_bytes(bytes: Seq<u8>) -> Seq<u8> {
    Seq::new(bytes.len() * 2, |i: int| hex_digit_byte(nibble_of(bytes, i)))
}

/// Lowercase hex encoding of a byte sequence, as characters.
pub open spec fn hex_lower_chars(bytes: Seq<u8>) -> Seq<char> {
    Seq::new(bytes.len() * 2, |i: int| hex_char_lower(nibble_of(bytes, i)))
}

/// Classify a hex digit character and return its numeric value.
pub fn hex_digit_value(c: char) -> (r: Option<u8>)
    ensures
        is_hex_digit(c) ==> r == Some(hex_digit_val(c)) && hex_digit_val(c) < 16,
        !is_hex_digit(c) ==> r is None,
{
    let u = c as u32;
    if 48 <= u && u <= 57 {
        Some((u - 48) as u8)
    } else if 97 <= u && u <= 102 {
        Some((u - 87) as u8)
    } else if 65 <= u && u <= 70 {
        Some((u - 55) as u8)
    } else {
        None
    }
}

/// Lowercase hex digit character for a nibble value.
pub fn hex_char_of(n: u8) -> (c: char)
    requires
        n < 16,
    ensures
        c == hex_char_lower(n),
{
    let b: u8 = if n < 10 {
        48 + n
    } else {
        87 + n
    };
    b as char
}

/// Uppercase hex digit character for a nibble value.
pub fn hex_char_upper_of(n: u8) -> (c: char)
    requires
        n < 16,
    ensures
        c == hex_char_upper(n),
{
    let b: u8 = if n < 10 {
        48 + n
    } else {
        55 + n
    };
    b as char
}

/// Lowercase hex encoding of a byte vector, as ASCII bytes.
pub fn hex_lower_of(bytes: &Vec<u8>) -> (r: Vec<u8>)
    requires
        bytes@.len() * 2 <= usize::MAX,
    ensures
        r@ == hex_lower_bytes(bytes@),
{
    let mut r: Vec<u8> = Vec::new();
    let mut i: usize = 0;
    while i < bytes.len()
        invariant
            i <= bytes@.len(),
            bytes@.len() * 2 <= usize::MAX,
            r@.len() == 2 * i,
            forall|j: int| 0 <= j < 2 * i ==> r@[j] == hex_lower_bytes(bytes@)[j],
        decreases bytes@.len() - i,
    {
        let b = bytes[i];
        assert(b >> 4u8 < 16 && b & 0x0fu8 < 16) by (bit_vector);
        let hi: u8 = b >> 4;
        let lo: u8 = b & 0x0f;
        r.push(if hi < 10 {
            48 + hi
        } else {
            87 + hi
        });
        r.push(if lo < 10 {
            48 + lo
        } else {
            87 + lo
        });
        assert(nibble_of(bytes@, 2 * i as int) == hi);
        assert(nibble_of(bytes@, 2 * i as int + 1) == lo);
        i = i + 1;
    }
    assert(r@ =~= hex_lower_bytes(bytes@));
    r
}

/// Lowercase hex encoding of a byte vector, as a string.
pub fn hex_string_of(bytes: &Vec<u8>) -> (r: String)
    requires
        bytes@.len() * 2 <= usize::MAX,
    ensures
        r@ == hex_lower_chars(bytes@),
{
    let mut r = String::new();
    let mut i: usize = 0;
    while i < bytes.len()
        invariant
            i <= bytes@.len(),
            bytes@.len() * 2 <= usize::MAX,
            r@.len() == 2 * i,
            forall|j: int| 0 <= j < 2 * i ==> r@[j] == hex_lower_chars(bytes@)[j],
        decreases bytes@.len() - i,
    {
        let b = bytes[i];
        assert(b >> 4u8 < 16 && b & 0x0fu8 < 16) by (bit_vector);
        let hi: u8 = b >> 4;
        let lo: u8 = b & 0x0f;
        push_char(&mut r, hex_char_of(hi));
        push_char(&mut r, hex_char_of(lo));
        assert(nibble_of(bytes@, 2 * i as int) == hi);
        assert(nibble_of(bytes@, 2 * i as int + 1) == lo);
        i = i + 1;
    }
    assert(r@ =~= hex_lower_chars(bytes@));
    r
}

} // verus!
