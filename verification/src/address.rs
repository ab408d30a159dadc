//! Parsing and checksummed rendering of 20-byte account addresses.

use vstd::prelude::*;

use crate::ext::{keccak256, keccak256_of, push_char};
use crate::hexchars::{
    hex_char_lower, hex_char_of, hex_char_upper, hex_char_upper_of, hex_digit_val,
    hex_digit_value, hex_lower_bytes, hex_lower_of, is_hex_digit, nibble_of,
};

verus! {

/// A 20-byte account address. Equality is byte-wise; the canonical text form
/// is the mixed-case checksummed rendering of `format_address`.
#[derive(Debug)]
pub struct Address {
    bytes: Vec<u8>,
}

impl View for Address {
    type V = Seq<u8>;

    closed spec fn view(&self) -> Seq<u8> {
        self.bytes@
    }
}

impl Address {
    /// An address always holds exactly 20 bytes.
    pub open spec fn wf(&self) -> bool {
        self@.len() == 20
    }

    /// An address from its 20 raw bytes.
    pub fn from_bytes(bytes: Vec<u8>) -> (r: Address)
        requires
            bytes@.len() == 20,
        ensures
            r.wf() && r@ == bytes@,
    {
        Address { bytes }
    }

    /// The raw bytes of the address.
    pub fn as_bytes(&self) -> (r: &Vec<u8>)
        ensures
            r@ == self@,
    {
        &self.bytes
    }
}

/// Valid address text: `0x` followed by exactly 40 hex digits of either case.
pub open spec fn is_addr_text(s: Seq<char>) -> bool {
    &&& s.len() == 42
    &&& s[0] == '0'
    &&& s[1] == 'x'
    &&& forall|i: int| 2 <= i < 42 ==> is_hex_digit(#[trigger] s[i])
}

/// The `j`-th byte encoded by valid address text.
pub open spec fn addr_byte_of(s: Seq<char>, j: int) -> u8 {
    (hex_digit_val(s[2 + 2 * j]) * 16 + hex_digit_val(s[3 + 2 * j])) as u8
}

/// The 20 bytes encoded by valid address text.
pub open spec fn addr_bytes_of(s: Seq<char>) -> Seq<u8> {
    Seq::new(20, |j: int| addr_byte_of(s, j))
}

/// A byte is its high nibble times 16 plus its low nibble.
proof fn lemma_byte_nibbles(x: u8)
    ensures
        x >> 4u8 < 16,
        x & 0x0fu8 < 16,
        (x >> 4u8) * 16 + (x & 0x0fu8) == x,
{
    assert(x >> 4u8 < 16 && x & 0x0fu8 < 16 && (x >> 4u8) * 16 + (x & 0x0fu8) == x)
        by (bit_vector);
}

/// Parse address text. Accepts exactly a `0x` prefix and 40 hex digits of
/// either case; rejects everything else.
pub fn parse_address(s: &str) -> (r: Option<Address>)
    ensures
        r is Some <==> is_addr_text(s@),
        r matches Some(a) ==> a.wf() && a@ == addr_bytes_of(s@),
{
    let n = s.unicode_len();
    if n != 42 {
        return None;
    }
    if s.get_char(0) != '0' || s.get_char(1) != 'x' {
        return None;
    }
    let mut bytes: Vec<u8> = Vec::new();
    let mut j: usize = 0;
    while j < 20
        invariant
            s@.len() == 42,
            s@[0] == '0',
            s@[1] == 'x',
            j <= 20,
            bytes@.len() == j,
            forall|k: int| 2 <= k < 2 + 2 * j ==> is_hex_digit(#[trigger] s@[k]),
            forall|k: int| 0 <= k < j ==> bytes@[k] == addr_byte_of(s@, k),
        decreases 20 - j,
    {
        let hi = match hex_digit_value(s.get_char(2 + 2 * j)) {
            Some(v) => v,
            None => {
                return None;
            },
        };
        let lo = match hex_digit_value(s.get_char(3 + 2 * j)) {
            Some(v) => v,
            None => {
                return None;
            },
        };
        bytes.push(hi * 16 + lo);
        j = j + 1;
    }
    proof {
        assert(bytes@ =~= addr_bytes_of(s@));
    }
    Some(Address { bytes })
}

/// The 40 hex digits of an address with checksum casing applied: a letter is
/// upper-cased exactly when the matching nibble of the Keccak-256 digest of
/// the lowercase hex text is at least 8.
pub open spec fn checksummed_hex(addr: Seq<u8>) -> Seq<char> {
    Seq::new(
        addr.len() * 2,
        |i: int|
            {
                let n = nibble_of(addr, i);
                if n >= 10 && nibble_of(keccak256_of(hex_lower_bytes(addr)), i) >= 8 {
                    hex_char_upper(n)
                } else {
                    hex_char_lower(n)
                }
            },
    )
}

/// The canonical text form of an address: `0x` plus the checksummed digits.
pub open spec fn checksummed_text(addr: Seq<u8>) -> Seq<char> {
    seq!['0', 'x'] + checksummed_hex(addr)
}

/// Render an address in its canonical mixed-case checksummed text form.
pub fn format_address(a: &Address) -> (r: String)
    requires
        a.wf(),
    ensures
        r@ == checksummed_text(a@),
{
    let hex = hex_lower_of(&a.bytes);
    let hash = keccak256(&hex);
    let mut out = String::new();
    out.append("0x");
    proof {
        reveal_strlit("0x");
        assert(out@ =~= seq!['0', 'x']);
        assert(out@ =~= seq!['0', 'x'] + checksummed_hex(a@).take(0));
    }
    let mut i: usize = 0;
    while i < 40
        invariant
            a.wf(),
            hash@ == keccak256_of(hex_lower_bytes(a@)),
            hash@.len() == 32,
            i <= 40,
            out@ == seq!['0', 'x'] + checksummed_hex(a@).take(i as int),
        decreases 40 - i,
    {
        let b = a.bytes[i / 2];
        let hb = hash[i / 2];
        proof {
            lemma_byte_nibbles(b);
            lemma_byte_nibbles(hb);
        }
        let n: u8 = if i % 2 == 0 {
            b >> 4
        } else {
            b & 0x0f
        };
        let h: u8 = if i % 2 == 0 {
            hb >> 4
        } else {
            hb & 0x0f
        };
        let c = if n >= 10 && h >= 8 {
            hex_char_upper_of(n)
        } else {
            hex_char_of(n)
        };
        proof {
            assert(nibble_of(a@, i as int) == n);
            assert(nibble_of(keccak256_of(hex_lower_bytes(a@)), i as int) == h);
            assert(checksummed_hex(a@)[i as int] == c);
        }
        push_char(&mut out, c);
        i = i + 1;
        proof {
            assert(out@ =~= seq!['0', 'x'] + checksummed_hex(a@).take(i as int));
        }
    }
    proof {
        assert(checksummed_hex(a@).take(40) =~= checksummed_hex(a@));
        assert(out@ =~= checksummed_text(a@));
    }
    out
}

/// Parsing the checksummed rendering of an address yields the address again:
/// checksum casing changes letter case only, never a digit's value. Together
/// with the exact contracts of `parse_address` and `format_address` this gives
/// the round trip `parse(format(a)) == a`, and that repeated formatting of one
/// address always yields the identical string.
pub proof fn lemma_parse_format_roundtrip(addr: Seq<u8>)
    requires
        addr.len() == 20,
    ensures
        is_addr_text(checksummed_text(addr)),
        addr_bytes_of(checksummed_text(addr)) == addr,
{
    let s = checksummed_text(addr);
    assert forall|i: int| 2 <= i < 42 implies is_hex_digit(#[trigger] s[i]) && hex_digit_val(s[i])
        == nibble_of(addr, i - 2) by {
        lemma_byte_nibbles(addr[(i - 2) / 2]);
        let n = nibble_of(addr, i - 2);
        assert(s[i] == checksummed_hex(addr)[i - 2]);
        assert(s[i] == hex_char_lower(n) || s[i] == hex_char_upper(n));
    }
    assert(is_addr_text(s));
    assert forall|j: int| 0 <= j < 20 implies addr_bytes_of(s)[j] == addr[j] by {
        lemma_byte_nibbles(addr[j]);
        assert(hex_digit_val(s[2 + 2 * j]) == nibble_of(addr, 2 * j));
        assert(hex_digit_val(s[3 + 2 * j]) == nibble_of(addr, 2 * j + 1));
        assert(nibble_of(addr, 2 * j) == addr[j] >> 4u8);
        assert(nibble_of(addr, 2 * j + 1) == addr[j] & 0x0fu8);
    }
    assert(addr_bytes_of(s) =~= addr);
}

} // verus!
