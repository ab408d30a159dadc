//! Deriving the 32-byte subaccount identifier from an address and a name tag.

use vstd::prelude::*;
use vstd::utf8::encode_utf8;

verus! {

/// A tag fitted to 12 bytes: truncated when longer, right-padded with zero
/// bytes when shorter.
pub open spec fn pad12(tag: Seq<u8>) -> Seq<u8> {
    if tag.len() >= 12 {
        tag.take(12)
    } else {
        tag + Seq::new((12 - tag.len()) as nat, |i: int| 0u8)
    }
}

/// A subaccount identifier: the 20 address bytes followed by the 12 tag bytes.
pub open spec fn subaccount_bytes(addr: Seq<u8>, tag: Seq<u8>) -> Seq<u8> {
    addr + pad12(tag)
}

/// The ASCII bytes of the fixed subaccount name tag `"default"`.
pub open spec fn default_tag() -> Seq<u8> {
    seq![0x64u8, 0x65, 0x66, 0x61, 0x75, 0x6c, 0x74]
}

/// Encode a tag as raw bytes and fit it to 12 bytes.
pub fn to_bytes12(s: &str) -> (r: Vec<u8>)
    ensures
        r@ == pad12(encode_utf8(s@)),
        r@.len() == 12,
{
    let bytes = s.as_bytes_vec();
    let mut r: Vec<u8> = Vec::new();
    let m: usize = if bytes.len() < 12 {
        bytes.len()
    } else {
        12
    };
    let mut i: usize = 0;
    while i < m
        invariant
            i <= m,
            m <= bytes@.len(),
            m <= 12,
            bytes@ == encode_utf8(s@),
            r@ =~= bytes@.take(i as int),
        decreases m - i,
    {
        r.push(bytes[i]);
        i = i + 1;
    }
    while i < 12
        invariant
            m <= i <= 12,
            m <= bytes@.len(),
            m == if bytes@.len() < 12 {
                bytes@.len() as int
            } else {
                12
            },
            bytes@ == encode_utf8(s@),
            r@.len() == i,
            r@.take(m as int) =~= bytes@.take(m as int),
            forall|k: int| m <= k < i ==> r@[k] == 0u8,
        decreases 12 - i,
    {
        r.push(0);
        i = i + 1;
    }
    proof {
        assert forall|k: int| 0 <= k < m implies r@[k] == bytes@[k] by {
            assert(r@.take(m as int)[k] == bytes@.take(m as int)[k]);
        }
        assert(r@ =~= pad12(encode_utf8(s@)));
    }
    r
}

/// Concatenate the 20 address bytes and the 12 tag bytes.
pub fn concat_to_bytes32(address: &Vec<u8>, name: &Vec<u8>) -> (r: Vec<u8>)
    requires
        address@.len() == 20,
        name@.len() == 12,
    ensures
        r@ == address@ + name@,
        r@.len() == 32,
{
    let mut r: Vec<u8> = Vec::new();
    let mut i: usize = 0;
    while i < 20
        invariant
            address@.len() == 20,
            i <= 20,
            r@ =~= address@.take(i as int),
        decreases 20 - i,
    {
        r.push(address[i]);
        i = i + 1;
    }
    let mut j: usize = 0;
    while j < 12
        invariant
            address@.len() == 20,
            name@.len() == 12,
            j <= 12,
            r@ =~= address@ + name@.take(j as int),
        decreases 12 - j,
    {
        r.push(name[j]);
        j = j + 1;
    }
    proof {
        assert(r@ =~= address@ + name@);
    }
    r
}

/// A subaccount identifier is 32 bytes: its first 20 bytes are exactly the
/// address, and its last 12 bytes are exactly the tag fitted to 12 bytes
/// (truncated past 12 bytes, right-padded with zero bytes below 12).
pub proof fn lemma_subaccount_layout(addr: Seq<u8>, tag: Seq<u8>)
    requires
        addr.len() == 20,
    ensures
        subaccount_bytes(addr, tag).len() == 32,
        subaccount_bytes(addr, tag).take(20) == addr,
        subaccount_bytes(addr, tag).skip(20) == pad12(tag),
        pad12(tag).len() == 12,
{
    assert(subaccount_bytes(addr, tag).take(20) =~= addr);
    assert(subaccount_bytes(addr, tag).skip(20) =~= pad12(tag));
}

/// The fixed tag `"default"` fitted to 12 bytes: its seven ASCII bytes
/// followed by five zero bytes.
pub proof fn lemma_default_tag_padded()
    ensures
        pad12(default_tag()) == seq![
            0x64u8, 0x65, 0x66, 0x61, 0x75, 0x6c, 0x74, 0, 0, 0, 0, 0,
        ],
{
    assert(pad12(default_tag()) =~= seq![0x64u8, 0x65, 0x66, 0x61, 0x75, 0x6c, 0x74, 0, 0, 0, 0, 0]);
}

} // verus!
