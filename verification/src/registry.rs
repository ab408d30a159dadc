//! The closed table binding each supported chain to its verifying contract.

use vstd::prelude::*;

use crate::address::Address;

verus! {

/// The chain identifiers the registry knows.
pub open spec fn chain_supported(v: int) -> bool {
    v == 42161 || v == 81457 || v == 5000
}

/// The verifying contract bound to a supported chain.
pub open spec fn registry_contract(v: int) -> Seq<u8> {
    if v == 42161 {
        seq![
            0xbbu8, 0xee, 0x07, 0xb3, 0xe8, 0x12, 0x12, 0x27, 0xaf, 0xcf, 0xe1, 0xe2, 0xb8,
            0x27, 0x72, 0x24, 0x62, 0x26, 0x12, 0x8e,
        ]
    } else if v == 81457 {
        seq![
            0x00u8, 0xf0, 0x76, 0xfe, 0x36, 0xf2, 0x34, 0x1a, 0x10, 0x54, 0xb1, 0x6a, 0xe0,
            0x5f, 0xce, 0x0c, 0x65, 0x18, 0x0d, 0xed,
        ]
    } else if v == 5000 {
        seq![
            0x52u8, 0x6d, 0x7c, 0x7e, 0xa3, 0x67, 0x7e, 0xff, 0x28, 0xcb, 0x5b, 0xa4, 0x57,
            0xf9, 0xd3, 0x41, 0xf2, 0x97, 0xfd, 0x52,
        ]
    } else {
        Seq::empty()
    }
}

/// Look a chain id up in the registry. Exactly the three supported chains
/// resolve; every other value is rejected.
pub fn resolve(chain: u64) -> (r: Option<Address>)
    ensures
        r is Some <==> chain_supported(chain as int),
        r matches Some(a) ==> a.wf() && a@ == registry_contract(chain as int),
{
    let mut bytes: Vec<u8> = Vec::new();
    if chain == 42161 {
        bytes.push(0xbb);
        bytes.push(0xee);
        bytes.push(0x07);
        bytes.push(0xb3);
        bytes.push(0xe8);
        bytes.push(0x12);
        bytes.push(0x12);
        bytes.push(0x27);
        bytes.push(0xaf);
        bytes.push(0xcf);
        bytes.push(0xe1);
        bytes.push(0xe2);
        bytes.push(0xb8);
        bytes.push(0x27);
        bytes.push(0x72);
        bytes.push(0x24);
        bytes.push(0x62);
        bytes.push(0x26);
        bytes.push(0x12);
        bytes.push(0x8e);
        proof {
            assert(bytes@ =~= registry_contract(chain as int));
        }
        Some(Address::from_bytes(bytes))
    } else if chain == 81457 {
        bytes.push(0x00);
        bytes.push(0xf0);
        bytes.push(0x76);
        bytes.push(0xfe);
        bytes.push(0x36);
        bytes.push(0xf2);
        bytes.push(0x34);
        bytes.push(0x1a);
        bytes.push(0x10);
        bytes.push(0x54);
        bytes.push(0xb1);
        bytes.push(0x6a);
        bytes.push(0xe0);
        bytes.push(0x5f);
        bytes.push(0xce);
        bytes.push(0x0c);
        bytes.push(0x65);
        bytes.push(0x18);
        bytes.push(0x0d);
        bytes.push(0xed);
        proof {
            assert(bytes@ =~= registry_contract(chain as int));
        }
        Some(Address::from_bytes(bytes))
    } else if chain == 5000 {
        bytes.push(0x52);
        bytes.push(0x6d);
        bytes.push(0x7c);
        bytes.push(0x7e);
        bytes.push(0xa3);
        bytes.push(0x67);
        bytes.push(0x7e);
        bytes.push(0xff);
        bytes.push(0x28);
        bytes.push(0xcb);
        bytes.push(0x5b);
        bytes.push(0xa4);
        bytes.push(0x57);
        bytes.push(0xf9);
        bytes.push(0xd3);
        bytes.push(0x41);
        bytes.push(0xf2);
        bytes.push(0x97);
        bytes.push(0xfd);
        bytes.push(0x52);
        proof {
            assert(bytes@ =~= registry_contract(chain as int));
        }
        Some(Address::from_bytes(bytes))
    } else {
        None
    }
}

} // verus!
