//! The signer: a signing domain fixed at construction, and the builder that
//! turns per-request inputs into the typed-data document.

use vstd::prelude::*;
use vstd::utf8::{encode_utf8, is_ascii_chars};

use crate::address::{
    addr_bytes_of, checksummed_text, format_address, is_addr_text, parse_address, Address,
};
use crate::decimal::{
    canon_dec, dec_to_u64, dec_value, is_canon_dec, is_u256_dec, lemma_canon_dec,
    lemma_dec_value_lower, parse_dec_u256, pow10,
};
use crate::hexchars::hex_string_of;
use crate::json::{escape_json, typed_data_json};
use crate::registry::{chain_supported, registry_contract, resolve};
use crate::subaccount::{
    concat_to_bytes32, default_tag, lemma_subaccount_layout, subaccount_bytes, to_bytes12,
};

verus! {

/// The failures the library reports. Construction can reject the chain id;
/// building typed data can reject the sender, the signer, or the nonce.
/// `InvalidContractAddress` is the defensive kind for a malformed registry
/// entry; the verified registry never produces one.
#[derive(Clone, Copy, Debug, PartialEq, Eq, Structural)]
pub enum SignerError {
    InvalidChainId,
    UnsupportedChain,
    InvalidContractAddress,
    InvalidSenderAddress,
    InvalidSignerAddress,
    InvalidNonce,
}

/// The EIP-712 signing domain: name, version, chain id (kept as its canonical
/// base-10 text), and the verifying contract. Immutable once constructed; the
/// invariant binds the contract to the registry's entry for the chain.
#[derive(Debug)]
pub struct Domain {
    pub name: String,
    pub version: String,
    pub chain_id: String,
    pub verifying_contract: Address,
}

impl Domain {
    /// The chain id is canonical decimal text of a supported chain, and the
    /// verifying contract is exactly the registry's entry for it.
    pub open spec fn wf(&self) -> bool {
        &&& is_canon_dec(self.chain_id@)
        &&& chain_supported(dec_value(self.chain_id@))
        &&& self.verifying_contract.wf()
        &&& self.verifying_contract@ == registry_contract(dec_value(self.chain_id@))
    }
}

/// A signer instance: one domain, fixed at construction, reusable read-only
/// for any number of `get_typed_data` calls.
#[derive(Debug)]
pub struct EIP712Signer {
    pub domain: Domain,
}

/// What `get_typed_data` returns, as a function of the domain and the raw
/// inputs alone: the first failing input decides the error, and on success the
/// document is fully determined.
pub open spec fn typed_data_result(
    d: Domain,
    sender: Seq<char>,
    signer: Seq<char>,
    nonce: Seq<char>,
) -> Result<Seq<char>, SignerError> {
    if !is_addr_text(sender) {
        Err(SignerError::InvalidSenderAddress)
    } else if !is_addr_text(signer) {
        Err(SignerError::InvalidSignerAddress)
    } else if !is_u256_dec(nonce) {
        Err(SignerError::InvalidNonce)
    } else {
        Ok(
            typed_data_json(
                d.name@,
                d.version@,
                d.chain_id@,
                d.verifying_contract@,
                subaccount_bytes(addr_bytes_of(sender), default_tag()),
                addr_bytes_of(signer),
                canon_dec(nonce),
            ),
        )
    }
}

/// Building typed data is pure: `get_typed_data`'s contract equates its result
/// with `typed_data_result`, a function of the domain and the inputs alone, so
/// two calls with identical inputs on one signer yield identical documents.
pub proof fn lemma_build_deterministic(
    d: Domain,
    sender: Seq<char>,
    signer: Seq<char>,
    nonce: Seq<char>,
    o1: Seq<char>,
    o2: Seq<char>,
)
    requires
        typed_data_result(d, sender, signer, nonce) == Ok::<Seq<char>, SignerError>(o1),
        typed_data_result(d, sender, signer, nonce) == Ok::<Seq<char>, SignerError>(o2),
    ensures
        o1 == o2,
{
}

impl EIP712Signer {
    /// The signer is well-formed when its domain is.
    pub open spec fn wf(&self) -> bool {
        self.domain.wf()
    }

    /// Construct a signer. The chain id text must parse as an unsigned 256-bit
    /// decimal integer (else `InvalidChainId`) and denote a supported chain
    /// (else `UnsupportedChain`); the domain then binds the registry's
    /// verifying contract to that chain.
    pub fn new(name: &str, version: &str, chain_id: &str) -> (r: Result<
        EIP712Signer,
        SignerError,
    >)
        ensures
            match r {
                Ok(s) => {
                    &&& is_u256_dec(chain_id@)
                    &&& chain_supported(dec_value(chain_id@))
                    &&& s.wf()
                    &&& s.domain.name@ == name@
                    &&& s.domain.version@ == version@
                    &&& s.domain.chain_id@ == canon_dec(chain_id@)
                    &&& s.domain.verifying_contract@ == registry_contract(dec_value(chain_id@))
                },
                Err(e) => (!is_u256_dec(chain_id@) && e == SignerError::InvalidChainId) || (
                is_u256_dec(chain_id@) && !chain_supported(dec_value(chain_id@)) && e
                    == SignerError::UnsupportedChain),
            },
    {
        let canon = match parse_dec_u256(chain_id) {
            Some(c) => c,
            None => {
                return Err(SignerError::InvalidChainId);
            },
        };
        proof {
            lemma_canon_dec(chain_id@);
        }
        let n = canon.as_str().unicode_len();
        if n > 5 {
            proof {
                lemma_dec_value_lower(canon@);
                assert(pow10(0) == 1);
                assert(pow10(1) == 10);
                assert(pow10(2) == 100);
                assert(pow10(3) == 1000);
                assert(pow10(4) == 10000);
                assert(pow10(5) == 100000);
                crate::decimal::lemma_pow10_mono(5, n - 1);
            }
            return Err(SignerError::UnsupportedChain);
        }
        let v = dec_to_u64(canon.as_str());
        let contract = match resolve(v) {
            Some(a) => a,
            None => {
                return Err(SignerError::UnsupportedChain);
            },
        };
        Ok(
            EIP712Signer {
                domain: Domain {
                    name: String::from_str(name),
                    version: String::from_str(version),
                    chain_id: canon,
                    verifying_contract: contract,
                },
            },
        )
    }

    /// The canonical checksummed text of the bound verifying contract.
    pub fn get_contract_address(&self) -> (r: String)
        requires
            self.wf(),
        ensures
            r@ == checksummed_text(self.domain.verifying_contract@),
    {
        format_address(&self.domain.verifying_contract)
    }

    /// The 32-byte subaccount of an address under the fixed tag `"default"`.
    pub fn create_subaccount(&self, address: &Address) -> (r: Vec<u8>)
        requires
            address.wf(),
        ensures
            r@ == subaccount_bytes(address@, default_tag()),
            r@.len() == 32,
    {
        let tag = to_bytes12("default");
        proof {
            reveal_strlit("default");
            assert(is_ascii_chars("default"@)) by {
                assert forall|i: int|
                    0 <= i < "default"@.len() implies '\0' <= #[trigger] "default"@[i]
                    <= '\u{7f}' by {
                    assert("default"@[i] == 'd' || "default"@[i] == 'e' || "default"@[i] == 'f'
                        || "default"@[i] == 'a' || "default"@[i] == 'u' || "default"@[i] == 'l'
                        || "default"@[i] == 't');
                }
            }
            vstd::utf8::is_ascii_chars_encode_utf8("default"@);
            assert(encode_utf8("default"@) =~= default_tag());
            lemma_subaccount_layout(address@, default_tag());
        }
        concat_to_bytes32(address.as_bytes(), &tag)
    }

    /// Build the typed-data document for a link request. The sender and signer
    /// must be valid address text (`InvalidSenderAddress` /
    /// `InvalidSignerAddress`), the nonce an unsigned 256-bit decimal integer
    /// (`InvalidNonce`); on success the result is exactly
    /// `typed_data_result`'s document.
    pub fn get_typed_data(&self, sender: &str, signer: &str, nonce: &str) -> (r: Result<
        String,
        SignerError,
    >)
        requires
            self.wf(),
        ensures
            match r {
                Ok(out) => typed_data_result(self.domain, sender@, signer@, nonce@)
                    == Ok::<Seq<char>, SignerError>(out@),
                Err(e) => typed_data_result(self.domain, sender@, signer@, nonce@) == Err::<
                    Seq<char>,
                    SignerError,
                >(e),
            },
    {
        let sender_addr = match parse_address(sender) {
            Some(a) => a,
            None => {
                return Err(SignerError::InvalidSenderAddress);
            },
        };
        let signer_addr = match parse_address(signer) {
            Some(a) => a,
            None => {
                return Err(SignerError::InvalidSignerAddress);
            },
        };
        let nonce_canon = match parse_dec_u256(nonce) {
            Some(c) => c,
            None => {
                return Err(SignerError::InvalidNonce);
            },
        };
        let sub = self.create_subaccount(&sender_addr);
        let esc_name = escape_json(self.domain.name.as_str());
        let esc_version = escape_json(self.domain.version.as_str());
        let contract_txt = format_address(&self.domain.verifying_contract);
        let signer_txt = format_address(&signer_addr);
        let sender_hex = hex_string_of(&sub);
        let mut out = String::new();
        out.append(
            "{\"types\":{\"EIP712Domain\":[{\"name\":\"name\",\"type\":\"string\"},{\"name\":\"version\",\"type\":\"string\"},{\"name\":\"chainId\",\"type\":\"uint256\"},{\"name\":\"verifyingContract\",\"type\":\"address\"}],\"LinkSigner\":[{\"name\":\"sender\",\"type\":\"bytes32\"},{\"name\":\"signer\",\"type\":\"address\"},{\"name\":\"nonce\",\"type\":\"uint256\"}]},\"primaryType\":\"LinkSigner\",\"domain\":{\"name\":\"",
        );
        out.append(esc_name.as_str());
        out.append("\",\"version\":\"");
        out.append(esc_version.as_str());
        out.append("\",\"chainId\":\"");
        out.append(self.domain.chain_id.as_str());
        out.append("\",\"verifyingContract\":\"");
        out.append(contract_txt.as_str());
        out.append("\"},\"message\":{\"sender\":\"0x");
        out.append(sender_hex.as_str());
        out.append("\",\"signer\":\"");
        out.append(signer_txt.as_str());
        out.append("\",\"nonce\":\"");
        out.append(nonce_canon.as_str());
        out.append("\"}}");
        proof {
            assert(out@ == typed_data_json(
                self.domain.name@,
                self.domain.version@,
                self.domain.chain_id@,
                self.domain.verifying_contract@,
                subaccount_bytes(addr_bytes_of(sender@), default_tag()),
                addr_bytes_of(signer@),
                canon_dec(nonce@),
            ));
        }
        Ok(out)
    }
}

} // verus!
