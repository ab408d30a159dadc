//! Builds the EIP-712 typed-data document that authorizes linking a signer key
//! to a subaccount of a sender address on a supported chain. The library
//! parses and checksums addresses, derives subaccount identifiers, resolves
//! the verifying contract for a chain, and renders the canonical JSON payload;
//! it does not sign anything.

pub mod address;
pub mod decimal;
pub mod ext;
pub mod hexchars;
pub mod json;
pub mod registry;
pub mod signer;
pub mod subaccount;

pub use crate::address::Address;
pub use crate::signer::{Domain, EIP712Signer, SignerError};
