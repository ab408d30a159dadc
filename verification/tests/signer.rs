use eip712_signer::{EIP712Signer, SignerError};
use eip712_signer::address::{format_address, parse_address};

// Reference vectors from the checksummed-address standard: formatting the
// lowercase form must reproduce the exact mixed case.
#[test]
fn checksum_reference_vectors() {
    let vectors = [
        "0x5aAeb6053F3E94C9b9A09f33669435E7Ef1BeAed",
        "0xfB6916095ca1df60bB79Ce92cE3Ea74c37c5d359",
        "0xdbF03B407c01E7cD3CBea99509d93f8DDDC8C6FB",
        "0xD1220A0cf47c7B9Be7A2E6BA89F429762e7b9aDb",
    ];
    for v in vectors {
        let a = parse_address(&v.to_lowercase()).unwrap();
        assert_eq!(format_address(&a), *v);
    }
}

#[test]
fn parse_format_round_trip() {
    // mixed case parses too, and formatting is idempotent
    let text = "0x5aAeb6053F3E94C9b9A09f33669435E7Ef1BeAed";
    let a = parse_address(text).unwrap();
    let once = format_address(&a);
    let b = parse_address(&once).unwrap();
    let twice = format_address(&b);
    assert_eq!(once, text);
    assert_eq!(once, twice);
    assert_eq!(a.as_bytes(), b.as_bytes());
}

#[test]
fn parse_rejects_malformed_addresses() {
    assert!(parse_address("0x123").is_none());
    assert!(parse_address("5aAeb6053F3E94C9b9A09f33669435E7Ef1BeAed").is_none());
    assert!(parse_address("0x5aAeb6053F3E94C9b9A09f33669435E7Ef1BeAe").is_none());
    assert!(parse_address("0x5aAeb6053F3E94C9b9A09f33669435E7Ef1BeAed1").is_none());
    assert!(parse_address("0xgaAeb6053F3E94C9b9A09f33669435E7Ef1BeAed").is_none());
    assert!(parse_address("").is_none());
}

#[test]
fn supported_chains_resolve_to_fixed_contracts() {
    let got: Vec<String> = ["42161", "81457", "5000"]
        .iter()
        .map(|chain| EIP712Signer::new("Test", "1", chain).unwrap().get_contract_address())
        .collect();
    let expected = vec![
        "0xbbEE07B3e8121227AfCFe1E2B82772246226128e".to_string(),
        "0x00F076FE36f2341A1054B16ae05FcE0C65180DeD".to_string(),
        "0x526D7C7ea3677efF28CB5bA457f9d341F297Fd52".to_string(),
    ];
    assert_eq!(got, expected);
}

#[test]
fn unsupported_or_invalid_chains_are_rejected() {
    assert_eq!(
        EIP712Signer::new("Test", "1", "99999").unwrap_err(),
        SignerError::UnsupportedChain
    );
    assert_eq!(
        EIP712Signer::new("Test", "1", "1").unwrap_err(),
        SignerError::UnsupportedChain
    );
    assert_eq!(
        EIP712Signer::new("Test", "1", "abc").unwrap_err(),
        SignerError::InvalidChainId
    );
    // 2 ** 256 does not fit an unsigned 256-bit integer
    assert_eq!(
        EIP712Signer::new(
            "Test",
            "1",
            "115792089237316195423570985008687907853269984665640564039457584007913129639936"
        )
        .unwrap_err(),
        SignerError::InvalidChainId
    );
    // leading zeros are accepted and canonicalized
    assert!(EIP712Signer::new("Test", "1", "042161").is_ok());
}

#[test]
fn subaccount_is_address_then_padded_tag() {
    let s = EIP712Signer::new("Test", "1", "42161").unwrap();
    let addr = parse_address("0x1111111111111111111111111111111111111111").unwrap();
    let sub = s.create_subaccount(&addr);
    assert_eq!(sub.len(), 32);
    assert_eq!(&sub[..20], &[0x11u8; 20]);
    assert_eq!(
        &sub[20..],
        &[0x64, 0x65, 0x66, 0x61, 0x75, 0x6c, 0x74, 0, 0, 0, 0, 0]
    );
}

#[test]
fn build_is_pure() {
    let s = EIP712Signer::new("Test", "1", "42161").unwrap();
    let sender = "0x1111111111111111111111111111111111111111";
    let signer = "0x2222222222222222222222222222222222222222";
    let a = s.get_typed_data(sender, signer, "5").unwrap();
    let b = s.get_typed_data(sender, signer, "5").unwrap();
    assert_eq!(a, b);
}

#[test]
fn malformed_inputs_yield_documented_errors() {
    let s = EIP712Signer::new("Test", "1", "42161").unwrap();
    let good = "0x1111111111111111111111111111111111111111";
    assert_eq!(
        s.get_typed_data("0x123", good, "5").unwrap_err(),
        SignerError::InvalidSenderAddress
    );
    assert_eq!(
        s.get_typed_data(good, "0x123", "5").unwrap_err(),
        SignerError::InvalidSignerAddress
    );
    assert_eq!(
        s.get_typed_data(good, good, "abc").unwrap_err(),
        SignerError::InvalidNonce
    );
    // sender is checked first
    assert_eq!(
        s.get_typed_data("0x123", "0x456", "abc").unwrap_err(),
        SignerError::InvalidSenderAddress
    );
}

#[test]
fn nonce_bounds_and_canonical_form() {
    let s = EIP712Signer::new("Test", "1", "42161").unwrap();
    let good = "0x1111111111111111111111111111111111111111";
    let max =
        "115792089237316195423570985008687907853269984665640564039457584007913129639935";
    let over =
        "115792089237316195423570985008687907853269984665640564039457584007913129639936";
    let doc = s.get_typed_data(good, good, max).unwrap();
    let v: serde_json::Value = serde_json::from_str(&doc).unwrap();
    assert_eq!(v["message"]["nonce"].as_str().unwrap(), max);
    assert_eq!(
        s.get_typed_data(good, good, over).unwrap_err(),
        SignerError::InvalidNonce
    );
    let doc = s.get_typed_data(good, good, "0005").unwrap();
    let v: serde_json::Value = serde_json::from_str(&doc).unwrap();
    assert_eq!(v["message"]["nonce"].as_str().unwrap(), "5");
    // the empty string stands for zero, as a decimal parse of no digits
    let doc = s.get_typed_data(good, good, "").unwrap();
    let v: serde_json::Value = serde_json::from_str(&doc).unwrap();
    assert_eq!(v["message"]["nonce"].as_str().unwrap(), "0");
}

#[test]
fn end_to_end_document() {
    let s = EIP712Signer::new("Test", "1", "42161").unwrap();
    let doc = s
        .get_typed_data(
            "0x1111111111111111111111111111111111111111",
            "0x2222222222222222222222222222222222222222",
            "5",
        )
        .unwrap();
    let v: serde_json::Value = serde_json::from_str(&doc).unwrap();
    assert_eq!(v["primaryType"].as_str().unwrap(), "LinkSigner");
    assert_eq!(v["domain"]["name"].as_str().unwrap(), "Test");
    assert_eq!(v["domain"]["version"].as_str().unwrap(), "1");
    assert_eq!(v["domain"]["chainId"].as_str().unwrap(), "42161");
    assert_eq!(
        v["domain"]["verifyingContract"].as_str().unwrap(),
        "0xbbEE07B3e8121227AfCFe1E2B82772246226128e"
    );
    assert_eq!(
        v["message"]["sender"].as_str().unwrap(),
        "0x111111111111111111111111111111111111111164656661756c740000000000"
    );
    assert_eq!(
        v["message"]["signer"].as_str().unwrap(),
        "0x2222222222222222222222222222222222222222"
    );
    assert_eq!(v["message"]["nonce"].as_str().unwrap(), "5");
    let types = &v["types"];
    assert_eq!(types["EIP712Domain"].as_array().unwrap().len(), 4);
    assert_eq!(types["LinkSigner"].as_array().unwrap().len(), 3);
    assert_eq!(
        types["LinkSigner"][0]["name"].as_str().unwrap(),
        "sender"
    );
    assert_eq!(
        types["LinkSigner"][0]["type"].as_str().unwrap(),
        "bytes32"
    );
}

#[test]
fn names_are_json_escaped() {
    let s = EIP712Signer::new("A \"quoted\" \\ name\n", "1", "42161").unwrap();
    let doc = s
        .get_typed_data(
            "0x1111111111111111111111111111111111111111",
            "0x2222222222222222222222222222222222222222",
            "1",
        )
        .unwrap();
    let v: serde_json::Value = serde_json::from_str(&doc).unwrap();
    assert_eq!(v["domain"]["name"].as_str().unwrap(), "A \"quoted\" \\ name\n");
}
