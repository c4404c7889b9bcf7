use nym_rpc::signing::{check_contract_json, decode_contract_msg, prepare_contract_msg, SignError};

#[test]
fn base58_json_is_accepted() {
    let json = b"{\"sender\":\"n1abc\",\"amount\":5}";
    let encoded = bs58::encode(json).into_string();
    let raw = format!("  \n{}\t ", encoded);
    let msg = prepare_contract_msg(&raw).ok().unwrap();
    assert_eq!(msg.bytes, json.to_vec());
    assert_eq!(msg.text, "{\"sender\":\"n1abc\",\"amount\":5}");
}

#[test]
fn not_base58_is_refused() {
    let err = prepare_contract_msg("0OIl").err().unwrap();
    assert_eq!(err, SignError::NotBase58);
    assert!(err.message().starts_with("decoded: "));
}

#[test]
fn base58_of_non_json_is_refused() {
    let encoded = bs58::encode(b"hello there").into_string();
    let err = prepare_contract_msg(&encoded).err().unwrap();
    assert_eq!(err, SignError::NotJson);
    assert!(err.message().starts_with("serde_json: "));
}

#[test]
fn signing_steps_separately() {
    let encoded = bs58::encode(b"[1,2]").into_string();
    let decoded = decode_contract_msg(&format!(" {} ", encoded)).ok().unwrap();
    assert_eq!(decoded, b"[1,2]".to_vec());
    let msg = check_contract_json(decoded).ok().unwrap();
    assert_eq!(msg.text, "[1,2]");
    assert_eq!(decode_contract_msg("l0").err().unwrap(), SignError::NotBase58);
    assert_eq!(check_contract_json(b"not json".to_vec()).err().unwrap(), SignError::NotJson);
}

#[test]
fn base58_decoding_values() {
    assert_eq!(
        decode_contract_msg("he11owor1d").ok().unwrap(),
        vec![0x04, 0x30, 0x5e, 0x2b, 0x24, 0x73, 0xf0, 0x58]
    );
    assert_eq!(decode_contract_msg("").ok().unwrap(), Vec::<u8>::new());
    assert_eq!(decode_contract_msg("11").ok().unwrap(), vec![0u8, 0]);
    assert_eq!(decode_contract_msg("1112").ok().unwrap(), vec![0u8, 0, 0, 1]);
    // 58 = "21", 256 = "5R"
    assert_eq!(decode_contract_msg("21").ok().unwrap(), vec![58u8]);
    assert_eq!(decode_contract_msg("5R").ok().unwrap(), vec![1u8, 0]);
    assert_eq!(decode_contract_msg("é").err().unwrap(), SignError::NotBase58);
    assert_eq!(decode_contract_msg("2 2").err().unwrap(), SignError::NotBase58);
}

#[test]
fn trimming_removes_unicode_white_space_only_at_the_ends() {
    // U+3000 ideographic space and U+00A0 no-break space are White_Space
    let raw = "\u{3000}\u{a0}\t21\n\u{2028}";
    assert_eq!(decode_contract_msg(raw).ok().unwrap(), vec![58u8]);
    assert_eq!(nym_rpc::signing::trim_text(" \u{85}a b\u{3000} "), "a b");
    assert_eq!(nym_rpc::signing::trim_text("   "), "");
    assert_eq!(nym_rpc::signing::trim_text(""), "");
    assert_eq!(nym_rpc::signing::trim_text("x"), "x");
}
