use evm_interp::{code_from_json, code_to_json, contract_calls, transactions_from_block_json};

#[test]
fn code_json_is_a_prefixed_hex_string() {
    assert_eq!(code_to_json(&[0x60, 0x80, 0x0a, 0xff]), "\"0x60800aff\"");
    assert_eq!(code_to_json(&[]), "\"0x\"");
}

#[test]
fn code_json_parses() {
    assert_eq!(code_from_json("\"0x6080604052\""), Some(vec![0x60, 0x80, 0x60, 0x40, 0x52]));
    assert_eq!(code_from_json("\"0xABcd\""), Some(vec![0xab, 0xcd]));
    assert_eq!(code_from_json("\"0x\""), Some(vec![]));
}

#[test]
fn text_without_code_parses_to_none() {
    assert_eq!(code_from_json("\"0x123\""), None);
    assert_eq!(code_from_json("\"0xzz\""), None);
    assert_eq!(code_from_json("42"), None);
    assert_eq!(code_from_json(""), None);
}

#[test]
fn code_json_round_trips() {
    let code: Vec<u8> = (0..=255).collect();
    assert_eq!(code_from_json(&code_to_json(&code)), Some(code));
}

const TX_CALL: &str = r#"{
    "hash": "0xa1a1a1a1a1a1a1a1a1a1a1a1a1a1a1a1a1a1a1a1a1a1a1a1a1a1a1a1a1a1a1a1",
    "nonce": "0x1", "value": "0x0", "gas": "0x5208", "gasPrice": "0x1",
    "input": "0x38ed1739", "v": "0x1b", "r": "0x1", "s": "0x2",
    "from": "0x0000000000000000000000000000000000000009",
    "to": "0x0101010101010101010101010101010101010101"
}"#;

const TX_CREATE: &str = r#"{
    "hash": "0xa2a2a2a2a2a2a2a2a2a2a2a2a2a2a2a2a2a2a2a2a2a2a2a2a2a2a2a2a2a2a2a2",
    "nonce": "0x2", "value": "0x0", "gas": "0x5208", "gasPrice": "0x1",
    "input": "0x6080", "v": "0x1b", "r": "0x1", "s": "0x2",
    "from": "0x0000000000000000000000000000000000000009",
    "to": null
}"#;

#[test]
fn block_json_gives_its_transactions() {
    let text = format!("{{\"number\": \"0x12a9f37\", \"transactions\": [{}, {}]}}", TX_CALL, TX_CREATE);
    let txs = transactions_from_block_json(&text).expect("a block");
    assert_eq!(txs.len(), 2);
    assert_eq!(txs[0].to, Some([1u8; 20]));
    assert_eq!(txs[0].input, vec![0x38, 0xed, 0x17, 0x39]);
    assert_eq!(txs[0].hash, [0xa1u8; 32]);
    assert_eq!(txs[1].to, None);
    assert_eq!(txs[1].input, vec![0x60, 0x80]);
    assert_eq!(txs[1].hash, [0xa2u8; 32]);
    let calls = contract_calls(&txs);
    assert_eq!(calls.len(), 1);
    assert_eq!(calls[0].to, [1u8; 20]);
}

#[test]
fn a_block_without_transactions() {
    let txs = transactions_from_block_json("{\"number\": \"0x1\"}").expect("a block");
    assert!(txs.is_empty());
}

#[test]
fn text_without_a_block_parses_to_none() {
    assert!(transactions_from_block_json("[1, 2, 3]").is_none());
    assert!(transactions_from_block_json("{\"transactions\": [{\"hash\": 5}]}").is_none());
}
