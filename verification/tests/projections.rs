use anypay_escrow::chains::bitcoin::{BitcoinInput, BitcoinOutput, BitcoinTransaction,
    serialize_transaction};
use anypay_escrow::chains::ethereum::{rlp_encode, to_min_bytes, encode_transaction,
    EthTransaction, U256};
use anypay_escrow::errors::EscrowError;
use anypay_escrow::payparse::{parse_payment_method, extract_payment_details};
use anypay_escrow::state::Contract;
use anypay_escrow::text::{trim_str, lower_str, u64_to_dec};

fn s(text: &str) -> String {
    text.to_string()
}

fn methods() -> Vec<String> {
    vec![s("Venmo::Alice-Tag")]
}

#[test]
fn payment_method_parsing() {
    assert_eq!(parse_payment_method("Venmo::Alice-Tag"), (s("venmo"), s("Alice-Tag")));
    assert_eq!(parse_payment_method("  PayPal ::  bob  "), (s("paypal"), s("bob")));
    assert_eq!(parse_payment_method("zelle"), (s("zelle"), s("")));
    assert_eq!(parse_payment_method("   "), (s(""), s("")));
    assert_eq!(parse_payment_method("a::b::c"), (s("a"), s("b::c")));
}

#[test]
fn payment_details_pick_the_first_wellformed_entry() {
    let ms = vec![s("broken"), s("CashApp::carol"), s("venmo::dave")];
    let (platform, tagname) = extract_payment_details(&ms).unwrap();
    assert_eq!(platform, "cashapp");
    assert_eq!(tagname, "carol");
    assert!(extract_payment_details(&vec![s("::"), s("x::"), s("::y")]).is_none());
}

#[test]
fn text_helpers() {
    assert_eq!(trim_str("  hello \n"), "hello");
    assert_eq!(lower_str("MiXeD-42"), "mixed-42");
    assert_eq!(u64_to_dec(0), "0");
    assert_eq!(u64_to_dec(105), "105");
    assert_eq!(u64_to_dec(u64::MAX), "18446744073709551615");
}

#[test]
fn transfer_details_derive_platform_and_memo() {
    let mut c = Contract::new(s("owner"), s("fees"));
    let id = c
        .create_deposit(s("seller"), 7, s("USDC"), 1000, 10, 500, methods(), None)
        .unwrap();
    let hash = c
        .signal_intent(s("buyer"), 9, id, 400, s("Venmo::Alice-Tag"), s("USD"), s("r"),
            s("BTC"))
        .unwrap();
    let v = c.get_intent_transfer_details(&hash).unwrap();
    assert_eq!(v.intent_hash, hash);
    assert_eq!(v.deposit_id, id);
    assert_eq!(v.amount, 400);
    assert_eq!(v.platform, "venmo");
    assert_eq!(v.tagname, "Alice-Tag");
    assert_eq!(v.memo, "anypay:1:1");
    assert!(c.get_intent_transfer_details(&s("intent:9")).is_none());
}

#[test]
fn registry_round_trip() {
    let mut c = Contract::new(s("owner"), s("fees"));
    assert_eq!(
        c.add_payment_method(s("stranger"), s("venmo"), s("v1"), vec![s("USD")]),
        Err(EscrowError::NotOwner)
    );
    assert_eq!(
        c.add_payment_method(s("owner"), s("venmo"), s("v1"), vec![]),
        Err(EscrowError::NoCurrencies)
    );
    c.add_payment_method(s("owner"), s("venmo"), s("v1"), vec![s("USD")]).unwrap();
    let pm = c.get_payment_method(&s("venmo")).unwrap();
    assert_eq!(pm.verifier, "v1");
    assert!(pm.initialized);
    c.add_payment_method(s("owner"), s("venmo"), s("v2"), vec![s("USD"), s("EUR")])
        .unwrap();
    assert_eq!(c.get_payment_method(&s("venmo")).unwrap().verifier, "v2");
    c.remove_payment_method(s("owner"), s("venmo")).unwrap();
    assert!(c.get_payment_method(&s("venmo")).is_none());
}

#[test]
fn admin_configuration() {
    let mut c = Contract::new(s("owner"), s("fees"));
    assert_eq!(c.set_protocol_fee(s("stranger"), 10), Err(EscrowError::NotOwner));
    assert_eq!(c.set_protocol_fee(s("owner"), 501), Err(EscrowError::FeeAboveCap));
    c.set_protocol_fee(s("owner"), 250).unwrap();
    assert_eq!(c.protocol_fee, 250);
    assert_eq!(c.set_topup_window_ms(s("owner"), 0), Err(EscrowError::ZeroTopupWindow));
    c.set_topup_window_ms(s("owner"), 60_000).unwrap();
    assert_eq!(
        c.set_max_quote_rotations(s("owner"), 0),
        Err(EscrowError::ZeroMaxQuoteRotations)
    );
    c.set_max_quote_rotations(s("owner"), 3).unwrap();
    c.set_v2_storage_fee_yocto(s("owner"), 77).unwrap();
    let cfg = c.get_v2_config();
    assert_eq!(cfg.topup_window_ms, 60_000);
    assert_eq!(cfg.max_quote_rotations, 3);
    assert_eq!(cfg.storage_fee_yocto, 77);
    assert_eq!(c.get_owner().as_str(), "owner");
}

#[test]
fn account_and_deposit_indices() {
    let mut c = Contract::new(s("owner"), s("fees"));
    let a = c
        .create_deposit(s("alice"), 0, s("T"), 100, 1, 50, methods(), None)
        .unwrap();
    let b = c
        .create_deposit(s("bob"), 0, s("T"), 100, 1, 50, methods(), None)
        .unwrap();
    let a2 = c
        .create_deposit(s("alice"), 0, s("T"), 100, 1, 50, methods(), None)
        .unwrap();
    assert_eq!(c.get_account_deposits(&s("alice")), vec![a, a2]);
    assert_eq!(c.get_account_deposits(&s("bob")), vec![b]);
    assert!(c.get_account_deposits(&s("carol")).is_empty());
    let h1 = c
        .signal_intent(s("buyer1"), 0, a, 10, s("Venmo::Alice-Tag"), s("USD"), s("r"),
            s("BTC"))
        .unwrap();
    let h2 = c
        .signal_intent(s("buyer2"), 0, a, 10, s("Venmo::Alice-Tag"), s("USD"), s("r"),
            s("BTC"))
        .unwrap();
    assert_eq!(c.get_account_intents(&s("buyer1")), vec![h1.clone()]);
    assert_eq!(c.get_deposit_intents(a), vec![h1, h2]);
    assert!(c.get_deposit_intents(b).is_empty());
}

#[test]
fn minimal_big_endian_bytes() {
    assert_eq!(to_min_bytes(0), vec![0u8]);
    assert_eq!(to_min_bytes(1), vec![1u8]);
    assert_eq!(to_min_bytes(255), vec![255u8]);
    assert_eq!(to_min_bytes(256), vec![1u8, 0]);
    assert_eq!(to_min_bytes(65_537), vec![1u8, 0, 1]);
}

#[test]
fn rlp_encoding_rules() {
    assert_eq!(rlp_encode(&[0x42]), vec![0x42u8]);
    assert_eq!(rlp_encode(&[0x80]), vec![0x81u8, 0x80]);
    assert_eq!(rlp_encode(&[]), vec![0x80u8]);
    assert_eq!(rlp_encode(&[1, 2, 3]), vec![0x83u8, 1, 2, 3]);
    let long = [7u8; 60];
    let encoded = rlp_encode(&long);
    assert_eq!(encoded[0], 0xb8);
    assert_eq!(encoded[1], 60);
    assert_eq!(&encoded[2..], &long);
}

#[test]
fn eth_transaction_payload_is_stubbed() {
    let zero = U256([0u8; 32]);
    let tx = EthTransaction {
        nonce: zero,
        gas_price: zero,
        gas_limit: zero,
        to: Some(s("0xabc")),
        value: zero,
        data: vec![1, 2, 3],
        v: 27,
        r: zero,
        s: zero,
    };
    assert!(encode_transaction(&tx).is_empty());
}

#[test]
fn bitcoin_serialization_layout() {
    let tx = BitcoinTransaction {
        version: 2,
        inputs: vec![BitcoinInput {
            txid: s("0102"),
            vout: 1,
            script_sig: vec![0xaa],
            sequence: 0xffffffff,
        }],
        outputs: vec![BitcoinOutput {
            value: 5000,
            script_pubkey: vec![0x51],
        }],
        locktime: 0,
    };
    let bytes = serialize_transaction(&tx);
    let mut expected: Vec<u8> = Vec::new();
    expected.extend_from_slice(&[2, 0, 0, 0]);
    expected.push(1);
    expected.extend_from_slice(&[0x02, 0x01]);
    expected.extend_from_slice(&[1, 0, 0, 0]);
    expected.push(1);
    expected.push(0xaa);
    expected.extend_from_slice(&[0xff, 0xff, 0xff, 0xff]);
    expected.push(1);
    expected.extend_from_slice(&5000u64.to_le_bytes());
    expected.push(1);
    expected.push(0x51);
    expected.extend_from_slice(&[0, 0, 0, 0]);
    assert_eq!(bytes, expected);
}

#[test]
fn bitcoin_serialization_tolerates_bad_txid() {
    let tx = BitcoinTransaction {
        version: 1,
        inputs: vec![BitcoinInput {
            txid: s("not-hex"),
            vout: 0,
            script_sig: vec![],
            sequence: 0,
        }],
        outputs: vec![],
        locktime: 0,
    };
    let bytes = serialize_transaction(&tx);
    assert_eq!(bytes.len(), 4 + 1 + 32 + 4 + 1 + 4 + 1 + 4);
    assert_eq!(&bytes[5..37], &[0u8; 32]);
}
