use rune_indexer::encoding::{
    decode_rune_amount, decode_rune_amounts, decode_rune_id, decode_spaced_rune,
    encode_rune_amount, encode_rune_amounts, encode_rune_id, encode_spaced_rune, push_le, read_le,
};
use rune_indexer::rune::Rune;
use rune_indexer::rune_amount::RuneAmount;
use rune_indexer::rune_id::RuneId;
use rune_indexer::spaced_rune::SpacedRune;
use std::str::FromStr;

fn borsh_of_amount(amount: &RuneAmount) -> Vec<u8> {
    borsh::to_vec(&(amount.rune_id.block, amount.rune_id.tx, amount.amount)).unwrap()
}

/// Encodes, compares with the encoder of the format, decodes, compares.
fn amount_roundtrip(given: &RuneAmount) -> RuneAmount {
    let serialized = encode_rune_amount(given);
    assert_eq!(serialized, borsh_of_amount(given));
    let (block, tx, amount): (u64, u32, u128) = borsh::from_slice(&serialized).unwrap();
    assert_eq!((block, tx, amount), (given.rune_id.block, given.rune_id.tx, given.amount));
    let deserialized = decode_rune_amount(&serialized).expect("Failed to deserialize");
    assert_eq!(given, &deserialized, "Borsh roundtrip failed");
    deserialized
}

/// The amount as JSON, with the numbers as text, and back.
fn amount_json_roundtrip(given: &RuneAmount) -> RuneAmount {
    let mut fields = serde_json::Map::new();
    fields.insert(
        "rune_id".to_string(),
        serde_json::Value::String(given.rune_id.to_string()),
    );
    fields.insert("amount".to_string(), serde_json::Value::String(given.amount.to_string()));
    let serialized = serde_json::to_string(&serde_json::Value::Object(fields)).unwrap();
    let read: serde_json::Value = serde_json::from_str(&serialized).unwrap();
    let deserialized = RuneAmount {
        rune_id: RuneId::from_str(read["rune_id"].as_str().unwrap()).unwrap(),
        amount: read["amount"].as_str().unwrap().parse().unwrap(),
    };
    assert_eq!(given, &deserialized, "Serde roundtrip failed");
    deserialized
}

fn create_test_rune_amount() -> RuneAmount {
    RuneAmount { rune_id: RuneId::new(840000, 1), amount: 1000000000000000000u128 }
}

#[test]
fn test_rune_amount_borsh_roundtrip() {
    let given = create_test_rune_amount();
    amount_roundtrip(&given);
}

#[test]
fn test_rune_amount_serde_roundtrip() {
    let given = create_test_rune_amount();
    amount_json_roundtrip(&given);
}

#[test]
fn test_rune_amount_zero_values() {
    let rune_amount = RuneAmount { rune_id: RuneId::new(0, 0), amount: 0 };
    amount_roundtrip(&rune_amount);
    amount_json_roundtrip(&rune_amount);
}

#[test]
fn test_rune_amount_max_values() {
    let rune_amount = RuneAmount { rune_id: RuneId::new(u64::MAX, u32::MAX), amount: u128::MAX };
    amount_roundtrip(&rune_amount);
    amount_json_roundtrip(&rune_amount);
}

#[test]
fn test_rune_amount_consistency() {
    let given = create_test_rune_amount();

    let serialized1 = encode_rune_amount(&given);
    let serialized2 = encode_rune_amount(&given);
    assert_eq!(serialized1, serialized2);

    let deserialized1 = decode_rune_amount(&serialized1).unwrap();
    let deserialized2 = decode_rune_amount(&serialized2).unwrap();
    assert_eq!(deserialized1, deserialized2);
    assert_eq!(given, deserialized1);
}

#[test]
fn test_rune_amounts_different_rune_ids() {
    let rune1 = RuneAmount { rune_id: RuneId::new(840000, 1), amount: 1000000000000000000u128 };
    let rune2 = RuneAmount { rune_id: RuneId::new(840001, 2), amount: 1000000000000000000u128 };

    assert_ne!(rune1, rune2);

    let serialized1 = encode_rune_amount(&rune1);
    let serialized2 = encode_rune_amount(&rune2);
    assert_ne!(serialized1, serialized2);
}

#[test]
fn test_rune_amounts_different_amounts() {
    let rune1 = RuneAmount { rune_id: RuneId::new(840000, 1), amount: 1000000000000000000u128 };
    let rune2 = RuneAmount { rune_id: RuneId::new(840000, 1), amount: 2000000000000000000u128 };

    assert_ne!(rune1, rune2);

    let serialized1 = encode_rune_amount(&rune1);
    let serialized2 = encode_rune_amount(&rune2);
    assert_ne!(serialized1, serialized2);
}

#[test]
fn test_collection_of_rune_amounts() {
    let rune_amounts = vec![
        RuneAmount { rune_id: RuneId::new(840000, 1), amount: 1000000000000000000u128 },
        RuneAmount { rune_id: RuneId::new(840001, 2), amount: 2000000000000000000u128 },
        RuneAmount { rune_id: RuneId::new(840002, 3), amount: 3000000000000000000u128 },
    ];

    for rune_amount in &rune_amounts {
        amount_roundtrip(rune_amount);
        amount_json_roundtrip(rune_amount);
    }

    let serialized = encode_rune_amounts(&rune_amounts).unwrap();
    let tuples: Vec<(u64, u32, u128)> =
        rune_amounts.iter().map(|a| (a.rune_id.block, a.rune_id.tx, a.amount)).collect();
    assert_eq!(serialized, borsh::to_vec(&tuples).unwrap());
    let deserialized: Vec<RuneAmount> = decode_rune_amounts(&serialized).unwrap();
    assert_eq!(rune_amounts, deserialized);
}

#[test]
fn rune_id_serde() {
    let rune_id = RuneId::new(1, 2);
    let json = "\"1:2\"";
    assert_eq!(serde_json::to_string(&rune_id.to_string()).unwrap(), json);
    let text: String = serde_json::from_str(json).unwrap();
    assert_eq!(RuneId::from_str(&text).unwrap(), rune_id);
}

#[test]
fn rune_id_borsh_roundtrip() {
    let rune_id = RuneId::new(840000, 1);
    let serialized = encode_rune_id(&rune_id);
    assert_eq!(serialized, borsh::to_vec(&(840000u64, 1u32)).unwrap());
    let deserialized: RuneId = decode_rune_id(&serialized).unwrap();
    assert_eq!(rune_id, deserialized);
}

#[test]
fn spaced_rune_serde() {
    let spaced_rune = SpacedRune { rune: Rune(26), spacers: 1 };
    let json = "\"A•A\"";
    assert_eq!(serde_json::to_string(&spaced_rune.to_string()).unwrap(), json);
    let text: String = serde_json::from_str(json).unwrap();
    assert_eq!(SpacedRune::from_str(&text).unwrap(), spaced_rune);
}

#[test]
fn spaced_rune_borsh_roundtrip() {
    let spaced_rune = SpacedRune { rune: Rune(42), spacers: 0b101 };
    let serialized = encode_spaced_rune(&spaced_rune);
    assert_eq!(serialized, borsh::to_vec(&(42u128, 0b101u32)).unwrap());
    let deserialized: SpacedRune = decode_spaced_rune(&serialized).unwrap();
    assert_eq!(spaced_rune, deserialized);
}

#[test]
fn rune_id_bytes_are_its_key_bytes() {
    let rune_id = RuneId::new(0x1234567890ABCDEF, 0x12345678);
    assert_eq!(encode_rune_id(&rune_id), rune_id.to_bytes().to_vec());
    assert_eq!(
        encode_rune_id(&rune_id),
        vec![0xEF, 0xCD, 0xAB, 0x90, 0x78, 0x56, 0x34, 0x12, 0x78, 0x56, 0x34, 0x12]
    );
}

#[test]
fn decoding_wants_the_exact_length() {
    let bytes = encode_rune_id(&RuneId::new(7, 9));
    assert_eq!(decode_rune_id(&bytes[..11]), None);
    let mut longer = bytes.clone();
    longer.push(0);
    assert_eq!(decode_rune_id(&longer), None);
    assert_eq!(decode_spaced_rune(&bytes), None);
    assert_eq!(decode_rune_amount(&bytes), None);
    assert_eq!(decode_rune_id(&[]), None);
}

#[test]
fn list_of_amounts_must_fill_the_bytes() {
    let one = RuneAmount { rune_id: RuneId::new(3, 4), amount: 5 };
    let bytes = encode_rune_amounts(&vec![one, one]).unwrap();
    assert_eq!(bytes.len(), 4 + 2 * 28);
    assert_eq!(&bytes[..4], &[2, 0, 0, 0]);
    assert_eq!(decode_rune_amounts(&bytes), Some(vec![one, one]));
    assert_eq!(decode_rune_amounts(&bytes[..bytes.len() - 1]), None);
    assert_eq!(decode_rune_amounts(&bytes[..3]), None);
    assert_eq!(decode_rune_amounts(&[0, 0, 0, 0]), Some(Vec::new()));
    assert_eq!(encode_rune_amounts(&Vec::new()), Some(vec![0, 0, 0, 0]));
    assert_eq!(decode_rune_amounts(&[1, 0, 0, 0]), None);
}

#[test]
fn numbers_in_little_endian() {
    let mut out = vec![9u8];
    push_le(&mut out, 0x0102_0304, 4);
    assert_eq!(out, vec![9, 4, 3, 2, 1]);
    push_le(&mut out, 0x1_00, 1);
    assert_eq!(out, vec![9, 4, 3, 2, 1, 0]);
    assert_eq!(read_le(&out, 1, 4), 0x0102_0304);
    assert_eq!(read_le(&out, 0, 2), 0x0409);
    assert_eq!(read_le(&out, 3, 0), 0);
    let wide = u128::MAX.to_le_bytes();
    assert_eq!(read_le(&wide, 0, 16), u128::MAX);
}
