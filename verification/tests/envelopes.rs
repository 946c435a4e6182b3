use rpc_shield::envelope::{
    find_recipient, is_zero, read_be, read_item, skip_items, DecodeError, EnvelopeKind, Item,
};
use rpc_shield::types::Transaction;

const LEGACY_DEAD: &str = "f86c098504a817c80082520894000000000000000000000000000000000000dead880de0b6b3a76400008025a00102030405060708090a0b0c0d0e0f101112131415161718191a1b1c1d1e1f20a02122232425262728292a2b2c2d2e2f303132333435363738393a3b3c3d3e3f40";
const LEGACY_CREATE: &str = "f8a9098504a817c80082520880880de0b6b3a7640000b850608060806080608060806080608060806080608060806080608060806080608060806080608060806080608060806080608060806080608060806080608060806080608060806080608060806080608025a00102030405060708090a0b0c0d0e0f101112131415161718191a1b1c1d1e1f20a02122232425262728292a2b2c2d2e2f303132333435363738393a3b3c3d3e3f40";
const LEGACY_ZERO: &str = "f86c098504a817c800825208940000000000000000000000000000000000000000880de0b6b3a76400008025a00102030405060708090a0b0c0d0e0f101112131415161718191a1b1c1d1e1f20a02122232425262728292a2b2c2d2e2f303132333435363738393a3b3c3d3e3f40";
const ACCESS_DEAD: &str = "01f86e01098504a817c80082520894000000000000000000000000000000000000dead880de0b6b3a764000080c001a00102030405060708090a0b0c0d0e0f101112131415161718191a1b1c1d1e1f20a02122232425262728292a2b2c2d2e2f303132333435363738393a3b3c3d3e3f40";
const DYNAMIC_DEAD: &str = "02f8730109843b9aca008504a817c80082520894000000000000000000000000000000000000dead880de0b6b3a764000080c080a00102030405060708090a0b0c0d0e0f101112131415161718191a1b1c1d1e1f20a02122232425262728292a2b2c2d2e2f303132333435363738393a3b3c3d3e3f40";
const DYNAMIC_CREATE: &str = "02f85f0109843b9aca008504a817c80082520880880de0b6b3a764000080c080a00102030405060708090a0b0c0d0e0f101112131415161718191a1b1c1d1e1f20a02122232425262728292a2b2c2d2e2f303132333435363738393a3b3c3d3e3f40";
const LEGACY_SHORT_TO: &str = "f86b098504a817c8008252089301010101010101010101010101010101010101880de0b6b3a76400008025a00102030405060708090a0b0c0d0e0f101112131415161718191a1b1c1d1e1f20a02122232425262728292a2b2c2d2e2f303132333435363738393a3b3c3d3e3f40";

fn dynamic_long_beef() -> String {
    format!(
        "02f901a10109843b9aca008504a817c80082520894000000000000000000000000000000000000beef880de0b6b3a7640000b9012c{}c080a00102030405060708090a0b0c0d0e0f101112131415161718191a1b1c1d1e1f20a02122232425262728292a2b2c2d2e2f303132333435363738393a3b3c3d3e3f40",
        "00".repeat(300)
    )
}

fn bytes_of(hex_text: &str) -> Vec<u8> {
    hex::decode(hex_text).unwrap()
}

#[test]
fn envelope_kind_follows_the_leading_byte() {
    assert_eq!(EnvelopeKind::from_leading_byte(0xc0), Some(EnvelopeKind::Legacy));
    assert_eq!(EnvelopeKind::from_leading_byte(0xf8), Some(EnvelopeKind::Legacy));
    assert_eq!(EnvelopeKind::from_leading_byte(0xff), Some(EnvelopeKind::Legacy));
    assert_eq!(EnvelopeKind::from_leading_byte(0x01), Some(EnvelopeKind::AccessList));
    assert_eq!(EnvelopeKind::from_leading_byte(0x02), Some(EnvelopeKind::DynamicFee));
    assert_eq!(EnvelopeKind::from_leading_byte(0x00), None);
    assert_eq!(EnvelopeKind::from_leading_byte(0x03), None);
    assert_eq!(EnvelopeKind::from_leading_byte(0x7f), None);
    assert_eq!(EnvelopeKind::from_leading_byte(0x80), None);
    assert_eq!(EnvelopeKind::from_leading_byte(0xbf), None);
}

#[test]
fn envelope_kind_gives_the_place_of_the_recipient() {
    assert_eq!(EnvelopeKind::Legacy.list_offset(), 0);
    assert_eq!(EnvelopeKind::AccessList.list_offset(), 1);
    assert_eq!(EnvelopeKind::DynamicFee.list_offset(), 1);
    assert_eq!(EnvelopeKind::Legacy.fields_before_recipient(), 3);
    assert_eq!(EnvelopeKind::AccessList.fields_before_recipient(), 4);
    assert_eq!(EnvelopeKind::DynamicFee.fields_before_recipient(), 5);
}

#[test]
fn read_be_reads_most_significant_byte_first() {
    let b = [0x01, 0x02, 0x03, 0xff, 0xff, 0xff, 0xff, 0xff, 0xff, 0xff, 0xff];
    assert_eq!(read_be(&b, 0, 0), 0);
    assert_eq!(read_be(&b, 0, 1), 1);
    assert_eq!(read_be(&b, 0, 2), 0x0102);
    assert_eq!(read_be(&b, 1, 2), 0x0203);
    assert_eq!(read_be(&b, 0, 3), 0x010203);
    assert_eq!(read_be(&b, 3, 8), u64::MAX);
}

#[test]
fn read_item_reads_each_form_of_tag() {
    assert_eq!(read_item(&[0x7f], 0, 1), Some(Item { is_list: false, start: 0, len: 1 }));
    assert_eq!(read_item(&[0x80], 0, 1), Some(Item { is_list: false, start: 1, len: 0 }));
    assert_eq!(read_item(&[0x82, 1, 2], 0, 3), Some(Item { is_list: false, start: 1, len: 2 }));
    assert_eq!(read_item(&[0xc0], 0, 1), Some(Item { is_list: true, start: 1, len: 0 }));
    assert_eq!(read_item(&[9, 0xc2, 1, 2], 1, 4), Some(Item { is_list: true, start: 2, len: 2 }));
    let mut long = vec![0xb8, 56];
    long.extend(vec![7u8; 56]);
    assert_eq!(read_item(&long, 0, 58), Some(Item { is_list: false, start: 2, len: 56 }));
    let mut long_list = vec![0xf9, 0x01, 0x00];
    long_list.extend(vec![0x80u8; 256]);
    assert_eq!(read_item(&long_list, 0, 259), Some(Item { is_list: true, start: 3, len: 256 }));
}

#[test]
fn read_item_gives_nothing_for_what_does_not_fit() {
    assert_eq!(read_item(&[0x82, 1, 2], 0, 2), None);
    assert_eq!(read_item(&[0x82, 1], 0, 2), None);
    assert_eq!(read_item(&[0x80], 1, 1), None);
    assert_eq!(read_item(&[0x80], 5, 1), None);
    assert_eq!(read_item(&[0xb8], 0, 1), None);
    assert_eq!(read_item(&[0xb8, 56, 0], 0, 3), None);
    assert_eq!(read_item(&[0xf9, 0x01], 0, 2), None);
    assert_eq!(read_item(&[0xc3, 1, 2], 0, 3), None);
    let huge = [0xbf, 0xff, 0xff, 0xff, 0xff, 0xff, 0xff, 0xff, 0xff];
    assert_eq!(read_item(&huge, 0, 9), None);
    let huge_list = [0xff, 0xff, 0xff, 0xff, 0xff, 0xff, 0xff, 0xff, 0xff, 0x00];
    assert_eq!(read_item(&huge_list, 0, 10), None);
}

#[test]
fn skip_items_steps_over_items() {
    let b = [0x09, 0x82, 1, 2, 0xc1, 0x80, 0x80];
    assert_eq!(skip_items(&b, 0, 7, 0), Ok(0));
    assert_eq!(skip_items(&b, 0, 7, 1), Ok(1));
    assert_eq!(skip_items(&b, 0, 7, 2), Ok(4));
    assert_eq!(skip_items(&b, 0, 7, 3), Ok(6));
    assert_eq!(skip_items(&b, 0, 7, 4), Ok(7));
    assert_eq!(skip_items(&b, 0, 7, 5), Err(DecodeError::TooShort));
    assert_eq!(skip_items(&b, 0, 3, 2), Err(DecodeError::Malformed));
}

#[test]
fn find_recipient_in_each_format() {
    assert_eq!(find_recipient(&bytes_of(LEGACY_DEAD)), Ok(Some(13)));
    assert_eq!(find_recipient(&bytes_of(ACCESS_DEAD)), Ok(Some(15)));
    assert_eq!(find_recipient(&bytes_of(DYNAMIC_DEAD)), Ok(Some(20)));
    assert_eq!(find_recipient(&bytes_of(&dynamic_long_beef())), Ok(Some(21)));
    assert_eq!(find_recipient(&bytes_of(LEGACY_ZERO)), Ok(Some(13)));
    assert_eq!(
        find_recipient(&bytes_of("d809010294000000000000000000000000000000000000dead")),
        Ok(Some(5))
    );
}

#[test]
fn find_recipient_of_contract_creation_is_none() {
    assert_eq!(find_recipient(&bytes_of(LEGACY_CREATE)), Ok(None));
    assert_eq!(find_recipient(&bytes_of(DYNAMIC_CREATE)), Ok(None));
}

#[test]
fn find_recipient_too_short() {
    assert_eq!(find_recipient(&[]), Err(DecodeError::TooShort));
    assert_eq!(find_recipient(&[0x01]), Err(DecodeError::TooShort));
    assert_eq!(find_recipient(&[0x02]), Err(DecodeError::TooShort));
    assert_eq!(find_recipient(&[0xf8]), Err(DecodeError::TooShort));
    assert_eq!(find_recipient(&[0xc0]), Err(DecodeError::TooShort));
    assert_eq!(find_recipient(&bytes_of("c3090102")), Err(DecodeError::TooShort));
    let whole = bytes_of(LEGACY_DEAD);
    assert_eq!(find_recipient(&whole[..whole.len() - 1]), Err(DecodeError::TooShort));
    assert_eq!(find_recipient(&whole[..20]), Err(DecodeError::TooShort));
    let typed = bytes_of(DYNAMIC_DEAD);
    assert_eq!(find_recipient(&typed[..typed.len() - 1]), Err(DecodeError::TooShort));
}

#[test]
fn find_recipient_unsupported_type() {
    assert_eq!(find_recipient(&[0x00]), Err(DecodeError::UnsupportedType));
    assert_eq!(find_recipient(&[0x03, 0xc0]), Err(DecodeError::UnsupportedType));
    assert_eq!(find_recipient(&[0x7f]), Err(DecodeError::UnsupportedType));
    assert_eq!(find_recipient(&[0x80]), Err(DecodeError::UnsupportedType));
    assert_eq!(find_recipient(&[0xb7, 0x00]), Err(DecodeError::UnsupportedType));
}

#[test]
fn find_recipient_malformed() {
    let mut trailing = bytes_of(LEGACY_DEAD);
    trailing.push(0);
    assert_eq!(find_recipient(&trailing), Err(DecodeError::Malformed));
    assert_eq!(find_recipient(&bytes_of(LEGACY_SHORT_TO)), Err(DecodeError::Malformed));
    assert_eq!(find_recipient(&bytes_of("c5090102c001")), Err(DecodeError::Malformed));
    assert_eq!(find_recipient(&bytes_of("c401020305")), Err(DecodeError::Malformed));
    assert_eq!(find_recipient(&bytes_of("c409018502")), Err(DecodeError::Malformed));
    assert_eq!(find_recipient(&bytes_of("c50901029400")), Err(DecodeError::Malformed));
    assert_eq!(find_recipient(&bytes_of("0180")), Err(DecodeError::Malformed));
    assert_eq!(find_recipient(&bytes_of("0205")), Err(DecodeError::Malformed));
}

#[test]
fn is_zero_looks_at_the_given_bytes_only() {
    let b = [1, 0, 0, 0, 2];
    assert!(is_zero(&b, 1, 3));
    assert!(is_zero(&b, 1, 0));
    assert!(is_zero(&b, 5, 0));
    assert!(!is_zero(&b, 0, 3));
    assert!(!is_zero(&b, 2, 3));
}

#[test]
fn transaction_new_gives_the_digits_of_the_recipient() {
    let expected = Some("000000000000000000000000000000000000dead".to_string());
    assert_eq!(Transaction::new(LEGACY_DEAD).unwrap().to, expected);
    assert_eq!(Transaction::new(ACCESS_DEAD).unwrap().to, expected);
    assert_eq!(Transaction::new(DYNAMIC_DEAD).unwrap().to, expected);
    assert_eq!(
        Transaction::new(&dynamic_long_beef()).unwrap().to,
        Some("000000000000000000000000000000000000beef".to_string())
    );
}

#[test]
fn transaction_new_accepts_the_prefix() {
    let with_prefix = format!("0x{}", DYNAMIC_DEAD);
    assert_eq!(
        Transaction::new(&with_prefix).unwrap().to,
        Some("000000000000000000000000000000000000dead".to_string())
    );
    let doubled = format!("0x0x{}", DYNAMIC_DEAD);
    assert_eq!(Transaction::decode(&doubled), Err(DecodeError::InvalidHex));
    let upper_prefix = format!("0X{}", DYNAMIC_DEAD);
    assert_eq!(Transaction::decode(&upper_prefix), Err(DecodeError::InvalidHex));
}

#[test]
fn transaction_new_keeps_the_case_of_the_digits() {
    let upper = format!("0x{}", LEGACY_DEAD.to_uppercase());
    assert_eq!(
        Transaction::new(&upper).unwrap().to,
        Some("000000000000000000000000000000000000DEAD".to_string())
    );
    let mixed = LEGACY_DEAD.replace("dead", "dEaD");
    assert_eq!(
        Transaction::new(&mixed).unwrap().to,
        Some("000000000000000000000000000000000000dEaD".to_string())
    );
}

#[test]
fn transaction_new_without_recipient() {
    assert_eq!(Transaction::new(LEGACY_CREATE), Ok(Transaction { to: None }));
    assert_eq!(Transaction::new(DYNAMIC_CREATE), Ok(Transaction { to: None }));
    assert_eq!(Transaction::new(LEGACY_ZERO), Ok(Transaction { to: None }));
}

#[test]
fn transaction_decode_errors() {
    assert_eq!(Transaction::decode(""), Err(DecodeError::TooShort));
    assert_eq!(Transaction::decode("0x"), Err(DecodeError::TooShort));
    assert_eq!(Transaction::decode("0"), Err(DecodeError::InvalidHex));
    assert_eq!(Transaction::decode("0xf86"), Err(DecodeError::InvalidHex));
    assert_eq!(Transaction::decode("0xzz"), Err(DecodeError::InvalidHex));
    assert_eq!(Transaction::decode("f8 6c"), Err(DecodeError::InvalidHex));
    assert_eq!(Transaction::decode("\u{e9}\u{e9}"), Err(DecodeError::InvalidHex));
    assert_eq!(Transaction::decode("0x04c0"), Err(DecodeError::UnsupportedType));
    assert_eq!(Transaction::decode(LEGACY_SHORT_TO), Err(DecodeError::Malformed));
    assert_eq!(Transaction::decode(&LEGACY_DEAD[..60]), Err(DecodeError::TooShort));
}

#[test]
fn transaction_decode_agrees_with_new() {
    assert_eq!(Transaction::decode(LEGACY_DEAD).ok(), Transaction::new(LEGACY_DEAD).ok());
    assert_eq!(Transaction::decode(DYNAMIC_CREATE), Ok(Transaction { to: None }));
    assert_eq!(
        Transaction::decode(ACCESS_DEAD).unwrap().to,
        Some("000000000000000000000000000000000000dead".to_string())
    );
}

#[test]
fn transaction_new_reports_errors_in_words() {
    assert_eq!(Transaction::new(""), Err("too short".to_string()));
    assert_eq!(Transaction::new(&LEGACY_DEAD[..60]), Err("too short".to_string()));
    assert_eq!(Transaction::new("0xzz"), Err("not hexadecimal".to_string()));
    assert_eq!(Transaction::new("0x04c0"), Err("unsupported transaction type".to_string()));
    assert_eq!(Transaction::new(LEGACY_SHORT_TO), Err("malformed transaction".to_string()));
}

#[test]
fn decode_error_messages() {
    assert_eq!(DecodeError::TooShort.message(), "too short");
    assert_eq!(DecodeError::InvalidHex.message(), "not hexadecimal");
    assert_eq!(DecodeError::UnsupportedType.message(), "unsupported transaction type");
    assert_eq!(DecodeError::Malformed.message(), "malformed transaction");
}
