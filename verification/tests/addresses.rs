use rpc_shield::address::{Address, AddressSet};
use rpc_shield::utils::{address_from_digits, option_string_to_h160};

fn dead() -> Address {
    let mut bytes = [0u8; 20];
    bytes[18] = 0xde;
    bytes[19] = 0xad;
    Address { bytes }
}

#[test]
fn from_slice_keeps_twenty_bytes() {
    let src: Vec<u8> = (1..=20).collect();
    let a = Address::from_slice(&src);
    assert_eq!(a.bytes.to_vec(), src);
}

#[test]
fn from_slice_fills_a_short_slice_in_front() {
    let a = Address::from_slice(&[0xde, 0xad]);
    assert_eq!(a, dead());
    assert_eq!(Address::from_slice(&[]).bytes, [0u8; 20]);
}

#[test]
fn from_slice_keeps_the_end_of_a_long_slice() {
    let src: Vec<u8> = (0..32).collect();
    let a = Address::from_slice(&src);
    let expected: Vec<u8> = (12..32).collect();
    assert_eq!(a.bytes.to_vec(), expected);
}

#[test]
fn same_compares_the_bytes() {
    let a = dead();
    let mut other = dead();
    assert!(a.same(&other));
    other.bytes[0] = 1;
    assert!(!a.same(&other));
    other.bytes[0] = 0;
    other.bytes[19] = 0xae;
    assert!(!a.same(&other));
}

#[test]
fn to_text_writes_lower_case_digits_behind_the_prefix() {
    assert_eq!(dead().to_text(), "0x000000000000000000000000000000000000dead");
    let src: Vec<u8> = (0..20).map(|i| 0xf0 + i).collect();
    assert_eq!(
        Address::from_slice(&src).to_text(),
        "0xf0f1f2f3f4f5f6f7f8f9fafbfcfdfeff00010203"
    );
}

#[test]
fn address_set_holds_what_it_was_built_from() {
    let beef = Address::from_slice(&[0xbe, 0xef]);
    let set = AddressSet::from_vec(vec![dead(), dead()]);
    assert!(set.contains(&dead()));
    assert!(!set.contains(&beef));
    assert!(!set.is_empty());
    let both = AddressSet::from_vec(vec![beef, dead()]);
    assert!(both.contains(&beef));
    assert!(both.contains(&dead()));
}

#[test]
fn empty_address_set_holds_nothing() {
    let set = AddressSet::from_vec(Vec::new());
    assert!(set.is_empty());
    assert!(!set.contains(&dead()));
    assert!(!set.contains(&Address { bytes: [0u8; 20] }));
}

#[test]
fn option_string_to_h160_reads_digits_of_either_case() {
    let lower = option_string_to_h160(Some("000000000000000000000000000000000000dead".to_string()));
    let upper = option_string_to_h160(Some("000000000000000000000000000000000000DEAD".to_string()));
    let mixed = option_string_to_h160(Some("000000000000000000000000000000000000dEaD".to_string()));
    assert_eq!(lower, Some(dead()));
    assert_eq!(upper, Some(dead()));
    assert_eq!(mixed, Some(dead()));
}

#[test]
fn option_string_to_h160_of_nothing_is_nothing() {
    assert_eq!(option_string_to_h160(None), None);
}

#[test]
fn option_string_to_h160_of_text_that_spells_no_address_is_nothing() {
    assert_eq!(option_string_to_h160(Some("not hex".to_string())), None);
    assert_eq!(option_string_to_h160(Some("zz".to_string())), None);
    assert_eq!(option_string_to_h160(Some("abc".to_string())), None);
    assert_eq!(option_string_to_h160(Some(String::new())), None);
    assert_eq!(option_string_to_h160(Some("0xdead".to_string())), None);
    assert_eq!(option_string_to_h160(Some("\u{e9}\u{e9}".to_string())), None);
}

#[test]
fn option_string_to_h160_aligns_other_lengths_on_the_last_byte() {
    assert_eq!(option_string_to_h160(Some("dead".to_string())), Some(dead()));
    assert_eq!(option_string_to_h160(Some("00".to_string())), Some(Address { bytes: [0u8; 20] }));
    let long = format!("{}{}", "11".repeat(12), "000000000000000000000000000000000000dead");
    assert_eq!(option_string_to_h160(Some(long)), Some(dead()));
}

#[test]
fn address_from_digits_reads_digits_that_spell_an_address() {
    assert_eq!(address_from_digits("000000000000000000000000000000000000dEaD"), Some(dead()));
    assert_eq!(address_from_digits("dead"), Some(dead()));
    assert_eq!(address_from_digits(""), None);
    assert_eq!(address_from_digits("d"), None);
    assert_eq!(address_from_digits("xy"), None);
}
