use rpc_shield::base16::decode_hex;

#[test]
fn decode_hex_reads_digits_of_either_case() {
    assert_eq!(decode_hex("00ff10Ab"), Some(vec![0x00, 0xff, 0x10, 0xab]));
    assert_eq!(decode_hex("DEADbeef"), Some(vec![0xde, 0xad, 0xbe, 0xef]));
    assert_eq!(decode_hex(""), Some(vec![]));
}

#[test]
fn decode_hex_refuses_other_text() {
    assert_eq!(decode_hex("abc"), None);
    assert_eq!(decode_hex("zz"), None);
    assert_eq!(decode_hex("0x12"), None);
    assert_eq!(decode_hex("\u{e9}\u{e9}"), None);
    assert_eq!(decode_hex("a\u{e9}"), None);
}
