use nitro_attestation::hex_codec::{decode_prefixed_hex, encode_prefixed_hex, strip_hex_prefix, HexError};

#[test]
fn encode_is_prefixed_lowercase() {
    assert_eq!(encode_prefixed_hex(&[0x00, 0x0f, 0xa0, 0xff]), "0x000fa0ff");
    assert_eq!(encode_prefixed_hex(&[]), "0x");
}

#[test]
fn strip_removes_every_leading_prefix() {
    assert_eq!(strip_hex_prefix("0x0x0xab"), "ab");
    assert_eq!(strip_hex_prefix("0X12"), "0X12");
    assert_eq!(strip_hex_prefix("00x1"), "00x1");
    assert_eq!(strip_hex_prefix("0x"), "");
    assert_eq!(strip_hex_prefix("é0x"), "é0x");
}

#[test]
fn decode_reads_both_cases() {
    assert_eq!(decode_prefixed_hex("0xDeadBEEF").unwrap(), vec![0xde, 0xad, 0xbe, 0xef]);
    assert_eq!(decode_prefixed_hex("").unwrap(), Vec::<u8>::new());
}

#[test]
fn decode_reports_the_first_bad_byte() {
    assert_eq!(decode_prefixed_hex("0x1"), Err(HexError::OddLength));
    assert_eq!(
        decode_prefixed_hex("0xa g "),
        Err(HexError::InvalidHexCharacter { c: ' ', index: 1 })
    );
    assert_eq!(decode_prefixed_hex("0x0X"), Err(HexError::InvalidHexCharacter { c: 'X', index: 1 }));
}

#[test]
fn encode_then_decode_gives_bytes_back() {
    let bytes: Vec<u8> = (0..=255u8).collect();
    assert_eq!(decode_prefixed_hex(&encode_prefixed_hex(&bytes)).unwrap(), bytes);
}
