use diag_adapter::bits::extract_bits;
use diag_adapter::interfaces::service_ids;
use diag_adapter::util::{
    decode_hex, ends_with_ignore_ascii_case, starts_with_ignore_ascii_case,
    try_extract_sid_from_payload,
};
#[test]
fn test_extract_bits_standard_length_cases() {
    let result = extract_bits(4, 5, &[0b_1100_0011, 0b_1010_1000]).unwrap();
    assert_eq!(result, vec![0b_1101]);

    let result = extract_bits(8, 0, &[0b_1010_1000]).unwrap();
    assert_eq!(result, vec![0b_1010_1000]);

    let result = extract_bits(8, 0, &[0xFF, 0x00]).unwrap();
    assert_eq!(result, vec![0]);

    // Test standard length with byte alignment
    // 16 bits from 2 bytes, no offset
    // Should extract bytes as is since we're starting at bit 0
    let result = extract_bits(16, 0, &[0xAB, 0xCD]).unwrap();
    assert_eq!(result, vec![0xAB, 0xCD]);

    // bits are read LSB first, therefore 18 bits 1, which means 6 most significant bits = 0
    let result = extract_bits(18, 0, &[0xFF, 0xFF, 0xFF]).unwrap();
    assert_eq!(result, vec![0b_11, 0xFF, 0xFF]);

    // Extracting 13 bits starting from bit position 5
    // 101010111100110101000010 -- input
    //      1010101111001101010 -- from bit pos 5
    //            1111001101010 -- 13 bits
    //        00011110 01101010 -- 2 result bytes
    let result = extract_bits(13, 5, &[0b_1010_1011, 0b_1100_1101, 0b_0100_0010]).unwrap();
    assert_eq!(result, vec![0b_0001_1110, 0b_0110_1010]);

    // Extracting 3 bits starting from bit position 5
    // Byte 0: 0xab = 10101011
    //
    // Byte 0: -----101  --> take bits 5-7 from first byte  (total bits 3)
    let result = extract_bits(3, 5, &[0xAB]).unwrap();
    assert_eq!(result, vec![0b_101]);

    // Extracting 4 bits starting from bit position 6
    // 1111000000001111 -- input
    //       1111000000 -- from bit pos 6
    //          1000000 -- 5 bits
    let result = extract_bits(7, 6, &[0b_1111_0000, 0b_0000_1111]).unwrap();
    assert_eq!(result, vec![0b_0100_0000]);
}

#[test]
fn test_extract_bits_error_cases() {
    // Test insufficient data
    assert!(extract_bits(16, 0, &[0xAB]).is_err());

    // Test invalid bit position
    assert!(extract_bits(8, 8, &[0xFF]).is_err());

    // Test zero bits
    assert!(extract_bits(0, 0, &[0xFF]).is_err());
}

#[test]
fn test_extract_bits_basic() {
    let src = [0b_1010_1010];
    let result = extract_bits(8, 0, &src).unwrap();
    assert_eq!(result, vec![0b_1010_1010]);
}

#[test]
fn test_decode_hex() {
    let result = decode_hex("A3F").unwrap();
    assert_eq!(result, vec![0xA3, 0x0F]);
    let result = decode_hex("0A3F").unwrap();
    assert_eq!(result, vec![0x0A, 0x3F]);
}

#[test]
fn test_try_extract_sid() {
    let src_ok = [0x20, 0x10];
    let res = try_extract_sid_from_payload(&src_ok);
    assert!(res.is_ok());
    assert_eq!(res.unwrap(), 0x20);

    let nrc_ok = [service_ids::NEGATIVE_RESPONSE, 0x15];
    let res = try_extract_sid_from_payload(&nrc_ok);
    assert!(res.is_ok());
    assert_eq!(res.unwrap(), 0x15);

    // empty should error
    let res = try_extract_sid_from_payload(&[]);
    assert!(res.is_err());

    // nrc without sid should error
    let res = try_extract_sid_from_payload(&[service_ids::NEGATIVE_RESPONSE]);
    assert!(res.is_err());
}

#[test]
fn test_starts_with_ignore_ascii_case() {
    assert!(starts_with_ignore_ascii_case("HelloWorld", "hello"));
    assert!(starts_with_ignore_ascii_case("hello", "HELLO"));
    assert!(starts_with_ignore_ascii_case("abc", ""));
    assert!(!starts_with_ignore_ascii_case("hel", "hello"));
    assert!(!starts_with_ignore_ascii_case("world", "wx"));
    // a prefix that would end inside a multi-byte character never matches
    assert!(!starts_with_ignore_ascii_case("\u{e9}a", "x"));
    assert!(starts_with_ignore_ascii_case("\u{e9}A", "\u{e9}a"));
}

#[test]
fn test_ends_with_ignore_ascii_case() {
    assert!(ends_with_ignore_ascii_case("file.MDD", ".mdd"));
    assert!(ends_with_ignore_ascii_case("abc", ""));
    assert!(!ends_with_ignore_ascii_case("dd", ".mdd"));
    assert!(!ends_with_ignore_ascii_case("file.mdx", ".mdd"));
    // a suffix that would start inside a multi-byte character never matches
    assert!(!ends_with_ignore_ascii_case("a\u{e9}", "x"));
    assert!(ends_with_ignore_ascii_case("X\u{e9}", "x\u{e9}"));
}
