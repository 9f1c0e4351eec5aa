use diag_adapter::coded_type::{
    DataType, DiagCodedType, DiagCodedTypeVariant, MinMaxLengthType, StandardLengthType,
    Termination,
};
use diag_adapter::coding::{
    apply_bit_mask, apply_condensed_mask_packing, apply_condensed_mask_unpacking, inject_bits,
    normalize_byte_order, pack_data, unpack_data, ByteOrder, DataAlignment, Mask,
};
use diag_adapter::error::DiagServiceError;
use diag_adapter::util::decode_hex;
#[test]
fn test_param_length_info_helpers() {
    let diag_type = DiagCodedType::new_high_low_byte_order(
        DataType::ByteField,
        DiagCodedTypeVariant::ParamLengthInfo("LEN_KEY".to_owned()),
    )
    .unwrap();

    assert_eq!(diag_type.bit_len(), None);
    assert_eq!(diag_type.length_key_name(), Some("LEN_KEY"));
}

#[test]
fn test_param_length_info_decode_requires_runtime_length() {
    let diag_type = DiagCodedType::new_high_low_byte_order(
        DataType::ByteField,
        DiagCodedTypeVariant::ParamLengthInfo("LK".to_owned()),
    )
    .unwrap();

    let err = diag_type.decode(&[0xAA, 0xBB], 0, 0).unwrap_err();
    let msg = err.to_string();
    assert!(msg.contains("decode_with_runtime_byte_length"));
}

#[test]
fn test_param_length_info_runtime_decode_and_encode() {
    let diag_type = DiagCodedType::new_high_low_byte_order(
        DataType::ByteField,
        DiagCodedTypeVariant::ParamLengthInfo("LK".to_owned()),
    )
    .unwrap();

    let (bytes, bit_len) = diag_type
        .decode_with_runtime_byte_length(&[0x10, 0x20, 0x30, 0x40], 1, 2)
        .unwrap();
    assert_eq!(bytes, vec![0x20, 0x30]);
    assert_eq!(bit_len, 16);

    let (empty, empty_len) = diag_type
        .decode_with_runtime_byte_length(&[0x10, 0x20], 1, 0)
        .unwrap();
    assert!(empty.is_empty());
    assert_eq!(empty_len, 0);

    let mut uds_payload = Vec::new();
    diag_type
        .encode(vec![0xDE, 0xAD, 0xBE, 0xEF], &mut uds_payload, 0, 0)
        .unwrap();
    assert_eq!(uds_payload, vec![0xDE, 0xAD, 0xBE, 0xEF]);

    // Encoding zero bytes must be a no-op (payload must remain unchanged).
    let mut empty_payload = vec![0xFFu8; 2];
    diag_type.encode(vec![], &mut empty_payload, 0, 0).unwrap();
    assert_eq!(
        empty_payload,
        vec![0xFF, 0xFF],
        "zero-length encode must not modify payload"
    );
}

#[test]
fn test_unpack_data_masked() {
    let mask = Mask {
        data: vec![0b_1111_0000],
        condensed: false,
    };
    let payload: Vec<u8> = vec![0b_1010_1010];
    // 10101010 -- payload
    // 11110000 -- mask
    // ----------
    // 10100000
    let (data, bit_len) = unpack_data(8, 0, Some(&mask), &payload, ByteOrder::Keep).unwrap();
    assert_eq!(data, vec![0b_1010_0000]);
    assert_eq!(bit_len, 8);
}
#[test]
fn test_unpack_data_condensed() {
    let mask = Mask {
        data: vec![0b_1111_0000],
        condensed: true,
    };
    let payload: Vec<u8> = vec![0b_1010_1111];
    // 10101010 -- payload
    // 11110000 -- mask
    // 10100000 -- to condense extract the bits from the payload where the mask has "1"s.
    // 1010     --> pad msb
    // 00001010 --> result byte
    let (data, bit_len) = unpack_data(8, 0, Some(&mask), &payload, ByteOrder::Keep).unwrap();
    assert_eq!(data, vec![0b_0000_1010]);
    assert_eq!(bit_len, 4);
}

#[test]
fn test_unpack_data_condensed_complex() {
    let mask = Mask {
        data: vec![0b_1010_1010, 0b_0101_0101],
        condensed: true,
    };

    // 11111111 -- payload
    // 10101010 -- mask
    // ----------> apply mask
    // 10101010 -- to condense extract the bits from the payload where the mask has "1"s.
    // 1-1-1-1-
    let payload: Vec<u8> = vec![0b_1111_1111, 0b_1111_1111];
    let (data, bit_len) = unpack_data(8, 0, Some(&mask), &payload, ByteOrder::Keep).unwrap();
    assert_eq!(data, vec![0b_0000_1111]);
    assert_eq!(bit_len, 8);
}

#[test]
fn test_unpack_data_condensed_all_zeros() {
    let mask = Mask {
        data: vec![0b_0000_0000, 0b_0000_0000],
        condensed: true,
    };

    let payload: Vec<u8> = vec![0b_1111_1111, 0b_1111_1111];
    let (data, bit_len) = unpack_data(8, 0, Some(&mask), &payload, ByteOrder::Keep).unwrap();
    // If condensed is set to true, bits are only added to the result if the mask bit is 1.
    // As the mask is all zeros and the length of the result is equal to the count of
    // '1's in the mask, the result should be empty.
    assert!(data.is_empty());
    assert_eq!(bit_len, 0);
}

#[test]
fn test_unpack_data_condensed_sparse() {
    let mask = Mask {
        data: vec![0b_1000_0001],
        condensed: true,
    };

    let payload: Vec<u8> = vec![0b_1000_0001];
    let (data, bit_len) = unpack_data(8, 0, Some(&mask), &payload, ByteOrder::Keep).unwrap();
    assert_eq!(data, vec![0b_0000_0011]);
    assert_eq!(bit_len, 2);
}

#[test]
fn test_unpack_data_byte_order_cases() {
    let (data, bit_len) = unpack_data(16, 0, None, &[0x12, 0x34], ByteOrder::Reverse).unwrap();
    assert_eq!(data, vec![0x34, 0x12]);
    assert_eq!(bit_len, 16);

    let (data, bit_len) =
        unpack_data(32, 0, None, &[0x12, 0x34, 0x56, 0x78], ByteOrder::Reverse).unwrap();
    assert_eq!(data, vec![0x78, 0x56, 0x34, 0x12]);
    assert_eq!(bit_len, 32);

    // Test Unicode2String byte pair reversal
    let (data, bit_len) = unpack_data(
        32,
        0,
        None,
        &[0x12, 0x34, 0x56, 0x78],
        ByteOrder::ReorderPairs,
    )
    .unwrap();
    assert_eq!(data, vec![0x34, 0x12, 0x78, 0x56]);
    assert_eq!(bit_len, 32);

    // Test Unicode2String byte pair reversal with odd number of bytes
    let (data, bit_len) =
        unpack_data(24, 0, None, &[0x12, 0x34, 0x56], ByteOrder::ReorderPairs).unwrap();
    assert_eq!(data, vec![0x34, 0x12, 0x56]);
    assert_eq!(bit_len, 24);

    // Test byte reversal with masking
    let mask = Mask {
        data: vec![0xFF, 0x0F],
        condensed: false,
    };
    let (data, bit_len) =
        unpack_data(16, 0, Some(&mask), &[0x12, 0x34], ByteOrder::Reverse).unwrap();
    // First reverse bytes: [0x34, 0x12]
    // Then apply mask:     [0xFF, 0x0F]
    // Result:             [0x34, 0x02]
    assert_eq!(data, vec![0x34, 0x02]);
    assert_eq!(bit_len, 16);

    // Test byte reversal with condensed masking
    let mask = Mask {
        data: vec![0b_1111_0000, 0b_1111_0000],
        condensed: true,
    };
    let (data, bit_len) = unpack_data(
        16,
        0,
        Some(&mask),
        &[0b_1100_1100, 0b_0011_0011],
        ByteOrder::Reverse,
    )
    .unwrap();
    // First reverse bytes, then apply condensed mask:
    // 0011_0011 1100_1100
    // 1111_0000 1111_0000
    // ---------------
    // 0011_---- 1100_---
    assert_eq!(data, vec![0b_0011_1100]);
    assert_eq!(bit_len, 8);
}

#[test]
fn test_data_packing() {
    // simple case, no mask, no truncation
    let source_value = vec![0, 0, 0, 4];
    let (result, len) = pack_data(4, 0, None, &source_value, DataAlignment::Right).unwrap();
    assert_eq!(result, vec![4]);
    assert_eq!(len, 4);

    // CONDENSED = false, truncate above BitLength, apply bitwise AND with mask
    let mask = Mask {
        data: vec![0b_0101_0101],
        condensed: false,
    };
    let source_value = vec![0b_0101_0000];
    // bit_length = 8, so no truncation, mask applied
    let (result, len) =
        pack_data(8, 0, Some(&mask), &source_value, DataAlignment::Right).unwrap();
    assert_eq!(result, vec![0b_0101_0000]);
    assert_eq!(len, 8);

    // test extending of bits via condensed
    let mask = Mask {
        data: vec![0b_0101_0101],
        condensed: true,
    };
    let source_value = vec![0b_0000_1100];
    // 0101_0101 -- mask
    // 0000_1100 -- source value
    // 0101_0000 -- init output with mask, then copy bits from source value
    // where mask is 1
    let (result, len) =
        pack_data(8, 0, Some(&mask), &source_value, DataAlignment::Right).unwrap();
    assert_eq!(result, vec![0b_0101_0000]);
    assert_eq!(len, 8);

    // CONDENSED = false, truncate above BitLength
    let mask = Mask {
        data: vec![0b_1111_1111],
        condensed: false,
    };
    let source_value = vec![0b_1111_1111, 0b_1111_1111];
    let (result, len) =
        pack_data(8, 0, Some(&mask), &source_value, DataAlignment::Right).unwrap();
    // Only first 8 bits should remain, second byte truncated
    assert_eq!(result, vec![0b_1111_1111]);
    assert_eq!(len, 8);

    let mask = Mask {
        data: vec![0b_1010_1010],
        condensed: true,
    };
    let source_value = vec![0b_1111_0000];
    // 1010_1010 -- mask
    // 1111_0000 -- value
    // Mask bits from LSB | output | bit of value
    // 0 | 0 | -
    // 1 | 0 | 0
    // 0 | 0 | -
    // 1 | 0 | 1
    // 0 | 0 | -
    // 1 | 0 | 2
    // 0 | 0 | -
    // 1 | 0 | 3
    let (result, len) =
        pack_data(8, 0, Some(&mask), &source_value, DataAlignment::Right).unwrap();
    assert_eq!(result, vec![0]);
    assert_eq!(len, 8);

    // CONDENSED = true, mask with all 1s
    let mask = Mask {
        data: vec![0b_1111_1111],
        condensed: true,
    };
    let source_value = vec![0b_1010_1010];
    // 1010_1010 -- value
    // 1111_1111 -- mask
    // 1010_1010 -- bits of source where mask = 1
    let (result, len) =
        pack_data(8, 0, Some(&mask), &source_value, DataAlignment::Right).unwrap();
    assert_eq!(result, vec![0b_1010_1010]);
    assert_eq!(len, 8);

    // CONDENSED = true, mask with sparse 1s
    let mask = Mask {
        data: vec![0b_1000_0001],
        condensed: true,
    };
    let source_value = vec![0b_11];

    // 1000_0001 -- mask
    // 0000_0011 -- value
    let (result, len) =
        pack_data(8, 0, Some(&mask), &source_value, DataAlignment::Right).unwrap();
    assert_eq!(result, vec![0b_1000_0001]);
    assert_eq!(len, 8);

    // No mask, truncate above bit_length
    let source_value = vec![0b_1111_1111, 0b_1111_1111];
    let (result, len) = pack_data(8, 0, None, &source_value, DataAlignment::Right).unwrap();
    assert_eq!(result, vec![0b_1111_1111]);
    assert_eq!(len, 8);

    // Truncate to 5 bits, no mask
    let source_value = vec![0b_1111_1111];
    let (result, len) = pack_data(5, 0, None, &source_value, DataAlignment::Right).unwrap();
    // Only first 5 bits remain: 11111 (0b_0001_1111 = 31)
    assert_eq!(result, vec![0b_0001_1111]);
    assert_eq!(len, 5);

    // Truncate to 12 bits, no mask
    let source_value = vec![0b_1111_1111, 0b_1111_1111];
    let (result, len) = pack_data(12, 0, None, &source_value, DataAlignment::Right).unwrap();
    // Only first 12 bits remain: 0b_1111_1111_1111 (0xFFF)
    assert_eq!(result, vec![0b_1111_1111, 0b_0000_1111]);
    assert_eq!(len, 12);

    // Mask with bit_length = 5, condensed = false
    let mask = Mask {
        data: vec![0b_0001_1111],
        condensed: false,
    };
    let source_value = vec![0b_1111_1111];
    let (result, len) =
        pack_data(5, 0, Some(&mask), &source_value, DataAlignment::Right).unwrap();
    // Only first 5 bits, mask applied: 11111 & 11111 = 11111
    assert_eq!(result, vec![0b_0001_1111]);
    assert_eq!(len, 5);

    // Mask with bit_length = 10, condensed = false
    let mask = Mask {
        data: vec![0b_1111_1111, 0b_0000_0011],
        condensed: false,
    };
    let source_value = vec![0b_1111_1111, 0b_1111_1111];
    let (result, len) =
        pack_data(10, 0, Some(&mask), &source_value, DataAlignment::Right).unwrap();
    // Only first 10 bits, mask applied: 11111111_11 & 11111111_11 = 11111111_11
    assert_eq!(result, vec![0b_1111_1111, 0b_0000_0011]);
    assert_eq!(len, 10);

    // Mask with bit_length = 5, condensed = true
    let mask = Mask {
        data: vec![0b_0001_1111],
        condensed: true,
    };
    let source_value = vec![0b_1111_1111];
    let (result, len) =
        pack_data(5, 0, Some(&mask), &source_value, DataAlignment::Right).unwrap();
    assert_eq!(result, vec![0b_0001_1111]);
    assert_eq!(len, 8);

    // Mask with bit_length = 10, condensed = true
    let mask = Mask {
        data: vec![0b_1111_1111, 0b_0000_0011],
        condensed: true,
    };
    let source_value = vec![0b_1111_1111, 0b11];
    // 1111_1111 0000_0011 -- input
    // 1111_1111 0000_0011 -- mask
    let (result, len) =
        pack_data(10, 0, Some(&mask), &source_value, DataAlignment::Right).unwrap();
    assert_eq!(result, vec![0b_1100_0000, 0b_0000_0011]);
    assert_eq!(len, 16);

    // Test with bit_pos != 0
    let source_value = vec![0b_1010_1010];
    // Pack 5 bits starting at bit_pos 3
    let (result, len) = pack_data(5, 3, None, &source_value, DataAlignment::Right).unwrap();
    assert_eq!(result, vec![0b_01010]);
    assert_eq!(len, 5);
}

#[test]
fn test_data_packing_left_alignment() {
    // Left-aligned: data occupies leading bytes, trailing bytes are zero-padded.
    // 3 bytes of data into a 4-byte (32-bit) buffer.
    let source = vec![0xAA, 0xBB, 0xCC];
    let (result, len) = pack_data(32, 0, None, &source, DataAlignment::Left).unwrap();
    assert_eq!(result, vec![0xAA, 0xBB, 0xCC, 0x00]);
    assert_eq!(len, 32);

    // Right-aligned (same input): data occupies trailing bytes.
    let (result, len) = pack_data(32, 0, None, &source, DataAlignment::Right).unwrap();
    assert_eq!(result, vec![0x00, 0xAA, 0xBB, 0xCC]);
    assert_eq!(len, 32);

    // When data exactly matches buffer size, alignment doesn't matter.
    let source = vec![0xAA, 0xBB, 0xCC, 0xDD];
    let (result_left, _) = pack_data(32, 0, None, &source, DataAlignment::Left).unwrap();
    let (result_right, _) = pack_data(32, 0, None, &source, DataAlignment::Right).unwrap();
    assert_eq!(result_left, result_right);
    assert_eq!(result_left, vec![0xAA, 0xBB, 0xCC, 0xDD]);

    // When data is larger than buffer, left takes leading bytes, right takes trailing bytes.
    let source = vec![0xAA, 0xBB, 0xCC, 0xDD, 0xEE];
    let (result_left, _) = pack_data(32, 0, None, &source, DataAlignment::Left).unwrap();
    let (result_right, _) = pack_data(32, 0, None, &source, DataAlignment::Right).unwrap();
    assert_eq!(result_left, vec![0xAA, 0xBB, 0xCC, 0xDD]);
    assert_eq!(result_right, vec![0xBB, 0xCC, 0xDD, 0xEE]);

    // Left-aligned with mask (non-condensed).
    let mask = Mask {
        data: vec![0xFF, 0xFF, 0x0F, 0x00],
        condensed: false,
    };
    let source = vec![0xAA, 0xBB, 0xCC];
    let (result, len) = pack_data(32, 0, Some(&mask), &source, DataAlignment::Left).unwrap();
    // Left-aligned: [0xAA, 0xBB, 0xCC, 0x00], then masked with [0xFF, 0xFF, 0x0F, 0x00]
    assert_eq!(result, vec![0xAA, 0xBB, 0x0C, 0x00]);
    assert_eq!(len, 32);

    // 63 bytes into a 64-byte (512-bit) buffer, left-aligned.
    let source: Vec<u8> = (0x30..=0x6E).collect(); // 63 bytes: 0x30..0x6E
    assert_eq!(source.len(), 63);
    let (result, len) = pack_data(512, 0, None, &source, DataAlignment::Left).unwrap();
    assert_eq!(len, 512);
    assert_eq!(result.len(), 64);
    assert_eq!(result.get(..63).unwrap(), &source[..]);
    assert_eq!(*result.get(63).unwrap(), 0x00);
}

fn test_min_max_length(
    min_length: u32,
    max_length: u32,
    payload: &[u8],
    expected: &[u8],
    base_datatype: DataType,
    termination: Termination,
) -> Result<(), DiagServiceError> {
    test_min_max_length_with_byte_pos(
        min_length,
        max_length,
        payload,
        expected,
        0,
        base_datatype,
        termination,
    )
}

fn test_min_max_length_with_byte_pos(
    min_length: u32,
    max_length: u32,
    payload: &[u8],
    expected: &[u8],
    byte_pos: usize,
    base_datatype: DataType,
    termination: Termination,
) -> Result<(), DiagServiceError> {
    let diag_type = DiagCodedType::new_high_low_byte_order(
        base_datatype,
        DiagCodedTypeVariant::MinMaxLength(MinMaxLengthType {
            min_length,
            max_length: Some(max_length),
            termination,
        }),
    )?;

    let (data, bit_len) = diag_type.decode(payload, byte_pos, 0)?;
    assert_eq!(data, expected);
    assert_eq!(bit_len, expected.len().saturating_mul(8));
    Ok(())
}

#[test]
fn test_min_max_length_ascii_zero_termination() {
    // Test normal case with zero termination
    assert!(
        test_min_max_length(
            2,
            10,
            &[b'a', b'b', 0x00, 0xFF], // payload with zero termination after min length
            b"ab",                     // expected: only ab without termination
            DataType::AsciiString,
            Termination::Zero,
        )
        .is_ok()
    );

    // Test reaching max length without termination
    assert!(
        test_min_max_length(
            2,
            4,
            &[b'a', b'b', b'c', b'd', 0x00], // payload longer than max_length
            b"abcd",                         // expected: only up to max_length
            DataType::AsciiString,
            Termination::Zero,
        )
        .is_ok()
    );
}

#[test]
fn test_min_max_length_utf8_ff_termination() {
    // Test normal case with FF termination
    assert!(
        test_min_max_length(
            2,
            10,
            &[0x68, 0x69, 0xFF, 0x00], // "hi" followed by FF termination
            &[0x68, 0x69],             // expected: only "hi"
            DataType::Utf8String,
            Termination::HexFF,
        )
        .is_ok()
    );

    // Test reaching end of PDU after min length
    assert!(
        test_min_max_length(
            2,
            10,
            &[0x68, 0x69, 0x6F], // "hio" without termination
            &[0x68, 0x69, 0x6F], // expected: entire payload
            DataType::Utf8String,
            Termination::HexFF,
        )
        .is_ok()
    );
}

#[test]
fn test_min_max_length_unicode2_requirements() {
    // Test valid Unicode2String with even lengths
    test_min_max_length(
        4, // min length in bytes, must be even
        8,
        &[0x00, 0x61, 0x00, 0x62, 0x00, 0x00], // "ab" followed by 0x0000
        &[0x00, 0x61, 0x00, 0x62],             // expected: only "ab"
        DataType::Unicode2String,
        Termination::Zero,
    )
    .unwrap();

    assert!(
        test_min_max_length(
            3, // odd min length - should fail
            8,
            &[0x00, 0x61, 0x00, 0x62],
            &[],
            DataType::Unicode2String,
            Termination::Zero,
        )
        .is_err()
    );

    assert!(
        test_min_max_length(
            4,
            7, // odd max length - should fail
            &[0x00, 0x61, 0x00, 0x62],
            &[],
            DataType::Unicode2String,
            Termination::Zero,
        )
        .is_err()
    );
}

#[test]
fn test_min_max_length_termination_cases() {
    // Test termination after min_length but before max_length
    test_min_max_length(
        2,
        6,
        &[0x61, 0x62, 0x00, 0x63, 0x64], // "ab\0cd"
        &[0x61, 0x62],                   // should only include "ab"
        DataType::AsciiString,
        Termination::Zero,
    )
    .unwrap();

    // Test zero byte in content should not terminate when max_length reached
    test_min_max_length(
        2,
        4,
        &[0x61, 0x00, 0x63, 0x64], // "a\0cd"
        &[0x61, 0x00, 0x63, 0x64], // should include full content
        DataType::AsciiString,
        Termination::Zero,
    )
    .unwrap();

    // Test FF termination not included when max_length reached
    test_min_max_length(
        2,
        3,
        &[0x61, 0x62, 0x63, 0xFF], // "abc\xFF"
        &[0x61, 0x62, 0x63],       // should not include FF
        DataType::AsciiString,
        Termination::HexFF,
    )
    .unwrap();
    // Test end of PDU before reaching min_length
    assert!(
        test_min_max_length(
            4,
            6,
            &[0x61, 0x62],
            &[0x61, 0x62], // min length not reached, expect error
            DataType::AsciiString,
            Termination::HexFF,
        )
        .is_err()
    );
}

fn test_leading_length(
    bit_length: u32,
    byte_pos: usize,
    bit_pos: usize,
    payload: &[u8],
    expected: &[u8],
) -> Result<(), DiagServiceError> {
    let diag_type = DiagCodedType::new_high_low_byte_order(
        DataType::ByteField,
        DiagCodedTypeVariant::LeadingLengthInfo(bit_length),
    )?;

    let (data, bit_len) = diag_type.decode(payload, byte_pos, bit_pos)?;
    assert_eq!(data, expected);
    assert_eq!(bit_len, expected.len().saturating_mul(8));
    Ok(())
}

#[test]
fn test_leading_length_8bit() {
    test_leading_length(
        8,
        0,
        0,
        &[0x03, 0xAB, 0xCD, 0xEF], // First byte (0x03) indicates 3 bytes follow
        &[0xAB, 0xCD, 0xEF],       // Expected: 3 bytes after length byte
    )
    .unwrap();
}

#[test]
fn test_leading_length_16bit() {
    test_leading_length(
        16,
        0,
        0,
        &[0x00, 0x02, 0xCD, 0xEF], // First two bytes (0x0002) indicate 2 bytes follow
        &[0xCD, 0xEF],             // Expected: 2 bytes after length bytes
    )
    .unwrap();
}

#[test]
fn test_leading_length_32bit() {
    test_leading_length(
        32,
        0,
        0,
        &[0x00, 0x00, 0x00, 0x02, 0xCD, 0xEF], // First four bytes indicate 2 bytes follow
        &[0xCD, 0xEF],                         // Expected: 2 bytes after length bytes
    )
    .unwrap();
}

#[test]
fn test_leading_length_64bit() {
    test_leading_length(
        64,
        0,
        0,
        &[0x00, 0x00, 0x00, 0x00, 0x00, 0x00, 0x00, 0x02, 0xCD, 0xEF],
        &[0xCD, 0xEF],
    )
    .unwrap();
}

#[test]
fn test_leading_length_4bit() {
    test_leading_length(
        4,
        0,
        0,
        &[0b_1010_0011, 0x01, 0x02, 0x03, 0x04], // First 4 bits (1010) indicate 3 bytes
        &[0x01, 0x02, 0x03],                     // Expected: 3 bytes after length
    )
    .unwrap();
}

#[test]
fn test_leading_length_3bit() {
    test_leading_length(
        3,
        0,
        0,
        &[0x03, 0xAB, 0xCD, 0xEF], // First 3 bits indicate 3 bytes follow
        &[0xAB, 0xCD, 0xEF],
    )
    .unwrap();
}
#[test]
fn test_leading_length_insufficient_data() {
    assert!(
        test_leading_length(
            8,
            0,
            0,
            &[0x03, 0xAB], // Indicates 3 bytes but only 1 byte available
            &[],
        )
        .is_err()
    );
}

#[test]
fn test_leading_length_zero() {
    test_leading_length(8, 0, 0, &[0x00, 0xFF], &[]).unwrap();
}

#[test]
fn test_leading_length_max_value() {
    // Test with maximum possible value for 8-bit length
    let max_length = 0xFF;
    let mut payload = vec![max_length];
    let expected: Vec<u8> = (0..max_length).collect();
    payload.extend(&expected);

    test_leading_length(8, 0, 0, &payload, &expected).unwrap();
}

#[test]
fn test_unicode2string_length_violation() {
    assert!(DataType::Unicode2String.validate_bit_len(0).is_err());
    assert!(DataType::Unicode2String.validate_bit_len(15).is_err());
    assert!(DataType::Unicode2String.validate_bit_len(17).is_err());
    assert!(DataType::Unicode2String.validate_bit_len(16).is_ok());
    assert!(DataType::Unicode2String.validate_bit_len(32).is_ok());
}

#[test]
fn test_ascii_string_length_violation() {
    assert!(DataType::AsciiString.validate_bit_len(0).is_err());
    assert!(DataType::AsciiString.validate_bit_len(8).is_ok());
}

#[test]
fn test_utf8_string_length_violation() {
    assert!(DataType::Utf8String.validate_bit_len(0).is_err());
    assert!(DataType::Utf8String.validate_bit_len(8).is_ok());
}

#[test]
fn test_byte_field_length_violation() {
    assert!(DataType::ByteField.validate_bit_len(0).is_err());
    assert!(DataType::ByteField.validate_bit_len(8).is_ok());
}

fn test_encode_leading_length(
    bit_length: u32,
    input_data: &[u8],
    expected: &[u8],
) -> Result<(), DiagServiceError> {
    let diag_type = DiagCodedType::new_high_low_byte_order(
        DataType::ByteField,
        DiagCodedTypeVariant::LeadingLengthInfo(bit_length),
    )?;
    let mut uds_payload = Vec::new();
    diag_type.encode(input_data.to_owned(), &mut uds_payload, 0, 0)?;
    assert_eq!(uds_payload, expected);
    Ok(())
}

#[test]
fn test_encode_leading_length_8bit() {
    let input = vec![0xAB, 0xCD, 0xEF];
    let mut expected = vec![0x03];
    expected.extend(input.clone());
    test_encode_leading_length(8, &input, &expected).unwrap();
}

#[test]
fn test_encode_leading_length_16bit() {
    let input = vec![0xCD, 0xEF];
    let mut expected = vec![0x00, 0x02];
    expected.extend(input.clone());
    test_encode_leading_length(16, &input, &expected).unwrap();
}

#[test]
fn test_encode_leading_length_32bit() {
    let input = vec![0xCD, 0xEF];
    let mut expected = vec![0x00, 0x00, 0x00, 0x02];
    expected.extend(input.clone());
    test_encode_leading_length(32, &input, &expected).unwrap();
}

#[test]
fn test_encode_leading_length_4bit() {
    let input = vec![0x01, 0x02, 0x03];
    test_encode_leading_length(4, &input, &[3, 1, 2, 3]).unwrap();
}

fn test_encode_min_max_length(
    min_length: u32,
    max_length: u32,
    input_data: &[u8],
    expected: &[u8],
    base_datatype: DataType,
    termination: Termination,
) -> Result<(), DiagServiceError> {
    let diag_type = DiagCodedType::new_high_low_byte_order(
        base_datatype,
        DiagCodedTypeVariant::MinMaxLength(MinMaxLengthType {
            min_length,
            max_length: Some(max_length),
            termination,
        }),
    )?;
    let mut uds_payload = Vec::new();
    diag_type.encode(input_data.to_vec(), &mut uds_payload, 0, 0)?;
    assert_eq!(uds_payload, expected);
    Ok(())
}

#[test]
fn test_encode_min_max_length_ascii_zero_termination() {
    let input = vec![b'a', b'b'];
    let mut expected = input.clone();
    expected.push(0x00);
    test_encode_min_max_length(
        2,
        10,
        &input,
        &expected,
        DataType::AsciiString,
        Termination::Zero,
    )
    .unwrap();
}

#[test]
fn test_encode_min_max_length_utf8_ff_termination() {
    let input = vec![0x68, 0x69];
    let mut expected = input.clone();
    expected.push(0xFF);
    test_encode_min_max_length(
        2,
        10,
        &input,
        &expected,
        DataType::Utf8String,
        Termination::HexFF,
    )
    .unwrap();
}

#[test]
fn test_encode_min_max_length_unicode2_zero_termination() {
    let input = vec![0x00, 0x61, 0x00, 0x62];
    let mut expected = input.clone();
    expected.extend(vec![0x00, 0x00]);
    test_encode_min_max_length(
        4,
        8,
        &input,
        &expected,
        DataType::Unicode2String,
        Termination::Zero,
    )
    .unwrap();
}

#[test]
fn test_encode_min_max_length_unicode2_ff_termination() {
    let input = vec![0x00, 0x61, 0x00, 0x62];
    let mut expected = input.clone();
    expected.extend(vec![0xFF, 0xFF]);
    test_encode_min_max_length(
        4,
        8,
        &input,
        &expected,
        DataType::Unicode2String,
        Termination::HexFF,
    )
    .unwrap();
}

#[test]
fn test_encode_min_max_length_bytefield_end_of_pdu() {
    let input = vec![0x01, 0x02, 0x03];
    let expected = input.clone();
    test_encode_min_max_length(
        2,
        4,
        &input,
        &expected,
        DataType::ByteField,
        Termination::EndOfPdu,
    )
    .unwrap();
}

fn test_encode_standard_length(
    bit_length: u32,
    bit_mask: Option<&Vec<u8>>,
    condensed: bool,
    input_data: &[u8],
    expected: &[u8],
    base_datatype: DataType,
) -> Result<(), DiagServiceError> {
    test_encode_standard_length_with_byte_pos(
        0,
        bit_length,
        bit_mask,
        condensed,
        input_data,
        expected,
        base_datatype,
    )
}

fn test_encode_standard_length_with_byte_pos(
    byte_pos: usize,
    bit_length: u32,
    bit_mask: Option<&Vec<u8>>,
    condensed: bool,
    input_data: &[u8],
    expected: &[u8],
    base_datatype: DataType,
) -> Result<(), DiagServiceError> {
    let diag_type = DiagCodedType::new_high_low_byte_order(
        base_datatype,
        DiagCodedTypeVariant::StandardLength(StandardLengthType {
            bit_length,
            bit_mask: bit_mask.map(ToOwned::to_owned),
            condensed,
        }),
    )?;
    let mut uds_payload = vec![0; bit_length.div_ceil(8) as usize];
    diag_type.encode(input_data.to_owned(), &mut uds_payload, byte_pos, 0)?;
    assert_eq!(uds_payload, expected);
    Ok(())
}

#[test]
fn test_encode_standard_length_no_mask() {
    let input = [0x12, 0x34];
    let expected = input;
    test_encode_standard_length(16, None, false, &input, &expected, DataType::ByteField)
        .unwrap();
}

#[test]
fn test_encode_standard_length_bytefield_left_aligned() {
    // 63 bytes of data into a 512-bit (64-byte) ByteField.
    // Data should be left-aligned: first 63 bytes are data, last byte is 0x00.
    let input: Vec<u8> = (0x30..=0x6E).collect(); // 63 bytes
    assert_eq!(input.len(), 63);
    let mut expected = input.clone();
    expected.push(0x00); // trailing zero-pad
    test_encode_standard_length(512, None, false, &input, &expected, DataType::ByteField)
        .unwrap();
}

#[test]
fn test_encode_standard_length_bytefield_exact_length() {
    // 64 bytes into 512-bit (64-byte) ByteField -- exact fit, no padding needed.
    let input: Vec<u8> = (0x30..=0x6F).collect(); // 64 bytes
    assert_eq!(input.len(), 64);
    let expected = input.clone();
    test_encode_standard_length(512, None, false, &input, &expected, DataType::ByteField)
        .unwrap();
}

#[test]
fn test_encode_standard_length_bytefield_user_hex_input() {
    // 126-char hex string decoded to 63 bytes encoded into a 512-bit StandardLength ByteField.
    let hex_input = "102030405060708090A0B0C0D0E0F00010203040\
102030405060708090A0B0C0D0E0F00010203040\
102030405060708090A0B0C0D0E0F00010203040\
102030";
    let input = decode_hex(hex_input).unwrap();
    assert_eq!(input.len(), 63);
    let mut expected = input.clone();
    expected.push(0x00); // trailing zero-pad, NOT leading
    test_encode_standard_length(512, None, false, &input, &expected, DataType::ByteField)
        .unwrap();
}

#[test]
fn test_encode_standard_length_uint32_right_aligned() {
    // Numeric types should remain right-aligned (leading zero-pad).
    // 2 bytes of data into a 32-bit (4-byte) UInt32.
    let input = [0x12, 0x34];
    let expected = [0x00, 0x00, 0x12, 0x34]; // leading zero-pad for numeric
    test_encode_standard_length(32, None, false, &input, &expected, DataType::UInt32).unwrap();
}

#[test]
fn test_encode_standard_length_with_mask() {
    let input = [0x12, 0x34];
    let expected = [0x12, 0x04];
    test_encode_standard_length(
        16,
        Some(&vec![0xFF, 0x0F]),
        false,
        &input,
        &expected,
        DataType::ByteField,
    )
    .unwrap();
}

#[test]
fn test_encode_standard_length_condensed() {
    // 1111_1111 0000_1111 -- mask
    // 0001_0010 0011_0100 -- input
    // 0010_0011 0000_0100 -- condensed input
    // 1111_1111  -- mask
    // 0001_0010 0011 -- input
    // 0010 0011
    // 0010_0011
    // 0010_0000
    let input = [0x12, 0x34];
    test_encode_standard_length(
        16,
        Some(&vec![0xFF, 0x0F]),
        true,
        &input,
        &[0b_0010_0011, 0b_0000_0100],
        DataType::ByteField,
    )
    .unwrap();
}

#[test]
fn test_encode_standard_length_ascii_string() {
    let input = [b'A', b'B'];
    let expected = input;
    test_encode_standard_length(16, None, false, &input, &expected, DataType::AsciiString)
        .unwrap();
}

#[test]
fn test_encode_standard_length_utf8_string() {
    let input = [0x68, 0x69];
    let expected = input;
    test_encode_standard_length(16, None, false, &input, &expected, DataType::Utf8String)
        .unwrap();
}

#[test]
fn test_encode_standard_length_unicode2_string() {
    let input = [0x00, 0x61, 0x00, 0x62];
    let expected = input;
    test_encode_standard_length(32, None, false, &input, &expected, DataType::Unicode2String)
        .unwrap();
}

#[test]
fn test_encode_standard_length_float32() {
    let input = [0x12, 0x34, 0x56, 0x78];
    let expected = input;
    test_encode_standard_length(32, None, false, &input, &expected, DataType::Float32).unwrap();
}

#[test]
fn test_encode_standard_length_float64() {
    let input = [0x12, 0x34, 0x56, 0x78, 0x9A, 0xBC, 0xDE, 0xF1];
    let expected = input;
    test_encode_standard_length(64, None, false, &input, &expected, DataType::Float64).unwrap();
}

#[test]
fn test_encode_standard_length_uint32() {
    let input = [0xFF, 0xFF, 0xFF, 0xAA];
    // expect 4 bytes payload, with 0xaa for the last byte
    // since we have to allocate 4 bytes to be able to allocate
    // data at index (byte pos) 3
    let expected = vec![0x00, 0x00, 0x00, 0xAA];
    test_encode_standard_length_with_byte_pos(
        3,
        8,
        None,
        false,
        &input,
        &expected,
        DataType::UInt32,
    )
    .unwrap();

    let input = [0x12, 0x34, 0x56, 0x78];
    let expected = input;
    test_encode_standard_length(32, None, false, &input, &expected, DataType::UInt32).unwrap();
}

#[test]
fn test_encode_standard_length_int32() {
    let input = [0x12, 0x34, 0x56, 0x78];
    let expected = input;
    test_encode_standard_length(32, None, false, &input, &expected, DataType::Int32).unwrap();
}

#[test]
fn test_encode_standard_length_masked_protection() {
    // Initial payload with some bits set
    let mut uds_payload = vec![0b_1111_0000, 0b_1010_1010];
    // Input data to encode
    let input = vec![0b_0000_1111, 0b_0101_0101];
    // Mask: protect upper 4 bits of first byte, lower 4 bits of second byte
    let bit_mask = vec![0b_1111_0000, 0b_0000_1111];
    let diag_type = DiagCodedType::new_high_low_byte_order(
        DataType::ByteField,
        DiagCodedTypeVariant::StandardLength(StandardLengthType {
            bit_length: 16,
            bit_mask: Some(bit_mask.clone()),
            condensed: false,
        }),
    )
    .unwrap();

    // Encode into payload, modifying only unmasked bits
    diag_type
        .encode(input.clone(), &mut uds_payload, 0, 0)
        .unwrap();

    // For this test we can ignore the cut-out rules, because the payload and input
    // are both 16 bits long
    // 1. Mask the input with
    //   0000 1111 0101 0101
    // & 1111 0000 0000 1111
    //   -------------------
    //   00000 0000 0000 0101
    // 2. Clear all bits in the cut-out where bit mask is 1
    //    Do this by negating the mask and AND'ing with uds_payload
    //   1111 0000 1010 1010
    // & 0000 1111 1111 0000
    //   -------------------
    //   0000 0000 1010 0000
    // 3. OR the results of step 1 and step 2
    //   0000 0000 0000 0101
    // | 0000 0000 1010 0000
    //   -------------------
    //   0000 0000 1010 0101
    assert_eq!(uds_payload, vec![0b0000_0000, 0b1010_0101]);
}

#[test]
fn test_encode_standard_length_masked_partial_protection() {
    // Initial payload with alternating bits
    let mut uds_payload = vec![0b_1010_1010, 0b_0101_0101];
    // Input data to encode
    let input = vec![0b_1100_1100, 0b_0011_0011];
    // Mask: protect only bits 0 and 7 in both bytes
    let bit_mask = vec![0b_1000_0001, 0b_1000_0001];
    let diag_type = DiagCodedType::new_high_low_byte_order(
        DataType::ByteField,
        DiagCodedTypeVariant::StandardLength(StandardLengthType {
            bit_length: 16,
            bit_mask: Some(bit_mask.clone()),
            condensed: false,
        }),
    )
    .unwrap();

    diag_type
        .encode(input.clone(), &mut uds_payload, 0, 0)
        .unwrap();

    // 1100_1100 0011_0011 -- input
    // 1000_0001 1000_0001 -- mask
    // 1000_0000 0000_0001 -- mask & input
    //
    // 1010_1010 0101_0101 -- payload
    // 0111_1110 0111_1110 -- !mask
    // 0010_1010 0101_0100 -- payload & !mask
    // 1000_0000 0000_0001 -- mask & payload
    // 1010_1010 0101_0101 -- (mask & payload) | (input & !mask)
    assert_eq!(uds_payload, vec![0b_1010_1010, 0b_0101_0101]);
}

#[test]
fn test_encode_standard_length_masked_no_change_on_protected_bits() {
    // Initial payload with all bits set
    let mut uds_payload = vec![0xFF, 0xFF];
    // Input data to encode (all zeros)
    let input = vec![0xFF, 0xFF];
    // Mask: protect all bits
    let bit_mask = vec![0x00, 0xFF];
    let diag_type = DiagCodedType::new_high_low_byte_order(
        DataType::ByteField,
        DiagCodedTypeVariant::StandardLength(StandardLengthType {
            bit_length: 16,
            bit_mask: Some(bit_mask.clone()),
            condensed: false,
        }),
    )
    .unwrap();

    diag_type
        .encode(input.clone(), &mut uds_payload, 0, 0)
        .unwrap();

    // All bits are protected, so payload should remain unchanged
    assert_eq!(uds_payload, vec![0xFF, 0xFF]);
}

#[test]
fn test_encode_standard_length_masked_change_unprotected_bits_only() {
    let mut uds_payload = vec![0x00, 0x00];
    let input = vec![0xFF, 0xFF];
    // Mask: protect only upper nibble
    // will protect 0x0f for both payload bytes.
    let bit_mask = vec![0xF0, 0xF0];
    let diag_type = DiagCodedType::new_high_low_byte_order(
        DataType::ByteField,
        DiagCodedTypeVariant::StandardLength(StandardLengthType {
            bit_length: 16,
            bit_mask: Some(bit_mask.clone()),
            condensed: false,
        }),
    )
    .unwrap();

    diag_type
        .encode(input.clone(), &mut uds_payload, 0, 0)
        .unwrap();

    assert_eq!(uds_payload, vec![0b1111_0000, 0b_1111_0000]);
}

#[test]
fn test_encode_standard_length_masked_cut_out_middle_of_payload_condensed() {
    let mut uds_payload = vec![0b_1010_1010; 8];
    let input = vec![0b_1100_1100];
    let bit_mask = vec![0b_1110_1001, 0b_1101_1111, 0b_1101_1111];
    let diag_type = DiagCodedType::new_high_low_byte_order(
        DataType::Int32,
        DiagCodedTypeVariant::StandardLength(StandardLengthType {
            bit_length: 24,
            bit_mask: Some(bit_mask.clone()),
            condensed: true,
        }),
    )
    .unwrap();

    diag_type
        .encode(input.clone(), &mut uds_payload, 3, 6)
        .unwrap();

    // 0000_0000 0000_0000 1100_1100 -- input
    // 1110_1001 1101_0001 1101_1111 -- mask
    // 1. combine mask and input with condensing rules.
    // 111010011101000111001100
    // 2. prepare cut out
    // 10101010101010101010101010101010
    // 3. Mask the cut-out with the negated mask starting at byte offset 3, bit pos 6
    // 4. OR new data into the cut-out
    let expected = [
        0b_1010_1010,
        0b_1010_1010,
        0b_1010_1010,
        0b_1011_1010,
        0b_1111_1111,
        0b_1110_1011,
        0b_0010_1010,
        0b_1010_1010,
    ];
    assert_eq!(uds_payload, expected);
}

#[test]
fn test_encode_standard_length_normalization_reverse_byte_order() {
    // Initial payload: 4 bytes, all zeros
    let mut uds_payload = vec![0x00; 4];
    // Input data: 0x12, 0x34, 0x56, 0x78 (big endian)
    let input = vec![0x12, 0x34, 0x56, 0x78];
    let diag_type = DiagCodedType::new(
        DataType::UInt32,
        DiagCodedTypeVariant::StandardLength(StandardLengthType {
            bit_length: 32,
            bit_mask: None,
            condensed: false,
        }),
        false, // is_high_low_byte_order = false (little endian)
    )
    .unwrap();

    diag_type
        .encode(input.clone(), &mut uds_payload, 0, 0)
        .unwrap();

    // Expect bytes reversed in payload
    assert_eq!(uds_payload, vec![0x78, 0x56, 0x34, 0x12]);
}

#[test]
fn test_encode_iso_example() {
    let mut uds_payload = vec![42, 37, 18, 0b_1100_0011, 0b_1010_1000, 192];
    let input = vec![5];
    // No mask, not condensed
    let diag_type = DiagCodedType::new_high_low_byte_order(
        DataType::Int32,
        DiagCodedTypeVariant::StandardLength(StandardLengthType {
            bit_length: 4,
            bit_mask: Some(vec![0b_0000_0111u8]),
            condensed: false,
        }),
    )
    .unwrap();

    // Encode into payload at byte offset 3, bit offset 5
    diag_type
        .encode(input.clone(), &mut uds_payload, 3, 5)
        .unwrap();
    // 11000000
    assert_eq!(
        uds_payload,
        vec![42, 37, 18, 0b_1100_0011, 0b_1010_1000, 192]
    );
}

#[test]
fn test_encode_standard_length_cut_out_middle_of_payload_byte_border() {
    // Initial payload: 8 bytes, all set to 0b_1010_1010
    let mut uds_payload = vec![0b_1010_1010; 8];
    // Input data: 3 bytes
    let input = vec![0b_1010_1010, 0b_1100_1100, 0b_1111_0000];
    // No mask, not condensed
    let diag_type = DiagCodedType::new_high_low_byte_order(
        DataType::Int32,
        DiagCodedTypeVariant::StandardLength(StandardLengthType {
            bit_length: 24,
            bit_mask: None,
            condensed: false,
        }),
    )
    .unwrap();

    // Encode into payload at byte offset 3, bit offset 5
    diag_type
        .encode(input.clone(), &mut uds_payload, 3, 0)
        .unwrap();

    assert_eq!(
        uds_payload,
        vec![
            0b_1010_1010,                // 0
            0b_1010_1010,                // 1
            0b_1010_1010,                // 2
            0b_1010_1010,                // 3
            0b_1100_1100 | 0b_1010_1010, // 4
            0b_1111_0000 | 0b_1010_1010, // 5
            0b_1010_1010,                // 6
            0b_1010_1010,                // 7
        ]
    );
}

#[test]
fn test_encode_standard_length_cut_out_middle_of_payload_offset() {
    // Initial payload: 8 bytes, all set to 0b_1010_1010
    let mut uds_payload = vec![0b_1010_1010; 8];
    // Input data: 3 bytes
    let input = vec![0b_1010_1010, 0b_1100_1100, 0b_1110_0001];
    // No mask, not condensed
    let diag_type = DiagCodedType::new_high_low_byte_order(
        DataType::Int32,
        DiagCodedTypeVariant::StandardLength(StandardLengthType {
            bit_length: 24,
            bit_mask: None,
            condensed: false,
        }),
    )
    .unwrap();

    // Encode into payload at byte offset 3, bit offset 5
    diag_type
        .encode(input.clone(), &mut uds_payload, 3, 5)
        .unwrap();

    // data is written least significant bit first, there reading the data injection below
    // bottom up is the order the data will be applied to the uds_payload
    assert_eq!(
        uds_payload,
        vec![
            0b_1010_1010,
            0b_1010_1010,
            0b_1010_1010,
            // 5 bits from byte 0
            0b_1010_1010 | 0b_10101,
            // 5 bits from byte 1, 3 bits from byte 0
            0b_1010_1010 | 0b_0100_0000 | 0b_0001_1001,
            // 5 bits from byte 2, 3 bits from byte 1
            0b_1010_1010 | 0b_1000_0000 | 0b_0001_1100,
            // 3 bits from byte 2 inserted at bit pos 5
            0b_1010_1010 | 0b_0010_0000,
            0b_1010_1010
        ]
    );
}

#[test]
fn test_decode_leading_length_8bit() {
    let payload = vec![0x03, 0xAB, 0xCD, 0xEF];
    let diag_type = DiagCodedType::new_high_low_byte_order(
        DataType::ByteField,
        DiagCodedTypeVariant::LeadingLengthInfo(8),
    )
    .unwrap();
    let (data, bit_len) = diag_type.decode(&payload, 0, 0).unwrap();
    assert_eq!(data, vec![0xAB, 0xCD, 0xEF]);
    assert_eq!(bit_len, 24);
}

#[test]
fn test_decode_leading_length_16bit() {
    let payload = vec![0x00, 0x02, 0xCD, 0xEF];
    let diag_type = DiagCodedType::new_high_low_byte_order(
        DataType::ByteField,
        DiagCodedTypeVariant::LeadingLengthInfo(16),
    )
    .unwrap();
    let (data, bit_len) = diag_type.decode(&payload, 0, 0).unwrap();
    assert_eq!(data, vec![0xCD, 0xEF]);
    assert_eq!(bit_len, 16);
}

#[test]
fn test_decode_leading_length_32bit() {
    let payload = vec![0x00, 0x00, 0x00, 0x02, 0xCD, 0xEF];
    let diag_type = DiagCodedType::new_high_low_byte_order(
        DataType::ByteField,
        DiagCodedTypeVariant::LeadingLengthInfo(32),
    )
    .unwrap();
    let (data, bit_len) = diag_type.decode(&payload, 0, 0).unwrap();
    assert_eq!(data, vec![0xCD, 0xEF]);
    assert_eq!(bit_len, 16);
}

#[test]
fn test_decode_leading_length_4bit() {
    let payload = vec![0b_1010_0011, 0x01, 0x02, 0x03, 0x04];
    let diag_type = DiagCodedType::new_high_low_byte_order(
        DataType::ByteField,
        DiagCodedTypeVariant::LeadingLengthInfo(4),
    )
    .unwrap();
    let (data, bit_len) = diag_type.decode(&payload, 0, 0).unwrap();
    assert_eq!(data, vec![0x01, 0x02, 0x03]);
    assert_eq!(bit_len, 24);
}

#[test]
fn test_decode_leading_length_with_non_zero_byte_pos() {
    // Validates that leading length extraction correctly uses byte_pos
    // Payload structure: [0xFF, 0xFF, 0x03, 0xAA, 0xBB, 0xCC]
    //                     ^padding^    ^len^ ^---data---^
    // The leading length (0x03 = 3 bytes) is at byte_pos=2
    let payload = vec![0xFF, 0xFF, 0x03, 0xAA, 0xBB, 0xCC];
    let diag_type = DiagCodedType::new_high_low_byte_order(
        DataType::ByteField,
        DiagCodedTypeVariant::LeadingLengthInfo(8),
    )
    .unwrap();

    // Decode starting at byte position 2
    let (data, bit_len) = diag_type.decode(&payload, 2, 0).unwrap();
    assert_eq!(data, vec![0xAA, 0xBB, 0xCC]);
    assert_eq!(bit_len, 24);
}

#[test]
fn test_decode_leading_length_16bit_with_non_zero_byte_pos() {
    // Test with 16-bit leading length at non-zero byte position
    // Payload: [0x99, 0x00, 0x02, 0xDE, 0xAD]
    //           ^pad^ ^--len--^ ^-data-^
    let payload = vec![0x99, 0x00, 0x02, 0xDE, 0xAD];
    let diag_type = DiagCodedType::new_high_low_byte_order(
        DataType::ByteField,
        DiagCodedTypeVariant::LeadingLengthInfo(16),
    )
    .unwrap();

    let (data, bit_len) = diag_type.decode(&payload, 1, 0).unwrap();
    assert_eq!(data, vec![0xDE, 0xAD]);
    assert_eq!(bit_len, 16);
}

#[test]
fn test_decode_min_max_length_ascii_zero_termination() {
    let payload = vec![b'a', b'b', 0x00, b'c'];
    let diag_type = DiagCodedType::new_high_low_byte_order(
        DataType::AsciiString,
        DiagCodedTypeVariant::MinMaxLength(MinMaxLengthType {
            min_length: 2,
            max_length: Some(10),
            termination: Termination::Zero,
        }),
    )
    .unwrap();
    let (data, bit_len) = diag_type.decode(&payload, 0, 0).unwrap();
    assert_eq!(data, vec![b'a', b'b']);
    assert_eq!(bit_len, 16);
}

#[test]
fn test_decode_min_max_length_utf8_ff_termination() {
    let payload = vec![0x68, 0x69, 0xFF, 0x00];
    let diag_type = DiagCodedType::new_high_low_byte_order(
        DataType::Utf8String,
        DiagCodedTypeVariant::MinMaxLength(MinMaxLengthType {
            min_length: 2,
            max_length: Some(10),
            termination: Termination::HexFF,
        }),
    )
    .unwrap();
    let (data, bit_len) = diag_type.decode(&payload, 0, 0).unwrap();
    assert_eq!(data, vec![0x68, 0x69]);
    assert_eq!(bit_len, 16);
}

#[test]
fn test_decode_min_max_length_unicode2_zero_termination() {
    let payload = vec![0x00, 0x61, 0x00, 0x62, 0x00, 0x00];
    let diag_type = DiagCodedType::new_high_low_byte_order(
        DataType::Unicode2String,
        DiagCodedTypeVariant::MinMaxLength(MinMaxLengthType {
            min_length: 4,
            max_length: Some(8),
            termination: Termination::Zero,
        }),
    )
    .unwrap();
    let (data, bit_len) = diag_type.decode(&payload, 0, 0).unwrap();
    assert_eq!(data, vec![0x00, 0x61, 0x00, 0x62]);
    assert_eq!(bit_len, 32);
}

#[test]
fn test_decode_min_max_length_end_of_pdu_termination() {
    // special case, we have no data at the end of the PDU
    let payload = vec![0xAA, 0xBB];
    let diag_type = DiagCodedType::new_high_low_byte_order(
        DataType::ByteField,
        DiagCodedTypeVariant::MinMaxLength(MinMaxLengthType {
            min_length: 0,
            max_length: Some(0x9001),
            termination: Termination::EndOfPdu,
        }),
    )
    .unwrap();
    let (data, bit_len) = diag_type.decode(&payload, 2, 0).unwrap();
    assert!(data.is_empty());
    assert_eq!(bit_len, 0);

    // special case, we have no data at the end of the PDU
    let payload = vec![0xAA, 0xBB, 0xCC, 0xDD];
    let diag_type = DiagCodedType::new_high_low_byte_order(
        DataType::ByteField,
        DiagCodedTypeVariant::MinMaxLength(MinMaxLengthType {
            min_length: 1,
            max_length: Some(0x9001),
            termination: Termination::EndOfPdu,
        }),
    )
    .unwrap();
    let (data, bit_len) = diag_type.decode(&payload, 1, 0).unwrap();
    assert_eq!(data, vec![0xBB, 0xCC, 0xDD]);
    assert_eq!(bit_len, 24);
}

#[test]
fn test_decode_standard_length_no_mask() {
    let payload = vec![0x12, 0x34];
    let diag_type = DiagCodedType::new_high_low_byte_order(
        DataType::ByteField,
        DiagCodedTypeVariant::StandardLength(StandardLengthType {
            bit_length: 16,
            bit_mask: None,
            condensed: false,
        }),
    )
    .unwrap();
    let (data, bit_len) = diag_type.decode(&payload, 0, 0).unwrap();
    assert_eq!(data, vec![0x12, 0x34]);
    assert_eq!(bit_len, 16);

    let payload = vec![0x72, 0x01, 0x02, 0x03, 0x04, 0x42];
    let diag_type = DiagCodedType::new_high_low_byte_order(
        DataType::UInt32,
        DiagCodedTypeVariant::StandardLength(StandardLengthType {
            bit_length: 1,
            bit_mask: None,
            condensed: false,
        }),
    )
    .unwrap();
    let (data, bit_len) = diag_type.decode(&payload, 5, 1).unwrap();
    assert_eq!(data, vec![0x01]);
    assert_eq!(bit_len, 1);
}

#[test]
fn test_decode_standard_length_with_mask() {
    let payload = vec![0x12, 0x34];
    let diag_type = DiagCodedType::new_high_low_byte_order(
        DataType::ByteField,
        DiagCodedTypeVariant::StandardLength(StandardLengthType {
            bit_length: 16,
            bit_mask: Some(vec![0xFF, 0x0F]),
            condensed: false,
        }),
    )
    .unwrap();
    let (data, bit_len) = diag_type.decode(&payload, 0, 0).unwrap();
    // 0000 0100
    // 0000 1111
    // 0000 0100
    assert_eq!(data, vec![0x12, 0x04]);
    assert_eq!(bit_len, 16);
}

#[test]
fn test_decode_standard_length_condensed() {
    let payload = vec![0b_0001_0010, 0b_0011_0100];
    let diag_type = DiagCodedType::new_high_low_byte_order(
        DataType::ByteField,
        DiagCodedTypeVariant::StandardLength(StandardLengthType {
            bit_length: 16,
            bit_mask: Some(vec![0b_1111_1111, 0b_0000_1111]),
            condensed: true,
        }),
    )
    .unwrap();

    // 0001 0010 0011_0100 -- payload
    // 1111_1111 0000_1111 -- mask
    // 0001 0010 ---- 0100
    // 0000 0001 0010_0100 -- condensed result
    // 0000_0000 0000_0000
    let (data, bit_len) = diag_type.decode(&payload, 0, 0).unwrap();
    assert_eq!(data, vec![0b_0000_0001, 0b_0010_0100]);
    assert_eq!(bit_len, 12);
}

#[test]
fn test_decode_standard_length_reverse_byte_order() {
    let payload = vec![0x12, 0x34, 0x56, 0x78];
    let diag_type = DiagCodedType::new(
        DataType::UInt32,
        DiagCodedTypeVariant::StandardLength(StandardLengthType {
            bit_length: 32,
            bit_mask: None,
            condensed: false,
        }),
        false,
    )
    .unwrap();
    let (data, bit_len) = diag_type.decode(&payload, 0, 0).unwrap();
    assert_eq!(data, vec![0x78, 0x56, 0x34, 0x12]);
    assert_eq!(bit_len, 32);
}

#[test]
fn test_decode_error_cases() {
    // Insufficient data for leading length
    let payload = vec![0x03, 0xAB];
    let diag_type = DiagCodedType::new_high_low_byte_order(
        DataType::ByteField,
        DiagCodedTypeVariant::LeadingLengthInfo(8),
    )
    .unwrap();
    assert!(diag_type.decode(&payload, 0, 0).is_err());

    // Invalid bit position for Unicode2String
    let payload = vec![0x00, 0x61, 0x00, 0x62];
    let diag_type = DiagCodedType::new_high_low_byte_order(
        DataType::Unicode2String,
        DiagCodedTypeVariant::StandardLength(StandardLengthType {
            bit_length: 32,
            bit_mask: None,
            condensed: false,
        }),
    )
    .unwrap();
    assert!(diag_type.decode(&payload, 0, 1).is_err());
}

#[test]
fn test_inject_bits_basic() {
    let mut dst = [0u8; 2];
    let src = [0b_1010_1010];
    inject_bits(8, 0, &mut dst, &src).unwrap();
    assert_eq!(dst, [0b_1010_1010, 0]);
}

#[test]
fn test_apply_bit_mask_basic() {
    let mut data = [0b_1010_1010];
    let mask = [0b_1111_0000];
    apply_bit_mask(&mut data, &mask, 8, 0).unwrap();
    assert_eq!(data, [0b_1010_0000]);
}

#[test]
fn test_normalize_byte_order_reverse() {
    let mut data = [0x12, 0x34, 0x56, 0x78];
    normalize_byte_order(&mut data, ByteOrder::Reverse);
    assert_eq!(data, [0x78, 0x56, 0x34, 0x12]);
}

#[test]
fn test_normalize_byte_order_reorder_pairs() {
    let mut data = [0x12, 0x34, 0x56, 0x78];
    normalize_byte_order(&mut data, ByteOrder::ReorderPairs);
    assert_eq!(data, [0x34, 0x12, 0x78, 0x56]);
}

#[test]
fn test_apply_condensed_mask_unpacking_basic() {
    let mask = [0b_1010_1010];
    let field = [0b_1111_0000];
    let (result, bit_len) = apply_condensed_mask_unpacking(&mask, &field, 8).unwrap();
    // 1111_0000
    // 1010_1010
    // 1-1-_0-0-
    // 0000_1100
    assert_eq!(result, vec![0b_0000_1100]);
    assert_eq!(bit_len, 4);
}

#[test]
fn test_apply_condensed_mask_packing_basic() {
    let input = [0b_0000_1100];
    let mask = [0b_0101_0101];
    let (result, bit_len) = apply_condensed_mask_packing(&input, &mask, 0).unwrap();
    assert_eq!(result, vec![0b_0101_0000]);
    assert_eq!(bit_len, 8);
}

#[test]
fn test_min_max_length_type_error_on_max_less_than_min() {
    let min_length = 10;
    let max_length = Some(5);
    let termination = Termination::EndOfPdu;
    let result = MinMaxLengthType::new(min_length, max_length, termination);
    assert!(result.is_err());
    assert_eq!(
        result.unwrap_err(),
        DiagServiceError::BadPayload(
            "MinMaxLengthType max_length 5 cannot be less than min_length 10".to_owned()
        )
    );
}

#[test]
fn test_encode_leading_length_zero_bits_is_refused() {
    let diag_type = DiagCodedType::new_high_low_byte_order(
        DataType::ByteField,
        DiagCodedTypeVariant::LeadingLengthInfo(0),
    )
    .unwrap();
    let mut payload = vec![0x11];
    let err = diag_type.encode(vec![0xAB], &mut payload, 0, 0).unwrap_err();
    assert_eq!(
        err,
        DiagServiceError::BadPayload("Failed to create length info for leading length".to_owned())
    );
    assert_eq!(payload, vec![0x11]);
}

#[test]
fn test_encode_leading_length_too_many_length_bytes_is_refused() {
    let diag_type = DiagCodedType::new_high_low_byte_order(
        DataType::ByteField,
        DiagCodedTypeVariant::LeadingLengthInfo(72),
    )
    .unwrap();
    let mut payload = Vec::new();
    let err = diag_type.encode(vec![0xAB], &mut payload, 0, 0).unwrap_err();
    assert_eq!(err, DiagServiceError::BadPayload("Length byte count out of bounds".to_owned()));
}
