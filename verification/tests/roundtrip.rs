use diag_adapter::coded_type::{
    DataType, DiagCodedType, DiagCodedTypeVariant, MinMaxLengthType, StandardLengthType,
    Termination,
};
use diag_adapter::coding::{normalize_byte_order, ByteOrder};

fn standard(bits: u32, mask: Option<Vec<u8>>) -> DiagCodedTypeVariant {
    DiagCodedTypeVariant::StandardLength(StandardLengthType {
        bit_length: bits,
        bit_mask: mask,
        condensed: false,
    })
}

#[test]
fn little_endian_value_is_written_reversed_and_read_back() {
    let t = DiagCodedType::new(DataType::UInt32, standard(16, None), false).unwrap();
    let mut payload = vec![0x22];
    t.encode(vec![0x12, 0x34], &mut payload, 1, 0).unwrap();
    assert_eq!(payload, vec![0x22, 0x34, 0x12]);
    assert_eq!(t.decode(&payload, 1, 0).unwrap(), (vec![0x12, 0x34], 16));
}

#[test]
fn value_appended_after_a_gap_is_read_back() {
    let t = DiagCodedType::new_high_low_byte_order(DataType::ByteField, standard(24, None)).unwrap();
    let mut payload = vec![0x2E];
    t.encode(vec![1, 2, 3], &mut payload, 3, 0).unwrap();
    assert_eq!(payload, vec![0x2E, 0, 0, 1, 2, 3]);
    assert_eq!(t.decode(&payload, 3, 0).unwrap(), (vec![1, 2, 3], 24));
}

#[test]
fn leading_length_value_is_read_back() {
    let t = DiagCodedType::new_high_low_byte_order(
        DataType::ByteField,
        DiagCodedTypeVariant::LeadingLengthInfo(16),
    )
    .unwrap();
    let mut payload = vec![0x31, 0x01];
    t.encode(vec![0xAA, 0xBB, 0xCC], &mut payload, 2, 0).unwrap();
    assert_eq!(payload, vec![0x31, 0x01, 0x00, 0x03, 0xAA, 0xBB, 0xCC]);
    assert_eq!(t.decode(&payload, 2, 0).unwrap(), (vec![0xAA, 0xBB, 0xCC], 24));
}

#[test]
fn zero_terminated_string_is_read_back() {
    let t = DiagCodedType::new_high_low_byte_order(
        DataType::AsciiString,
        DiagCodedTypeVariant::MinMaxLength(
            MinMaxLengthType::new(1, Some(10), Termination::Zero).unwrap(),
        ),
    )
    .unwrap();
    let mut payload = vec![0x2E, 0xF1, 0x90];
    t.encode(b"ABC".to_vec(), &mut payload, 3, 0).unwrap();
    assert_eq!(payload, vec![0x2E, 0xF1, 0x90, b'A', b'B', b'C', 0]);
    assert_eq!(t.decode(&payload, 3, 0).unwrap(), (b"ABC".to_vec(), 24));
}

#[test]
fn length_key_value_is_read_back() {
    let t = DiagCodedType::new_high_low_byte_order(
        DataType::ByteField,
        DiagCodedTypeVariant::ParamLengthInfo("LEN".to_owned()),
    )
    .unwrap();
    let mut payload = vec![0x36, 0x02];
    t.encode(vec![9, 8, 7, 6], &mut payload, 2, 0).unwrap();
    assert_eq!(payload, vec![0x36, 0x02, 9, 8, 7, 6]);
    assert_eq!(
        t.decode_with_runtime_byte_length(&payload, 2, 4).unwrap(),
        (vec![9, 8, 7, 6], 32)
    );
}

#[test]
fn masked_encoding_keeps_unmasked_bits() {
    let t = DiagCodedType::new_high_low_byte_order(
        DataType::UInt32,
        standard(8, Some(vec![0b0000_1111])),
    )
    .unwrap();
    let mut payload = vec![0xAB, 0b1010_0000];
    t.encode(vec![0b0000_0101], &mut payload, 1, 0).unwrap();
    // the high nibble is protected, the low nibble carries the value
    assert_eq!(payload, vec![0xAB, 0b1010_0101]);
}

#[test]
fn normalizing_twice_restores_the_data() {
    for order in [ByteOrder::Keep, ByteOrder::Reverse, ByteOrder::ReorderPairs] {
        for data in [vec![], vec![1], vec![1, 2, 3], vec![1, 2, 3, 4]] {
            let mut d = data.clone();
            normalize_byte_order(&mut d, order);
            normalize_byte_order(&mut d, order);
            assert_eq!(d, data);
        }
    }
    let mut d = vec![1, 2, 3];
    normalize_byte_order(&mut d, ByteOrder::ReorderPairs);
    assert_eq!(d, vec![2, 1, 3]);
}

#[test]
fn leading_length_roundtrip_inside_zeroed_window() {
    let t = DiagCodedType::new_high_low_byte_order(
        DataType::ByteField,
        DiagCodedTypeVariant::LeadingLengthInfo(8),
    )
    .unwrap();
    let mut p = vec![0xAA, 0x00, 0x00, 0x00, 0xBB];
    t.encode(vec![0x11, 0x22], &mut p, 1, 0).unwrap();
    assert_eq!(p, vec![0xAA, 0x02, 0x11, 0x22, 0xBB]);
    assert_eq!(t.decode(&p, 1, 0).unwrap(), (vec![0x11, 0x22], 16));
}

#[test]
fn min_max_roundtrip_inside_zeroed_window() {
    let t = DiagCodedType::new_high_low_byte_order(
        DataType::AsciiString,
        DiagCodedTypeVariant::MinMaxLength(
            MinMaxLengthType::new(1, Some(8), Termination::HexFF).unwrap(),
        ),
    )
    .unwrap();
    let mut p = vec![0x01, 0x00, 0x00, 0x00, 0x00, 0x07];
    t.encode(vec![0x41, 0x42], &mut p, 1, 0).unwrap();
    assert_eq!(p, vec![0x01, 0x41, 0x42, 0xFF, 0x00, 0x07]);
    assert_eq!(t.decode(&p, 1, 0).unwrap(), (vec![0x41, 0x42], 16));
}
