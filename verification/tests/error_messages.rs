use diag_adapter::bits::extract_bits;
use diag_adapter::coded_type::{
    DataType, DiagCodedType, DiagCodedTypeVariant, MinMaxLengthType, StandardLengthType,
    Termination,
};
use diag_adapter::coding::inject_bits;
use diag_adapter::error::DiagServiceError;
use diag_adapter::util::{decode_hex, f64_padded_bytes, u32_padded_bytes};

fn bad(m: &str) -> DiagServiceError {
    DiagServiceError::BadPayload(m.to_owned())
}

#[test]
fn bit_length_rules_name_type_and_length() {
    assert_eq!(
        DataType::Int32.validate_bit_len(70),
        Err(bad("Length must be at most 64 bit for Int32, got 70 bit"))
    );
    assert_eq!(
        DataType::Float32.validate_bit_len(16),
        Err(bad("Length must be exactly 32 bit for Float32, got 16 bit"))
    );
    assert_eq!(
        DataType::Float64.validate_bit_len(32),
        Err(bad("Length must be exactly 64 bit for Float64, got 32 bit"))
    );
    assert_eq!(
        DataType::Unicode2String.validate_bit_len(24),
        Err(bad("Length must be a multiple of 16 bit for Unicode2String, got 24 bit"))
    );
    assert_eq!(DataType::ByteField.validate_bit_len(0), Err(bad("Cannot extract data with length 0")));
    assert_eq!(DataType::UInt32.validate_bit_len(64), Ok(()));
}

#[test]
fn bit_positions_of_strings_must_be_zero() {
    let t = DiagCodedType::new_high_low_byte_order(
        DataType::AsciiString,
        DiagCodedTypeVariant::StandardLength(StandardLengthType {
            bit_length: 16,
            bit_mask: None,
            condensed: false,
        }),
    )
    .unwrap();
    assert_eq!(t.validate_bit_pos(3), Err(bad("Bit position must be 0 for AsciiString, got 3")));
    assert_eq!(t.validate_bit_pos(0), Ok(()));
}

#[test]
fn bit_extraction_errors_name_positions_and_lengths() {
    assert_eq!(extract_bits(4, 9, &[0xFF]), Err(bad("BitPosition range is 0..=7, got 9")));
    assert_eq!(extract_bits(0, 0, &[0xFF]), Err(bad("Cannot extract 0 bits")));
    assert_eq!(
        extract_bits(10, 2, &[0xFF]),
        Err(bad("Bit position 2 with length 10 exceeds data length 8 bits"))
    );
    let mut dst = [0u8; 2];
    assert_eq!(inject_bits(4, 8, &mut dst, &[1]), Err(bad("BitPosition range is 0..=7, got 8")));
    assert_eq!(inject_bits(0, 0, &mut dst, &[1]), Err(bad("Cannot inject 0 bits")));
}

#[test]
fn min_max_fields_report_missing_bytes() {
    let t = DiagCodedType::new_high_low_byte_order(
        DataType::AsciiString,
        DiagCodedTypeVariant::MinMaxLength(MinMaxLengthType {
            min_length: 4,
            max_length: Some(8),
            termination: Termination::EndOfPdu,
        }),
    )
    .unwrap();
    assert_eq!(
        t.decode(&[0x41, 0x42], 0, 0).unwrap_err(),
        bad("Not enough data in payload, needed at least 4 bytes, got 2 bytes")
    );
}

#[test]
fn param_length_info_decode_names_its_key() {
    let t = DiagCodedType::new_high_low_byte_order(
        DataType::ByteField,
        DiagCodedTypeVariant::ParamLengthInfo("LK".to_owned()),
    )
    .unwrap();
    assert_eq!(
        t.decode(&[0xAA], 0, 0).unwrap_err(),
        DiagServiceError::InvalidDatabase(
            "ParamLengthInfo 'LK' requires a runtime-resolved byte length; call \
             decode_with_runtime_byte_length instead"
                .to_owned()
        )
    );
}

#[test]
fn padding_and_hex_errors() {
    assert_eq!(
        u32_padded_bytes(&[1, 2, 3, 4, 5]),
        Err(DiagServiceError::ParameterConversionError(
            "Invalid data length for I32: 5".to_owned()
        ))
    );
    assert_eq!(
        f64_padded_bytes(&[0; 9]),
        Err(DiagServiceError::ParameterConversionError(
            "Invalid data length for F64: 9".to_owned()
        ))
    );
    assert_eq!(
        decode_hex("0G"),
        Err(DiagServiceError::ParameterConversionError("Non-hex character found".to_owned()))
    );
}

#[test]
fn leading_length_errors_name_their_cause() {
    let t = DiagCodedType::new_high_low_byte_order(
        DataType::ByteField,
        DiagCodedTypeVariant::LeadingLengthInfo(16),
    )
    .unwrap();
    assert_eq!(
        t.decode(&[0x00], 0, 0).unwrap_err(),
        bad("Payload slice for leading length out of bounds")
    );
    assert_eq!(
        t.decode(&[0x00, 0x05, 0x01], 0, 0).unwrap_err(),
        DiagServiceError::NotEnoughData { expected: 7, actual: 3 }
    );
    assert_eq!(
        t.decode(&[0x00, 0x01, 0x41], 0, 3).unwrap_err(),
        bad("Bit position must be 0 for ByteField, got 3")
    );
}
