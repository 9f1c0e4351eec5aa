use diag_adapter::coded_type::{
    DataType, DiagCodedType, DiagCodedTypeVariant, MinMaxLengthType, RawDiagCodedType,
    RawMinMaxLength, RawParamLengthInfo, RawSpecificData, StandardLengthType, Termination,
};
use diag_adapter::comparam::{
    ComParam, ComParamRef, ComParamSimpleValue, ComParamSpecificData, ComParamType, ComParamValue,
    ComplexComParam, ComplexValue, ComplexValueEntry, RegularComParam, SimpleValue,
};
use diag_adapter::database::{
    find_logical_address, logical_address_from_value, CodedConst, DiagCommInfo, DiagService, LogicalAddressType,
    ParamCodedType, ParamType, Parameter, RawCodedConstParam, Request,
};
use diag_adapter::dop::{
    DataOperation, DataOperationVariant, DefaultCase, NormalDop, SpecificDopData, StructureDop,
};
use diag_adapter::error::DiagServiceError;
use diag_adapter::interfaces::DiagCommType;

fn coded_const(byte_position: u32, value: &str, bit_length: u32) -> Parameter {
    Parameter {
        short_name: Some(format!("p{byte_position}")),
        byte_position: Some(byte_position),
        bit_position: None,
        param_type: Some(ParamType::CodedConst),
        coded_const: Some(CodedConst {
            coded_value: Some(value.to_owned()),
            diag_coded_type: Some(ParamCodedType {
                base_data_type: Some(DataType::UInt32),
                standard_length: Some(StandardLengthType {
                    bit_length,
                    bit_mask: None,
                    condensed: false,
                }),
            }),
        }),
    }
}

fn service(name: Option<&str>, params: Vec<Parameter>) -> DiagService {
    DiagService {
        diag_comm: Some(DiagCommInfo {
            short_name: name.map(ToOwned::to_owned),
        }),
        request: Some(Request {
            params: Some(params),
        }),
    }
}

#[test]
fn sequential_coded_consts_of_routine_control() {
    // a service with parameters at bytes 0, 1, 2-3
    let s = service(
        Some("Routine"),
        vec![
            coded_const(0, "49", 8),
            coded_const(1, "1", 8),
            coded_const(2, "582", 16),
        ],
    );
    assert_eq!(
        s.extract_sequential_coded_consts(),
        vec![
            RawCodedConstParam { byte_position: 0, value: 0x31, bit_length: 8 },
            RawCodedConstParam { byte_position: 1, value: 0x01, bit_length: 8 },
            RawCodedConstParam { byte_position: 2, value: 0x0246, bit_length: 16 },
        ]
    );
    assert_eq!(s.request_id(), Some(0x31));
    assert_eq!(s.request_sub_function_id(), Some((1, 8)));
}

#[test]
fn sequential_coded_consts_stop_at_a_gap() {
    let s = service(
        Some("Read"),
        vec![coded_const(0, "34", 8), coded_const(3, "1", 8)],
    );
    assert_eq!(
        s.extract_sequential_coded_consts(),
        vec![RawCodedConstParam { byte_position: 0, value: 0x22, bit_length: 8 }]
    );
    assert_eq!(RawCodedConstParam { byte_position: 0, value: 1, bit_length: 12 }.byte_count(), 2);
}

#[test]
fn masked_or_non_decimal_constants_are_no_service_ids() {
    let mut p = coded_const(0, "0x22", 8);
    let s = service(Some("Hex"), vec![p.clone()]);
    assert_eq!(s.request_id(), None);
    p.coded_const.as_mut().unwrap().coded_value = Some("34".to_owned());
    p.coded_const
        .as_mut()
        .unwrap()
        .diag_coded_type
        .as_mut()
        .unwrap()
        .standard_length
        .as_mut()
        .unwrap()
        .bit_mask = Some(vec![0xFF]);
    let s = service(Some("Masked"), vec![p]);
    assert_eq!(s.request_id(), None);
}

#[test]
fn service_to_diag_comm() {
    let s = service(Some("ReadVin"), vec![coded_const(0, "34", 8)]);
    let comm = s.to_diag_comm().unwrap();
    assert_eq!(comm.name, "ReadVin");
    assert_eq!(comm.type_, DiagCommType::Data);
    assert_eq!(comm.lookup_name.as_deref(), Some("ReadVin"));

    let unnamed = service(None, vec![coded_const(0, "34", 8)]);
    assert_eq!(
        unnamed.to_diag_comm().unwrap_err(),
        DiagServiceError::InvalidDatabase("DiagService missing name".to_owned())
    );
    let no_id = service(Some("X"), vec![]);
    assert_eq!(
        no_id.to_diag_comm().unwrap_err(),
        DiagServiceError::InvalidDatabase("DiagService missing request_id".to_owned())
    );
    let tester_present = service(Some("TP"), vec![coded_const(0, "62", 8)]);
    assert_eq!(
        tester_present.to_diag_comm().unwrap_err(),
        DiagServiceError::InvalidRequest("Invalid DiagCommType value: 62".to_owned())
    );
    let no_comm = DiagService { diag_comm: None, request: None };
    assert_eq!(
        no_comm.to_diag_comm().unwrap_err(),
        DiagServiceError::InvalidDatabase("DiagService missing diag_comm".to_owned())
    );
}

#[test]
fn parameter_positions_default_to_zero() {
    let p = Parameter {
        short_name: None,
        byte_position: None,
        bit_position: Some(3),
        param_type: None,
        coded_const: None,
    };
    assert_eq!(p.byte_position(), 0);
    assert!(!p.has_byte_position());
    assert_eq!(p.bit_position(), 3);
    assert_eq!(
        p.param_type().unwrap_err(),
        DiagServiceError::InvalidDatabase("Unknown ParamType".to_owned())
    );
}

#[test]
fn data_operation_variants() {
    let dop = DataOperation {
        short_name: Some("dop".to_owned()),
        specific_data: SpecificDopData::NormalDOP(Some(NormalDop {
            diag_coded_type: None,
            physical_type: None,
            compu_category: None,
        })),
    };
    assert!(matches!(dop.variant(), Ok(DataOperationVariant::Normal(_))));

    let missing = DataOperation {
        short_name: None,
        specific_data: SpecificDopData::MUXDOP(None),
    };
    assert_eq!(
        missing.variant().unwrap_err(),
        DiagServiceError::InvalidDatabase("Failed to get MUXDOP specific data".to_owned())
    );
    let none = DataOperation { short_name: None, specific_data: SpecificDopData::NONE };
    assert_eq!(
        none.variant().unwrap_err(),
        DiagServiceError::ParameterConversionError(
            "DataOperation has no specific data type".to_owned()
        )
    );
    let unknown = DataOperation { short_name: None, specific_data: SpecificDopData::Unknown };
    assert_eq!(
        unknown.variant().unwrap_err(),
        DiagServiceError::ParameterConversionError(
            "Unknown DataOperation specific data type".to_owned()
        )
    );
}

#[test]
fn default_case_structure() {
    let case = DefaultCase {
        short_name: Some("default".to_owned()),
        structure: Some(Box::new(DataOperation {
            short_name: None,
            specific_data: SpecificDopData::Structure(Some(StructureDop {
                params: vec![],
                byte_size: Some(4),
                is_visible: true,
            })),
        })),
    };
    assert_eq!(case.case_struct_dop().unwrap().byte_size, Some(4));
    let empty = DefaultCase { short_name: None, structure: None };
    assert!(empty.case_struct_dop().is_none());
}

#[test]
fn raw_coded_types_convert_as_stored() {
    let raw = RawDiagCodedType {
        base_data_type: Some(DataType::UInt32),
        is_high_low_byte_order: false,
        specific_data: RawSpecificData::LeadingLengthInfoType(Some(8)),
    };
    // the combination is not checked when converting stored data
    let t = DiagCodedType::try_from_raw(&raw).unwrap();
    assert_eq!(t.base_datatype(), DataType::UInt32);
    assert_eq!(t.type_(), &DiagCodedTypeVariant::LeadingLengthInfo(8));

    let unsupported = RawDiagCodedType { base_data_type: None, ..raw.clone() };
    assert_eq!(
        DiagCodedType::try_from_raw(&unsupported).unwrap_err(),
        DiagServiceError::InvalidDatabase("Unsupported DataType".to_owned())
    );

    let min_max = RawSpecificData::MinMaxLengthType(Some(RawMinMaxLength {
        min_length: 1,
        max_length: Some(4),
        termination: Some(Termination::Zero),
    }));
    assert_eq!(
        DiagCodedTypeVariant::try_from_raw(&min_max).unwrap(),
        DiagCodedTypeVariant::MinMaxLength(
            MinMaxLengthType::new(1, Some(4), Termination::Zero).unwrap()
        )
    );
    let bad_termination = RawSpecificData::MinMaxLengthType(Some(RawMinMaxLength {
        min_length: 1,
        max_length: None,
        termination: None,
    }));
    assert_eq!(
        DiagCodedTypeVariant::try_from_raw(&bad_termination).unwrap_err(),
        DiagServiceError::InvalidDatabase("Termination not found".to_owned())
    );
    let no_key_name = RawSpecificData::ParamLengthInfoType(Some(RawParamLengthInfo {
        length_key: Some(None),
    }));
    assert_eq!(
        DiagCodedTypeVariant::try_from_raw(&no_key_name).unwrap_err(),
        DiagServiceError::InvalidDatabase(
            "ParamLengthInfoType length_key param has no short_name".to_owned()
        )
    );
    let key = RawSpecificData::ParamLengthInfoType(Some(RawParamLengthInfo {
        length_key: Some(Some("LEN".to_owned())),
    }));
    assert_eq!(
        DiagCodedTypeVariant::try_from_raw(&key).unwrap(),
        DiagCodedTypeVariant::ParamLengthInfo("LEN".to_owned())
    );
    assert!(matches!(
        DiagCodedTypeVariant::try_from_raw(&RawSpecificData::StandardLengthType(None)),
        Err(DiagServiceError::InvalidDatabase(_))
    ));
    assert_eq!(
        DiagCodedTypeVariant::try_from_raw(&RawSpecificData::NoType).unwrap_err(),
        DiagServiceError::InvalidDatabase(
            "DiagCodedType SpecificData type NONE not supported".to_owned()
        )
    );
    assert_eq!(
        DiagCodedTypeVariant::try_from_raw(&RawSpecificData::Unknown(9)).unwrap_err(),
        DiagServiceError::InvalidDatabase(
            "DiagCodedType SpecificData type <UNKNOWN 9> not supported".to_owned()
        )
    );
}

#[test]
fn new_coded_type_refuses_length_rules_of_numbers() {
    let err = DiagCodedType::new(DataType::UInt32, DiagCodedTypeVariant::LeadingLengthInfo(8), true)
        .unwrap_err();
    assert_eq!(
        err,
        DiagServiceError::InvalidDatabase(
            "LeadingLengthInfo and MinMaxLength are only allowed for ByteField, AsciiString, \
             Unicode2String, and Utf8String, got UInt32"
                .to_owned()
        )
    );
    let err = DiagCodedType::new(
        DataType::Unicode2String,
        DiagCodedTypeVariant::MinMaxLength(
            MinMaxLengthType::new(1, Some(4), Termination::Zero).unwrap(),
        ),
        true,
    )
    .unwrap_err();
    assert_eq!(
        err,
        DiagServiceError::BadPayload(
            "DataType Unicode2String needs an even amount of min/max bytes".to_owned()
        )
    );
}

fn simple(v: &str) -> ComParamValue {
    ComParamValue::Simple(ComParamSimpleValue { value: v.to_owned() })
}

#[test]
fn logical_addresses_from_com_param_values() {
    let gateway = LogicalAddressType::Gateway("CP_GatewayAddress".to_owned());
    let ecu = LogicalAddressType::Ecu("CP_UniqueRespIdTable".to_owned(), "CP_EcuAddr".to_owned());
    assert_eq!(logical_address_from_value(&gateway, &simple("4096")), Ok(4096));
    assert_eq!(
        logical_address_from_value(&gateway, &simple("0x10")),
        Err(DiagServiceError::ParameterConversionError(
            "Invalid address: invalid digit found in string".to_owned()
        ))
    );
    assert_eq!(
        logical_address_from_value(&gateway, &simple("70000")),
        Err(DiagServiceError::ParameterConversionError(
            "Invalid address: number too large to fit in target type".to_owned()
        ))
    );
    let table = ComParamValue::Complex(vec![
        ("CP_CanRespUSDTId".to_owned(), simple("1")),
        ("CP_EcuAddr".to_owned(), simple("14")),
        ("CP_Nested".to_owned(), ComParamValue::Complex(vec![])),
    ]);
    assert_eq!(logical_address_from_value(&ecu, &table), Ok(14));
    assert_eq!(
        logical_address_from_value(&gateway, &table),
        Err(DiagServiceError::InvalidDatabase(
            "\"CP_GatewayAddress\" not found in complex value".to_owned()
        ))
    );
    let missing = ComParamValue::Complex(vec![("CP_Other".to_owned(), simple("1"))]);
    assert_eq!(
        logical_address_from_value(&ecu, &missing),
        Err(DiagServiceError::InvalidDatabase(
            "CP_UniqueRespIdTable not found in complex value".to_owned()
        ))
    );
    let nested = ComParamValue::Complex(vec![(
        "CP_EcuAddr".to_owned(),
        ComParamValue::Complex(vec![]),
    )]);
    assert_eq!(
        logical_address_from_value(&ecu, &nested),
        Err(DiagServiceError::InvalidDatabase(
            "CP_UniqueRespIdTable is not a simple value".to_owned()
        ))
    );
}

fn regular_param(name: &str) -> ComParam {
    ComParam {
        short_name: Some(name.to_owned()),
        com_param_type: ComParamType::Regular,
        specific_data: ComParamSpecificData::Regular(RegularComParam { has_dop: true }),
    }
}

#[test]
fn logical_addresses_found_in_the_base_variant() {
    let gateway_ref = ComParamRef {
        protocol_name: Some("UDS_Ethernet_DoIP".to_owned()),
        simple_value: Some(SimpleValue { value: Some("3712".to_owned()) }),
        complex_value: None,
        com_param: Some(regular_param("CP_DoIPLogicalGatewayAddress")),
    };
    let table_ref = ComParamRef {
        protocol_name: Some("UDS_Ethernet_DoIP".to_owned()),
        simple_value: None,
        complex_value: Some(ComplexValue {
            entries: vec![
                ComplexValueEntry::Simple(SimpleValue { value: Some("18".to_owned()) }),
                ComplexValueEntry::Simple(SimpleValue { value: Some("1799".to_owned()) }),
            ],
        }),
        com_param: Some(ComParam {
            short_name: Some("CP_UniqueRespIdTable".to_owned()),
            com_param_type: ComParamType::Complex,
            specific_data: ComParamSpecificData::Complex(ComplexComParam {
                com_params: Some(vec![
                    regular_param("CP_DoIPLogicalEcuAddress"),
                    regular_param("CP_CanPhysReqId"),
                ]),
            }),
        }),
    };
    let refs = vec![gateway_ref, table_ref];
    let gateway = LogicalAddressType::Gateway("CP_DoIPLogicalGatewayAddress".to_owned());
    let ecu = LogicalAddressType::Ecu(
        "CP_UniqueRespIdTable".to_owned(),
        "CP_DoIPLogicalEcuAddress".to_owned(),
    );
    assert_eq!(find_logical_address(&gateway, Some("UDS_Ethernet_DoIP"), Some(&refs)), Ok(3712));
    assert_eq!(find_logical_address(&ecu, Some("UDS_Ethernet_DoIP"), Some(&refs)), Ok(18));
    assert_eq!(
        find_logical_address(&gateway, Some("UDS_Ethernet_DoIP_DOBT"), Some(&refs)),
        Err(DiagServiceError::NotFound(
            "No ComParamRef found for CP_DoIPLogicalGatewayAddress in protocol UDS_Ethernet_DoIP_DOBT"
                .to_owned()
        ))
    );
    let functional = LogicalAddressType::Functional("CP_UniqueRespIdTable".to_owned());
    assert_eq!(
        find_logical_address(&functional, Some("UDS_Ethernet_DoIP"), Some(&refs)),
        Err(DiagServiceError::InvalidDatabase(
            "\"CP_UniqueRespIdTable\" not found in complex value".to_owned()
        ))
    );
}
