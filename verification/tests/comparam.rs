use diag_adapter::com_params::{
    ComParamBool, ComParamConfig, DeserializableCompParam, RetryPolicy,
};
use diag_adapter::comparam::{
    find_com_param, lookup, resolve_comparam, resolve_complex_value, resolve_with_value,
    ComParam, ComParamRef, ComParamSimpleValue, ComParamSpecificData, ComParamType,
    ComParamValue, ComplexComParam, ComplexValue, ComplexValueEntry, RegularComParam,
    SimpleValue,
};
use diag_adapter::error::DiagServiceError;

fn regular(name: &str) -> ComParam {
    ComParam {
        short_name: Some(name.to_owned()),
        com_param_type: ComParamType::Regular,
        specific_data: ComParamSpecificData::Regular(RegularComParam { has_dop: true }),
    }
}

fn complex(name: &str, members: Vec<ComParam>) -> ComParam {
    ComParam {
        short_name: Some(name.to_owned()),
        com_param_type: ComParamType::Complex,
        specific_data: ComParamSpecificData::Complex(ComplexComParam { com_params: Some(members) }),
    }
}

fn simple_entry(v: &str) -> ComplexValueEntry {
    ComplexValueEntry::Simple(SimpleValue { value: Some(v.to_owned()) })
}

fn simple_ref(protocol: &str, param: ComParam, v: &str) -> ComParamRef {
    ComParamRef {
        protocol_name: Some(protocol.to_owned()),
        simple_value: Some(SimpleValue { value: Some(v.to_owned()) }),
        complex_value: None,
        com_param: Some(param),
    }
}

fn text_of(v: &ComParamValue) -> Option<&str> {
    match v {
        ComParamValue::Simple(ComParamSimpleValue { value }) => Some(value.as_str()),
        ComParamValue::Complex(_) => None,
    }
}

fn invalid(m: &str) -> DiagServiceError {
    DiagServiceError::InvalidDatabase(m.to_owned())
}

#[test]
fn simple_values_resolve_to_their_text() {
    let r = simple_ref("UDS", regular("CP_P2Max"), "50");
    let (name, value) = resolve_comparam(&r).unwrap();
    assert_eq!(name, "CP_P2Max");
    assert_eq!(text_of(&value), Some("50"));

    let no_dop = ComParam {
        specific_data: ComParamSpecificData::Regular(RegularComParam { has_dop: false }),
        ..regular("CP_X")
    };
    let r = simple_ref("UDS", no_dop, "1");
    assert_eq!(
        resolve_comparam(&r).err(),
        Some(invalid("ComParamRef for CP_X has no data operation"))
    );

    let r = ComParamRef { com_param: None, ..simple_ref("UDS", regular("CP_X"), "1") };
    assert_eq!(resolve_comparam(&r).err(), Some(invalid("ComParamRef has no ComParam")));

    let r = ComParamRef {
        simple_value: Some(SimpleValue { value: None }),
        ..simple_ref("UDS", regular("CP_X"), "1")
    };
    assert_eq!(
        resolve_comparam(&r).err(),
        Some(invalid("ComParamRef for CP_X has no simple value"))
    );
}

#[test]
fn references_need_exactly_one_value() {
    let both = ComParamRef {
        complex_value: Some(ComplexValue { entries: vec![] }),
        ..simple_ref("UDS", regular("CP_X"), "1")
    };
    assert_eq!(
        resolve_with_value(&both, &regular("CP_X")).err(),
        Some(invalid("ComParamRef for Some(\"CP_X\") has both simple and complex value"))
    );
    let none = ComParamRef { simple_value: None, ..simple_ref("UDS", regular("CP_X"), "1") };
    assert_eq!(
        resolve_with_value(&none, &regular("CP_X")).err(),
        Some(invalid("ComParamRef for CP_X has no value"))
    );
}

#[test]
fn complex_values_resolve_member_by_member() {
    let table = complex("CP_UniqueRespIdTable", vec![regular("CP_EcuAddr"), regular("CP_CanId")]);
    let value = ComplexValue { entries: vec![simple_entry("14"), simple_entry("0x7E0")] };
    let (name, v) = resolve_complex_value(&table, &value).unwrap();
    assert_eq!(name, "CP_UniqueRespIdTable");
    match v {
        ComParamValue::Complex(entries) => {
            assert_eq!(entries.len(), 2);
            assert_eq!(entries[0].0, "CP_EcuAddr");
            assert_eq!(text_of(&entries[0].1), Some("14"));
            assert_eq!(entries[1].0, "CP_CanId");
            assert_eq!(text_of(&entries[1].1), Some("0x7E0"));
        },
        ComParamValue::Simple(_) => panic!("expected a complex value"),
    }

    let short = ComplexValue { entries: vec![simple_entry("14")] };
    assert_eq!(
        resolve_complex_value(&table, &short).err(),
        Some(invalid("ComplexValue entry for ComParam CP_CanId at index 1 has no value"))
    );
    let wrong = ComplexValue { entries: vec![ComplexValueEntry::Complex, simple_entry("1")] };
    assert_eq!(
        resolve_complex_value(&table, &wrong).err(),
        Some(invalid("ComParam CP_EcuAddr is not a complex ComParam"))
    );
    let no_members = ComParam {
        specific_data: ComParamSpecificData::Complex(ComplexComParam { com_params: None }),
        ..complex("CP_T", vec![])
    };
    assert_eq!(
        resolve_complex_value(&no_members, &value).err(),
        Some(invalid("Complex ComParam CP_T has no comParams"))
    );
    let unknown = ComParam { com_param_type: ComParamType::Other, ..regular("CP_U") };
    let with_unknown = complex("CP_T", vec![unknown]);
    assert_eq!(
        resolve_complex_value(&with_unknown, &value).err(),
        Some(invalid("ComParam CP_U has unknown type"))
    );
}

#[test]
fn nested_complex_members_resolve_against_the_same_value() {
    let inner = complex("CP_Inner", vec![regular("CP_A")]);
    let outer = complex("CP_Outer", vec![inner]);
    let value = ComplexValue { entries: vec![ComplexValueEntry::Complex] };
    assert_eq!(
        resolve_complex_value(&outer, &value).err(),
        Some(invalid("ComParam CP_A is not a complex ComParam"))
    );
    let simple_for_complex = ComplexValue { entries: vec![simple_entry("1")] };
    assert_eq!(
        resolve_complex_value(&outer, &simple_for_complex).err(),
        Some(invalid("ComParam CP_Inner is not a simple ComParam"))
    );
}

#[test]
fn lookup_finds_the_reference_of_protocol_and_name() {
    let refs = vec![
        simple_ref("KWP", regular("CP_P2Max"), "10"),
        simple_ref("UDS", regular("CP_P2Max"), "50"),
        simple_ref("UDS", regular("CP_P2Max"), "99"),
    ];
    let v = lookup(Some("UDS"), Some(&refs), "CP_P2Max").unwrap();
    assert_eq!(text_of(&v), Some("50"));
    assert_eq!(
        lookup(Some("DoIP"), Some(&refs), "CP_P2Max").err(),
        Some(DiagServiceError::NotFound(
            "No ComParamRef found for CP_P2Max in protocol DoIP".to_owned()
        ))
    );
    assert_eq!(
        lookup(Some("UDS"), None, "CP_P2Max").err(),
        Some(DiagServiceError::NotFound(
            "No ComParamRef found for CP_P2Max in protocol UDS".to_owned()
        ))
    );
    assert_eq!(
        lookup(None, Some(&refs), "CP_P2Max").err(),
        Some(invalid("Protocol has no short name"))
    );
}

#[test]
fn com_param_texts_read_as_values() {
    assert_eq!(<u32 as DeserializableCompParam>::parse_from_db("42"), Ok(42));
    assert_eq!(
        <u32 as DeserializableCompParam>::parse_from_db("4x"),
        Err("ParseIntError { kind: InvalidDigit }".to_owned())
    );
    assert_eq!(
        <u16 as DeserializableCompParam>::parse_from_db("70000"),
        Err("ParseIntError { kind: PosOverflow }".to_owned())
    );
    assert_eq!(
        <Vec<u8> as DeserializableCompParam>::parse_from_db("[1, 2, 255]"),
        Ok(vec![1, 2, 255])
    );
    assert_eq!(<Vec<u8> as DeserializableCompParam>::parse_from_db("0A0b"), Ok(vec![0x0A, 0x0B]));
    assert_eq!(
        <Vec<u8> as DeserializableCompParam>::parse_from_db("abc"),
        Err("OddLength".to_owned())
    );
    assert_eq!(
        <ComParamBool as DeserializableCompParam>::parse_from_db("ON"),
        Ok(ComParamBool::True)
    );
    assert_eq!(
        <RetryPolicy as DeserializableCompParam>::parse_from_db("sometimes"),
        Err("Invalid RetryPolicy 'sometimes'".to_owned())
    );
}

#[test]
fn com_params_fall_back_to_their_default() {
    let refs = vec![
        simple_ref("UDS", regular("CP_P2Max"), "50"),
        simple_ref("UDS", regular("CP_Broken"), "fifty"),
        ComParamRef {
            protocol_name: Some("UDS".to_owned()),
            simple_value: None,
            complex_value: Some(ComplexValue { entries: vec![simple_entry("1")] }),
            com_param: Some(complex("CP_Table", vec![regular("CP_A")])),
        },
    ];
    let config = |name: &str| ComParamConfig { name: name.to_owned(), default: 7u32 };
    assert_eq!(find_com_param(Some("UDS"), Some(&refs), &config("CP_P2Max")), 50);
    assert_eq!(find_com_param(Some("UDS"), Some(&refs), &config("CP_Broken")), 7);
    assert_eq!(find_com_param(Some("UDS"), Some(&refs), &config("CP_Table")), 7);
    assert_eq!(find_com_param(Some("UDS"), Some(&refs), &config("CP_Missing")), 7);
    assert_eq!(find_com_param(None, Some(&refs), &config("CP_P2Max")), 7);
}
