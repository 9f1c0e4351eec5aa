use std::collections::HashMap;

use diag_adapter::configuration::{AppError, ConfigSanity};
use diag_adapter::interfaces::DiagnosticServiceAffixPosition;
use diag_adapter::naming::{normalize_key, normalize_trimmed_key, DatabaseNamingConvention};

fn make_convention(prefix: bool) -> DatabaseNamingConvention {
    DatabaseNamingConvention {
        short_name_affix_position: if prefix {
            DiagnosticServiceAffixPosition::Prefix
        } else {
            DiagnosticServiceAffixPosition::Suffix
        },
        long_name_affix_position: if prefix {
            DiagnosticServiceAffixPosition::Prefix
        } else {
            DiagnosticServiceAffixPosition::Suffix
        },
        configuration_service_parameter_semantic_id: "ID".to_owned(),
        functional_class_varcoding: "varcoding".to_owned(),
        short_name_affixes: if prefix {
            vec!["pre_".to_owned(), "s_".to_owned()]
        } else {
            vec!["_post".to_owned(), "_s".to_owned()]
        },
        long_name_affixes: if prefix {
            vec!["pre ".to_owned(), "l ".to_owned()]
        } else {
            vec![" post".to_owned(), " l".to_owned()]
        },
        service_affixes: HashMap::new(),
    }
}

#[test]
fn test_trim_long_name_affixes_suffix() {
    let conv = make_convention(false);
    // Suffix match
    assert_eq!(conv.trim_long_name_affixes("Data post"), "Data");
    assert_eq!(conv.trim_long_name_affixes("Data l"), "Data");
    // Compound suffixes
    let conv = DatabaseNamingConvention {
        long_name_affix_position: DiagnosticServiceAffixPosition::Suffix,
        long_name_affixes: vec![" post l".to_owned(), " post".to_owned(), " l".to_owned()],
        ..make_convention(false)
    };
    assert_eq!(conv.trim_long_name_affixes("Data post l"), "Data");
    assert_eq!(conv.trim_long_name_affixes("Data post"), "Data");
    // No match
    assert_eq!(
        conv.trim_long_name_affixes("Data something"),
        "Data something"
    );
}

#[test]
fn test_trim_long_name_affixes_prefix() {
    let conv = make_convention(true);
    // Prefix match
    assert_eq!(conv.trim_long_name_affixes("pre Data"), "Data");
    assert_eq!(conv.trim_long_name_affixes("l Data"), "Data");
    // Compound prefixes
    let conv = DatabaseNamingConvention {
        long_name_affix_position: DiagnosticServiceAffixPosition::Prefix,
        long_name_affixes: vec!["pre l ".to_owned(), "pre ".to_owned(), "l ".to_owned()],
        ..make_convention(true)
    };
    assert_eq!(conv.trim_long_name_affixes("pre l Data"), "Data");
    assert_eq!(conv.trim_long_name_affixes("pre Data"), "Data");
    // No match
    assert_eq!(
        conv.trim_long_name_affixes("something Data"),
        "something Data"
    );
}

#[test]
fn test_trim_short_name_affixes_suffix() {
    let conv = make_convention(false);
    // Suffix match
    assert_eq!(conv.trim_short_name_affixes("data_post"), "data");
    assert_eq!(conv.trim_short_name_affixes("data_s"), "data");
    // Compound suffixes
    let conv = DatabaseNamingConvention {
        short_name_affix_position: DiagnosticServiceAffixPosition::Suffix,
        short_name_affixes: vec!["_post_s".to_owned(), "_post".to_owned(), "_s".to_owned()],
        ..make_convention(false)
    };
    assert_eq!(conv.trim_short_name_affixes("data_post_s"), "data");
    assert_eq!(conv.trim_short_name_affixes("data_post"), "data");
    // No match
    assert_eq!(conv.trim_short_name_affixes("data_x"), "data_x");
}

#[test]
fn test_trim_short_name_affixes_prefix() {
    let conv = make_convention(true);
    // Prefix match
    assert_eq!(conv.trim_short_name_affixes("pre_data"), "data");
    assert_eq!(conv.trim_short_name_affixes("s_data"), "data");
    // Compound prefixes
    let conv = DatabaseNamingConvention {
        short_name_affix_position: DiagnosticServiceAffixPosition::Prefix,
        short_name_affixes: vec!["pre_s_".to_owned(), "pre_".to_owned(), "s_".to_owned()],
        ..make_convention(true)
    };
    assert_eq!(conv.trim_short_name_affixes("pre_s_data"), "data");
    assert_eq!(conv.trim_short_name_affixes("pre_data"), "data");
    // No match
    assert_eq!(conv.trim_short_name_affixes("x_data"), "x_data");
}

#[test]
fn test_trim_affixes_case_insensitive() {
    let conv = DatabaseNamingConvention {
        short_name_affix_position: DiagnosticServiceAffixPosition::Prefix,
        long_name_affix_position: DiagnosticServiceAffixPosition::Suffix,
        short_name_affixes: vec!["pre_".to_owned()],
        long_name_affixes: vec![" post".to_owned()],
        configuration_service_parameter_semantic_id: "ID".to_owned(),
        functional_class_varcoding: "varcoding".to_owned(),
        service_affixes: HashMap::new(),
    };
    assert_eq!(conv.trim_short_name_affixes("PRE_data"), "data");
    assert_eq!(conv.trim_long_name_affixes("Data POST"), "Data");
}

#[test]
fn test_trim_edge_cases_empty_string() {
    let conv = make_convention(false);
    // Should return empty string for empty input
    assert_eq!(conv.trim_short_name_affixes(""), "");
    assert_eq!(conv.trim_long_name_affixes(""), "");
}

#[test]
fn test_trim_edge_cases_empty_affix_list() {
    let mut conv = make_convention(false);
    conv.short_name_affixes.clear();
    conv.long_name_affixes.clear();
    // Should return original string if no affixes
    assert_eq!(conv.trim_short_name_affixes("data_post"), "data_post");
    assert_eq!(conv.trim_long_name_affixes("Data post"), "Data post");
}

#[test]
fn test_trim_edge_cases_affix_equals_whole_string() {
    let mut conv = make_convention(false);
    conv.short_name_affixes = vec!["data_post".to_owned()];
    conv.long_name_affixes = vec!["data post".to_owned()];
    // Should trim to empty string if affix matches whole string
    assert_eq!(conv.trim_short_name_affixes("data_post"), "");
    assert_eq!(conv.trim_long_name_affixes("data post"), "");
}

#[test]
fn test_trim_edge_cases_affix_longer_than_string() {
    let mut conv = make_convention(false);
    conv.short_name_affixes = vec!["verylongaffix".to_owned()];
    conv.long_name_affixes = vec!["much longer affix".to_owned()];
    // Should return original string if affix is longer than input
    assert_eq!(conv.trim_short_name_affixes("short"), "short");
    assert_eq!(conv.trim_long_name_affixes("tiny"), "tiny");
}

#[test]
fn trim_non_ascii_name_whose_lowercase_differs_is_refused() {
    // U+0130 (capital I with dot, two bytes) lowercases to 'i' and a combining dot, so the
    // prefix "i" found in the lowercase would cut the name inside its first character.
    let mut conv = make_convention(true);
    conv.short_name_affixes = vec!["i".to_owned()];
    assert_eq!(conv.try_trim_short_name_affixes("\u{130}_s"), None);
    assert_eq!(
        conv.try_trim_short_name_affixes("Id_s"),
        Some("d_s".to_owned())
    );
}

#[test]
fn default_convention_trims_read_and_dump_suffixes() {
    let conv = DatabaseNamingConvention::default();
    assert_eq!(conv.trim_short_name_affixes("Vin_Read"), "Vin");
    assert_eq!(conv.trim_long_name_affixes("Identification write"), "Identification");
    assert_eq!(conv.configuration_service_parameter_semantic_id, "ID");
    assert_eq!(conv.functional_class_varcoding, "varcoding");
    assert_eq!(conv.short_name_affixes.len(), 12);
    assert_eq!(conv.long_name_affixes.len(), 12);
}

#[test]
fn service_affix_is_cut_from_service_names() {
    let conv = DatabaseNamingConvention::default();
    assert_eq!(
        conv.trim_service_name_affixes(0x85, "DTC_Setting_Mode_Off".to_owned()),
        "Off"
    );
    // a service without an affix keeps its name
    assert_eq!(
        conv.trim_service_name_affixes(0x22, "VIN".to_owned()),
        "VIN"
    );
    // a name shorter than the prefix cannot be cut
    assert_eq!(
        conv.try_trim_service_name_affixes(0x85, "Off".to_owned()),
        None
    );
}

#[test]
fn validate_sanity_accepts_default_convention() {
    assert!(DatabaseNamingConvention::default().validate_sanity().is_ok());
}

#[test]
fn validate_sanity_reports_trailing_whitespace_of_suffix() {
    let mut conv = make_convention(false);
    conv.short_name_affixes = vec!["_ok".to_owned(), "_bad ".to_owned()];
    let err = conv.validate_sanity().unwrap_err();
    assert_eq!(
        err,
        AppError::ConfigurationError(
            "database_naming_convention.short_name_affixes: '_bad ' has trailing whitespace"
                .to_owned()
        )
    );
}

#[test]
fn validate_sanity_reports_leading_whitespace_of_prefix() {
    let mut conv = make_convention(true);
    conv.long_name_affixes = vec![" pre".to_owned()];
    let err = conv.validate_sanity().unwrap_err();
    assert_eq!(
        err.to_string(),
        "Configuration error `database_naming_convention.long_name_affixes: ' pre' has leading whitespace`"
    );
}

#[test]
fn validate_sanity_checks_service_affixes() {
    let mut conv = make_convention(false);
    conv.service_affixes.insert(
        0x85,
        (DiagnosticServiceAffixPosition::Prefix, " DTC_".to_owned()),
    );
    let err = conv.validate_sanity().unwrap_err();
    assert_eq!(
        err,
        AppError::ConfigurationError(
            "database_naming_convention.service_name_affixes: ' DTC_' has leading whitespace"
                .to_owned()
        )
    );
}

#[test]
fn service_affix_keys_are_decimal_or_hex() {
    assert_eq!(normalize_key("133"), Ok(133));
    assert_eq!(normalize_key(" 0x85 "), Ok(0x85));
    assert_eq!(normalize_key("0X2e"), Ok(0x2E));
    assert_eq!(normalize_key("+7"), Ok(7));
    assert_eq!(normalize_trimmed_key("0XFF", "0xff"), Ok(255));
    assert_eq!(
        normalize_key("256"),
        Err("Invalid hex number: 256, error=number too large to fit in target type".to_owned())
    );
    assert_eq!(
        normalize_key(" 0xzz"),
        Err("Invalid hex number: 0xzz, error=invalid digit found in string".to_owned())
    );
    assert_eq!(
        normalize_key("0x"),
        Err("Invalid hex number: 0x, error=cannot parse integer from empty string".to_owned())
    );
    assert_eq!(
        normalize_key("x85"),
        Err("Invalid hex number: x85, error=invalid digit found in string".to_owned())
    );
}

#[test]
fn test_normalize_key_trims_unicode_white_space() {
    assert_eq!(normalize_key("\t\u{3000}0x10\u{a0}\n"), Ok(0x10));
    assert_eq!(normalize_key("\u{2003}42\u{2028}"), Ok(42));
}
