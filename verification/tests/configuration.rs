use diag_adapter::configuration::{AppError, ConfigSanity, Configuration};
use diag_adapter::interfaces::DiagnosticServiceAffixPosition;

#[test]
fn test_configuration_defaults() {
    let c = Configuration::default();
    assert_eq!(c.server.address, "0.0.0.0");
    assert_eq!(c.server.port, 20002);
    assert_eq!(c.database.path, ".");
    assert!(!c.database.exit_no_database_loaded);
    assert!(c.database.fallback_to_base_variant);
    assert!(c.onboard_tester);
    assert_eq!(c.flash_files_path, ".");
    assert_eq!(
        c.database.naming_convention.short_name_affix_position,
        DiagnosticServiceAffixPosition::Suffix
    );
    assert_eq!(c.com_params.uds.tester_present_message.default, vec![0x3E, 0x00]);
    assert_eq!(c.com_params.doip.connection_retry_attempts.default, 100);
    assert_eq!(c.faults.default_scope, "FaultMem");
    assert!(c.validate_sanity().is_ok());
}

#[test]
fn test_configuration_sanity_checks_naming_convention() {
    let mut c = Configuration::default();
    c.database.naming_convention.short_name_affixes.push("_bad ".to_owned());
    match c.validate_sanity() {
        Err(AppError::ConfigurationError(m)) => assert_eq!(
            m,
            "database_naming_convention.short_name_affixes: '_bad ' has trailing whitespace"
        ),
        other => panic!("unexpected {other:?}"),
    }
}
