use diag_adapter::com_params::{
    AddressingMode, ComParamBool, DoipComParams, RetryPolicy, TesterPresentSendType,
    UdsComParams,
};
use diag_adapter::database::map_nack_number_of_retries;
use diag_adapter::error::DiagServiceError;
use std::time::Duration;

#[test]
fn test_multi_value_bool() {
    let value = "\"Enabled\"";
    let text: String = serde_json::from_str(value).unwrap();
    let result = ComParamBool::try_from(text.as_str()).unwrap();
    assert_eq!(result, ComParamBool::True);

    let value = "Disabled";
    let result = ComParamBool::try_from(value).unwrap();
    assert_eq!(result, ComParamBool::False);
}

#[test]
fn com_param_bool_words() {
    for w in ["enabled", "TRUE", "Yes", "on", "1", "active", "Open", "valid"] {
        assert_eq!(ComParamBool::try_from(w), Ok(ComParamBool::True), "{w}");
    }
    for w in ["disabled", "False", "NO", "off", "0", "inactive", "closed", "Invalid"] {
        assert_eq!(ComParamBool::try_from(w), Ok(ComParamBool::False), "{w}");
    }
    assert_eq!(
        ComParamBool::try_from("maybe"),
        Err("Invalid MultiValueBool 'maybe'".to_owned())
    );
    // whole words only
    assert!(ComParamBool::try_from("enabled ").is_err());
}

#[test]
fn com_param_bool_converts_to_and_from_bool() {
    assert_eq!(ComParamBool::from(true), ComParamBool::True);
    assert_eq!(ComParamBool::from(false), ComParamBool::False);
    assert!(bool::from(ComParamBool::True));
    assert!(!bool::from(ComParamBool::False));
}

#[test]
fn retry_policy_by_keyword() {
    assert_eq!(
        RetryPolicy::try_from("Continue until Timeout"),
        Ok(RetryPolicy::ContinueUntilTimeout)
    );
    assert_eq!(
        RetryPolicy::try_from("CONTINUE_UNLIMITED"),
        Ok(RetryPolicy::ContinueUnlimited)
    );
    // "timeout" wins over "unlimited"
    assert_eq!(
        RetryPolicy::try_from("unlimited timeout"),
        Ok(RetryPolicy::ContinueUntilTimeout)
    );
    assert_eq!(
        RetryPolicy::try_from("off"),
        Err("Invalid RetryPolicy 'off'".to_owned())
    );
}

#[test]
fn addressing_mode_by_keyword() {
    assert_eq!(
        AddressingMode::try_from("Functional addressing"),
        Ok(AddressingMode::Functional)
    );
    assert_eq!(AddressingMode::try_from("PHYSICAL"), Ok(AddressingMode::Physical));
    assert_eq!(
        AddressingMode::try_from("broadcast"),
        Err("Invalid AddressingMode 'broadcast'".to_owned())
    );
}

#[test]
fn tester_present_send_type_by_keyword() {
    assert_eq!(
        TesterPresentSendType::try_from("On Idle"),
        Ok(TesterPresentSendType::OnIdle)
    );
    assert_eq!(
        TesterPresentSendType::try_from("FixedPeriodic"),
        Ok(TesterPresentSendType::FixedPeriod)
    );
    assert_eq!(
        TesterPresentSendType::try_from("never"),
        Err("Invalid TesterPresentMode 'never'".to_owned())
    );
}

#[test]
fn nack_retries_map_decimal_and_hex_codes() {
    assert_eq!(map_nack_number_of_retries(("0x03", &3)), Ok((3u8, 3u32)));
    assert_eq!(map_nack_number_of_retries(("0xFF", &1)), Ok((255u8, 1u32)));
    assert_eq!(map_nack_number_of_retries(("17", &5)), Ok((17u8, 5u32)));
    assert_eq!(
        map_nack_number_of_retries(("256", &5)),
        Err(DiagServiceError::ParameterConversionError(
            "Invalid string for doip.nack_number_of_retries: 256".to_owned()
        ))
    );
    // only a lowercase prefix marks hex
    assert!(map_nack_number_of_retries(("0X03", &5)).is_err());
    assert!(map_nack_number_of_retries(("", &5)).is_err());
}

#[test]
fn uds_com_params_defaults() {
    let p = UdsComParams::default();
    assert_eq!(p.tester_present_retry_policy.name, "CP_TesterPresentHandling");
    assert_eq!(p.tester_present_retry_policy.default, ComParamBool::True);
    assert_eq!(p.tester_present_message.default, vec![0x3E, 0x00]);
    assert_eq!(p.tester_present_exp_pos_resp.default, vec![0x7E, 0x00]);
    assert_eq!(p.tester_present_exp_neg_resp.default, vec![0x7F, 0x3E]);
    assert_eq!(p.tester_present_time.default, Duration::from_secs(2));
    assert_eq!(p.rc_21_repeat_request_time.default, Duration::from_millis(200));
    assert_eq!(p.timeout_default.name, "CP_P6Max");
    assert_eq!(p.timeout_default.default, Duration::from_secs(1));
    assert_eq!(p.repeat_req_count_app.default, 2);
}

#[test]
fn doip_com_params_defaults() {
    let p = DoipComParams::default();
    assert_eq!(p.logical_response_id_table_name, "CP_UniqueRespIdTable");
    assert_eq!(p.nack_number_of_retries.default, vec![("0x03".to_owned(), 3)]);
    assert_eq!(p.routing_activation_timeout.default, Duration::from_secs(30));
    assert_eq!(p.connection_retry_attempts.default, 100);
    assert_eq!(p.retry_period.default, Duration::from_millis(200));
}
