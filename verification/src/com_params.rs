//! Communication parameter values as the database writes them: booleans, retry policies,
//! addressing modes and tester present send types, each parsed from free text.
use vstd::prelude::*;
use crate::error::push_text;
use crate::text::{lowercase_of, str_contains, str_eq, text_contains, to_lowercase};
use crate::error::text;
use crate::number::{parse_unsigned, u16_from_str, u16_parse_error_debug, u32_from_str, u32_parse_error_debug};
use core::time::Duration;
use vstd::string::StringSliceAdditionalSpecFns;
use vstd::utf8::encode_utf8;
use crate::util::{all_hex, hex_decode, hex_decoded, hex_error_debug};

verus! {

/// Boolean com parameter, read from the many ways a database writes yes and no.
#[derive(Clone, Copy, Debug, PartialEq, Eq, Structural)]
pub enum ComParamBool {
    True,
    False,
}

/// Whether lowercased text means yes.
pub open spec fn is_yes_word(s: Seq<char>) -> bool {
    s == "enabled"@ || s == "true"@ || s == "yes"@ || s == "on"@ || s == "1"@ || s == "active"@
        || s == "open"@ || s == "valid"@
}

/// Whether lowercased text means no.
pub open spec fn is_no_word(s: Seq<char>) -> bool {
    s == "disabled"@ || s == "false"@ || s == "no"@ || s == "off"@ || s == "0"@ || s
        == "inactive"@ || s == "closed"@ || s == "invalid"@
}

/// The boolean that lowercased text stands for, if any.
pub open spec fn bool_of_word(s: Seq<char>) -> Option<ComParamBool> {
    if is_yes_word(s) {
        Some(ComParamBool::True)
    } else if is_no_word(s) {
        Some(ComParamBool::False)
    } else {
        None
    }
}

/// The message of a value that names none of the variants of `kind`.
pub open spec fn invalid_value_message(kind: Seq<char>, value: Seq<char>) -> Seq<char> {
    "Invalid "@ + kind + " '"@ + value + "'"@
}

fn invalid_value(kind: &str, value: &str) -> (r: String)
    ensures
        r@ == invalid_value_message(kind@, value@),
{
    let mut s = String::new();
    push_text(&mut s, "Invalid ");
    push_text(&mut s, kind);
    push_text(&mut s, " '");
    push_text(&mut s, value);
    push_text(&mut s, "'");
    s
}

impl ComParamBool {
    /// Reads the boolean from lowercased text `lc`; `value` is the text as written, for the
    /// error message.
    pub fn from_lowercase(lc: &str, value: &str) -> (r: Result<ComParamBool, String>)
        ensures
            match bool_of_word(lc@) {
                Some(b) => r == Ok::<ComParamBool, String>(b),
                None => r matches Err(m) && m@ == invalid_value_message("MultiValueBool"@, value@),
            },
    {
        if str_eq(lc, "enabled") || str_eq(lc, "true") || str_eq(lc, "yes") || str_eq(lc, "on")
            || str_eq(lc, "1") || str_eq(lc, "active") || str_eq(lc, "open") || str_eq(
            lc,
            "valid",
        ) {
            Ok(ComParamBool::True)
        } else if str_eq(lc, "disabled") || str_eq(lc, "false") || str_eq(lc, "no") || str_eq(
            lc,
            "off",
        ) || str_eq(lc, "0") || str_eq(lc, "inactive") || str_eq(lc, "closed") || str_eq(
            lc,
            "invalid",
        ) {
            Ok(ComParamBool::False)
        } else {
            Err(invalid_value("MultiValueBool", value))
        }
    }

    /// Reads the boolean from text in any letter case: `enabled`, `true`, `yes`, `on`, `1`,
    /// `active`, `open` and `valid` mean yes; `disabled`, `false`, `no`, `off`, `0`,
    /// `inactive`, `closed` and `invalid` mean no.
    pub fn try_from(value: &str) -> (r: Result<ComParamBool, String>)
        ensures
            match bool_of_word(lowercase_of(value@)) {
                Some(b) => r == Ok::<ComParamBool, String>(b),
                None => r matches Err(m) && m@ == invalid_value_message("MultiValueBool"@, value@),
            },
    {
        let lc = to_lowercase(value);
        ComParamBool::from_lowercase(lc.as_str(), value)
    }
}

impl From<bool> for ComParamBool {
    fn from(b: bool) -> (r: ComParamBool) {
        if b {
            ComParamBool::True
        } else {
            ComParamBool::False
        }
    }
}

impl vstd::std_specs::convert::FromSpecImpl<bool> for ComParamBool {
    open spec fn obeys_from_spec() -> bool {
        true
    }

    open spec fn from_spec(b: bool) -> ComParamBool {
        if b {
            ComParamBool::True
        } else {
            ComParamBool::False
        }
    }
}

impl From<ComParamBool> for bool {
    fn from(b: ComParamBool) -> (r: bool) {
        match b {
            ComParamBool::True => true,
            ComParamBool::False => false,
        }
    }
}

impl vstd::std_specs::convert::FromSpecImpl<ComParamBool> for bool {
    open spec fn obeys_from_spec() -> bool {
        true
    }

    open spec fn from_spec(b: ComParamBool) -> bool {
        b == ComParamBool::True
    }
}

/// Turning a boolean into a com parameter boolean and back gives the boolean, and the other
/// way round.
pub proof fn law_bool_conversions_roundtrip(b: bool, c: ComParamBool)
    ensures
        <bool as vstd::std_specs::convert::FromSpec<ComParamBool>>::from_spec(
            <ComParamBool as vstd::std_specs::convert::FromSpec<bool>>::from_spec(b),
        ) == b,
        <ComParamBool as vstd::std_specs::convert::FromSpec<bool>>::from_spec(
            <bool as vstd::std_specs::convert::FromSpec<ComParamBool>>::from_spec(c),
        ) == c,
{
}

/// What a tester present handler does when a request fails.
#[derive(Clone, Copy, Debug, PartialEq, Eq, Structural)]
pub enum RetryPolicy {
    Disabled,
    ContinueUntilTimeout,
    ContinueUnlimited,
}

/// Whether a physical ECU address or a functional group address is used.
#[derive(Clone, Copy, Debug, PartialEq, Eq, Structural)]
pub enum AddressingMode {
    Physical,
    Functional,
}

/// When tester present messages are sent.
#[derive(Clone, Copy, Debug, PartialEq, Eq, Structural)]
pub enum TesterPresentSendType {
    FixedPeriod,
    OnIdle,
}

/// The retry policy lowercased text names: one mentioning `timeout`, else one mentioning
/// `unlimited`.
pub open spec fn retry_policy_of(lc: Seq<char>) -> Option<RetryPolicy> {
    if text_contains(lc, "timeout"@) {
        Some(RetryPolicy::ContinueUntilTimeout)
    } else if text_contains(lc, "unlimited"@) {
        Some(RetryPolicy::ContinueUnlimited)
    } else {
        None
    }
}

/// The addressing mode lowercased text names: one mentioning `functional`, else one
/// mentioning `physical`.
pub open spec fn addressing_mode_of(lc: Seq<char>) -> Option<AddressingMode> {
    if text_contains(lc, "functional"@) {
        Some(AddressingMode::Functional)
    } else if text_contains(lc, "physical"@) {
        Some(AddressingMode::Physical)
    } else {
        None
    }
}

/// The send type lowercased text names: one mentioning `idle`, else one mentioning `fixed`.
pub open spec fn send_type_of(lc: Seq<char>) -> Option<TesterPresentSendType> {
    if text_contains(lc, "idle"@) {
        Some(TesterPresentSendType::OnIdle)
    } else if text_contains(lc, "fixed"@) {
        Some(TesterPresentSendType::FixedPeriod)
    } else {
        None
    }
}

impl RetryPolicy {
    /// Reads the policy from lowercased text `lc`; `value` is the text as written.
    pub fn from_lowercase(lc: &str, value: &str) -> (r: Result<RetryPolicy, String>)
        ensures
            match retry_policy_of(lc@) {
                Some(p) => r == Ok::<RetryPolicy, String>(p),
                None => r matches Err(m) && m@ == invalid_value_message("RetryPolicy"@, value@),
            },
    {
        if str_contains(lc, "timeout") {
            Ok(RetryPolicy::ContinueUntilTimeout)
        } else if str_contains(lc, "unlimited") {
            Ok(RetryPolicy::ContinueUnlimited)
        } else {
            Err(invalid_value("RetryPolicy", value))
        }
    }

    /// Reads the policy from text in any letter case.
    pub fn try_from(value: &str) -> (r: Result<RetryPolicy, String>)
        ensures
            match retry_policy_of(lowercase_of(value@)) {
                Some(p) => r == Ok::<RetryPolicy, String>(p),
                None => r matches Err(m) && m@ == invalid_value_message("RetryPolicy"@, value@),
            },
    {
        let lc = to_lowercase(value);
        RetryPolicy::from_lowercase(lc.as_str(), value)
    }
}

impl AddressingMode {
    /// Reads the mode from lowercased text `lc`; `value` is the text as written.
    pub fn from_lowercase(lc: &str, value: &str) -> (r: Result<AddressingMode, String>)
        ensures
            match addressing_mode_of(lc@) {
                Some(m) => r == Ok::<AddressingMode, String>(m),
                None => r matches Err(m) && m@ == invalid_value_message("AddressingMode"@, value@),
            },
    {
        if str_contains(lc, "functional") {
            Ok(AddressingMode::Functional)
        } else if str_contains(lc, "physical") {
            Ok(AddressingMode::Physical)
        } else {
            Err(invalid_value("AddressingMode", value))
        }
    }

    /// Reads the mode from text in any letter case.
    pub fn try_from(value: &str) -> (r: Result<AddressingMode, String>)
        ensures
            match addressing_mode_of(lowercase_of(value@)) {
                Some(m) => r == Ok::<AddressingMode, String>(m),
                None => r matches Err(m) && m@ == invalid_value_message("AddressingMode"@, value@),
            },
    {
        let lc = to_lowercase(value);
        AddressingMode::from_lowercase(lc.as_str(), value)
    }
}

impl TesterPresentSendType {
    /// Reads the send type from lowercased text `lc`; `value` is the text as written.
    pub fn from_lowercase(lc: &str, value: &str) -> (r: Result<TesterPresentSendType, String>)
        ensures
            match send_type_of(lc@) {
                Some(t) => r == Ok::<TesterPresentSendType, String>(t),
                None => r matches Err(m) && m@ == invalid_value_message(
                    "TesterPresentMode"@,
                    value@,
                ),
            },
    {
        if str_contains(lc, "idle") {
            Ok(TesterPresentSendType::OnIdle)
        } else if str_contains(lc, "fixed") {
            Ok(TesterPresentSendType::FixedPeriod)
        } else {
            Err(invalid_value("TesterPresentMode", value))
        }
    }

    /// Reads the send type from text in any letter case.
    pub fn try_from(value: &str) -> (r: Result<TesterPresentSendType, String>)
        ensures
            match send_type_of(lowercase_of(value@)) {
                Some(t) => r == Ok::<TesterPresentSendType, String>(t),
                None => r matches Err(m) && m@ == invalid_value_message(
                    "TesterPresentMode"@,
                    value@,
                ),
            },
    {
        let lc = to_lowercase(value);
        TesterPresentSendType::from_lowercase(lc.as_str(), value)
    }
}

/// The duration std's `Duration::from_secs` makes of a number of seconds.
pub uninterp spec fn secs_duration(secs: u64) -> Duration;

/// The duration std's `Duration::from_millis` makes of a number of milliseconds.
pub uninterp spec fn millis_duration(millis: u64) -> Duration;

/// std `Duration::from_secs`: the duration of `secs` seconds, named by `secs_duration`.
#[verifier::external_body]
fn from_secs(secs: u64) -> (r: Duration)
    ensures
        r == secs_duration(secs),
{
    Duration::from_secs(secs)
}

/// std `Duration::from_millis`: the duration of `millis` milliseconds, named by
/// `millis_duration`.
#[verifier::external_body]
fn from_millis(millis: u64) -> (r: Duration)
    ensures
        r == millis_duration(millis),
{
    Duration::from_millis(millis)
}

/// A value that the text a database gives for a communication parameter can be read as.
/// (Units the database may give with the text are not read.)
pub trait DeserializableCompParam: Sized {
    /// The message of why the text `input` cannot be read, if it cannot.
    spec fn db_error(input: Seq<char>) -> Option<Seq<char>>;

    /// Whether `v` is what the readable text `input` reads as.
    spec fn db_reads_as(input: Seq<char>, v: Self) -> bool;

    /// Reads the value from the text `input`; fails with a message.
    fn parse_from_db(input: &str) -> (r: Result<Self, String>)
        ensures
            match Self::db_error(input@) {
                Some(m) => r matches Err(e) && e@ == m,
                None => r matches Ok(v) && Self::db_reads_as(input@, v),
            },
    ;
}

impl DeserializableCompParam for ComParamBool {
    open spec fn db_error(input: Seq<char>) -> Option<Seq<char>> {
        match bool_of_word(lowercase_of(input)) {
            Some(_) => None,
            None => Some(invalid_value_message("MultiValueBool"@, input)),
        }
    }

    open spec fn db_reads_as(input: Seq<char>, v: Self) -> bool {
        bool_of_word(lowercase_of(input)) == Some(v)
    }

    fn parse_from_db(input: &str) -> (r: Result<Self, String>) {
        ComParamBool::try_from(input)
    }
}

impl DeserializableCompParam for RetryPolicy {
    open spec fn db_error(input: Seq<char>) -> Option<Seq<char>> {
        match retry_policy_of(lowercase_of(input)) {
            Some(_) => None,
            None => Some(invalid_value_message("RetryPolicy"@, input)),
        }
    }

    open spec fn db_reads_as(input: Seq<char>, v: Self) -> bool {
        retry_policy_of(lowercase_of(input)) == Some(v)
    }

    fn parse_from_db(input: &str) -> (r: Result<Self, String>) {
        RetryPolicy::try_from(input)
    }
}

impl DeserializableCompParam for AddressingMode {
    open spec fn db_error(input: Seq<char>) -> Option<Seq<char>> {
        match addressing_mode_of(lowercase_of(input)) {
            Some(_) => None,
            None => Some(invalid_value_message("AddressingMode"@, input)),
        }
    }

    open spec fn db_reads_as(input: Seq<char>, v: Self) -> bool {
        addressing_mode_of(lowercase_of(input)) == Some(v)
    }

    fn parse_from_db(input: &str) -> (r: Result<Self, String>) {
        AddressingMode::try_from(input)
    }
}

impl DeserializableCompParam for TesterPresentSendType {
    open spec fn db_error(input: Seq<char>) -> Option<Seq<char>> {
        match send_type_of(lowercase_of(input)) {
            Some(_) => None,
            None => Some(invalid_value_message("TesterPresentMode"@, input)),
        }
    }

    open spec fn db_reads_as(input: Seq<char>, v: Self) -> bool {
        send_type_of(lowercase_of(input)) == Some(v)
    }

    fn parse_from_db(input: &str) -> (r: Result<Self, String>) {
        TesterPresentSendType::try_from(input)
    }
}

impl DeserializableCompParam for u32 {
    open spec fn db_error(input: Seq<char>) -> Option<Seq<char>> {
        match parse_unsigned(encode_utf8(input), 10, 0xFFFF_FFFF) {
            Some(_) => None,
            None => Some(u32_parse_error_debug(input)),
        }
    }

    open spec fn db_reads_as(input: Seq<char>, v: Self) -> bool {
        parse_unsigned(encode_utf8(input), 10, 0xFFFF_FFFF) == Some(v as nat)
    }

    fn parse_from_db(input: &str) -> (r: Result<Self, String>) {
        proof {
            assert(input.spec_bytes() == encode_utf8(input@));
        }
        u32_from_str(input)
    }
}

impl DeserializableCompParam for u16 {
    open spec fn db_error(input: Seq<char>) -> Option<Seq<char>> {
        match parse_unsigned(encode_utf8(input), 10, 0xFFFF) {
            Some(_) => None,
            None => Some(u16_parse_error_debug(input)),
        }
    }

    open spec fn db_reads_as(input: Seq<char>, v: Self) -> bool {
        parse_unsigned(encode_utf8(input), 10, 0xFFFF) == Some(v as nat)
    }

    fn parse_from_db(input: &str) -> (r: Result<Self, String>) {
        proof {
            assert(input.spec_bytes() == encode_utf8(input@));
        }
        match u16_from_str(input) {
            Ok(v) => Ok(v),
            Err(e) => Err(e.debug),
        }
    }
}

/// The bytes serde_json reads the text `s` as when it reads a list of bytes (a JSON array of
/// integers from 0 to 255), if it reads it as one.
pub uninterp spec fn json_bytes_of(s: Seq<char>) -> Option<Seq<u8>>;

/// `serde_json::from_str::<Vec<u8>>`: the bytes of the JSON text `s` when it is a list of
/// bytes, else `None` (the parser's error is dropped). The result depends on `s` alone and is
/// named `json_bytes_of`.
#[verifier::external_body]
fn json_bytes(s: &str) -> (r: Option<Vec<u8>>)
    ensures
        match json_bytes_of(s@) {
            Some(b) => r matches Some(v) && v@ == b,
            None => r is None,
        },
{
    match serde_json::from_str::<Vec<u8>>(s) {
        Ok(v) => Some(v),
        Err(_) => None,
    }
}

impl DeserializableCompParam for Vec<u8> {
    open spec fn db_error(input: Seq<char>) -> Option<Seq<char>> {
        let b = encode_utf8(input);
        if json_bytes_of(input) is Some || (b.len() % 2 == 0 && all_hex(b)) {
            None
        } else {
            Some(hex_error_debug(b))
        }
    }

    open spec fn db_reads_as(input: Seq<char>, v: Self) -> bool {
        match json_bytes_of(input) {
            Some(b) => v@ == b,
            None => v@ == hex_decoded(encode_utf8(input)),
        }
    }

    /// Reads a JSON list of bytes, or else pairs of hex digits.
    fn parse_from_db(input: &str) -> (r: Result<Self, String>) {
        match json_bytes(input) {
            Some(v) => Ok(v),
            None => {
                proof {
                    assert(input.spec_bytes() == encode_utf8(input@));
                }
                hex_decode(input.as_bytes())
            },
        }
    }
}

/// A com parameter: the name it has in the database and the value used when the database
/// gives none.
#[derive(Clone, Debug)]
pub struct ComParamConfig<T> {
    pub name: String,
    pub default: T,
}

fn config<T>(name: &str, default: T) -> (r: ComParamConfig<T>)
    ensures
        r.name@ == name@,
        r.default == default,
{
    ComParamConfig { name: text(name), default }
}

/// The com parameters of UDS communication, with their database names and defaults.
#[derive(Clone, Debug)]
pub struct UdsComParams {
    /// Whether tester present messages are generated.
    pub tester_present_retry_policy: ComParamConfig<ComParamBool>,
    /// Addressing of tester present messages when no functional messages are sent.
    pub tester_present_addr_mode: ComParamConfig<AddressingMode>,
    /// Whether tester present messages expect responses.
    pub tester_present_response_expected: ComParamConfig<ComParamBool>,
    /// When tester present messages are sent.
    pub tester_present_send_type: ComParamConfig<TesterPresentSendType>,
    /// The tester present message.
    pub tester_present_message: ComParamConfig<Vec<u8>>,
    /// The expected positive response to tester present.
    pub tester_present_exp_pos_resp: ComParamConfig<Vec<u8>>,
    /// The expected negative response to tester present.
    pub tester_present_exp_neg_resp: ComParamConfig<Vec<u8>>,
    /// Interval of tester present messages.
    pub tester_present_time: ComParamConfig<Duration>,
    /// Repetitions of an application request after a timeout or transmission error.
    pub repeat_req_count_app: ComParamConfig<u32>,
    /// Retry policy on NRC 0x21 (busy, repeat request).
    pub rc_21_retry_policy: ComParamConfig<RetryPolicy>,
    /// How long repeated NRC 0x21 answers are accepted.
    pub rc_21_completion_timeout: ComParamConfig<Duration>,
    /// Time between NRC 0x21 and the repeated request.
    pub rc_21_repeat_request_time: ComParamConfig<Duration>,
    /// Retry policy on NRC 0x78 (response pending).
    pub rc_78_retry_policy: ComParamConfig<RetryPolicy>,
    /// How long repeated NRC 0x78 answers are accepted.
    pub rc_78_completion_timeout: ComParamConfig<Duration>,
    /// Timeout for the response after NRC 0x78.
    pub rc_78_timeout: ComParamConfig<Duration>,
    /// Retry policy on NRC 0x94 (temporarily not available).
    pub rc_94_retry_policy: ComParamConfig<RetryPolicy>,
    /// How long repeated NRC 0x94 answers are accepted.
    pub rc_94_completion_timeout: ComParamConfig<Duration>,
    /// Time between NRC 0x94 and the repeated request.
    pub rc_94_repeat_request_time: ComParamConfig<Duration>,
    /// Timeout for the response to a successful request.
    pub timeout_default: ComParamConfig<Duration>,
}

/// Whether `r` holds the default UDS com parameters: their database names and default values.
pub open spec fn uds_defaults(r: UdsComParams) -> bool {
    &&& r.tester_present_retry_policy.name@ == "CP_TesterPresentHandling"@
    &&& r.tester_present_retry_policy.default == ComParamBool::True
    &&& r.tester_present_addr_mode.name@ == "CP_TesterPresentAddrMode"@
    &&& r.tester_present_addr_mode.default == AddressingMode::Physical
    &&& r.tester_present_response_expected.name@ == "CP_TesterPresentReqResp"@
    &&& r.tester_present_response_expected.default == ComParamBool::True
    &&& r.tester_present_send_type.name@ == "CP_TesterPresentSendType"@
    &&& r.tester_present_send_type.default == TesterPresentSendType::OnIdle
    &&& r.tester_present_message.name@ == "CP_TesterPresentMessage"@
    &&& r.tester_present_message.default@ == seq![0x3Eu8, 0x00u8]
    &&& r.tester_present_exp_pos_resp.name@ == "CP_TesterPresentExpPosResp"@
    &&& r.tester_present_exp_pos_resp.default@ == seq![0x7Eu8, 0x00u8]
    &&& r.tester_present_exp_neg_resp.name@ == "CP_TesterPresentExpNegResp"@
    &&& r.tester_present_exp_neg_resp.default@ == seq![0x7Fu8, 0x3Eu8]
    &&& r.tester_present_time.name@ == "CP_TesterPresentTime"@
    &&& r.tester_present_time.default == secs_duration(2)
    &&& r.repeat_req_count_app.name@ == "CP_RepeatReqCountApp"@
    &&& r.repeat_req_count_app.default == 2
    &&& r.rc_21_retry_policy.name@ == "CP_RC21Handling"@
    &&& r.rc_21_retry_policy.default == RetryPolicy::ContinueUntilTimeout
    &&& r.rc_21_completion_timeout.name@ == "CP_RC21CompletionTimeout"@
    &&& r.rc_21_completion_timeout.default == secs_duration(25)
    &&& r.rc_21_repeat_request_time.name@ == "CP_RC21RequestTime"@
    &&& r.rc_21_repeat_request_time.default == millis_duration(200)
    &&& r.rc_78_retry_policy.name@ == "CP_RC78Handling"@
    &&& r.rc_78_retry_policy.default == RetryPolicy::ContinueUntilTimeout
    &&& r.rc_78_completion_timeout.name@ == "CP_RC78CompletionTimeout"@
    &&& r.rc_78_completion_timeout.default == secs_duration(25)
    &&& r.rc_78_timeout.name@ == "CP_P6Star"@
    &&& r.rc_78_timeout.default == secs_duration(1)
    &&& r.rc_94_retry_policy.name@ == "CP_RC94Handling"@
    &&& r.rc_94_retry_policy.default == RetryPolicy::ContinueUntilTimeout
    &&& r.rc_94_completion_timeout.name@ == "CP_RC94CompletionTimeout"@
    &&& r.rc_94_completion_timeout.default == secs_duration(25)
    &&& r.rc_94_repeat_request_time.name@ == "CP_RC94RequestTime"@
    &&& r.rc_94_repeat_request_time.default == millis_duration(200)
    &&& r.timeout_default.name@ == "CP_P6Max"@
    &&& r.timeout_default.default == secs_duration(1)
}

impl Default for UdsComParams {
    /// Tester present generated and answered, physically addressed, sent on idle as
    /// `3E 00` every 2 s expecting `7E 00` (negative `7F 3E`); two application repeats;
    /// NRC 0x21, 0x78 and 0x94 retried until a 25 s timeout (0x21 and 0x94 after 200 ms,
    /// 0x78 waiting 1 s); 1 s response timeout.
    fn default() -> (r: UdsComParams)
        ensures
            uds_defaults(r),
    {
        let r = UdsComParams {
            tester_present_retry_policy: config("CP_TesterPresentHandling", ComParamBool::from(true)),
            tester_present_addr_mode: config("CP_TesterPresentAddrMode", AddressingMode::Physical),
            tester_present_response_expected: config(
                "CP_TesterPresentReqResp",
                ComParamBool::from(true),
            ),
            tester_present_send_type: config(
                "CP_TesterPresentSendType",
                TesterPresentSendType::OnIdle,
            ),
            tester_present_message: config("CP_TesterPresentMessage", vec![0x3Eu8, 0x00u8]),
            tester_present_exp_pos_resp: config("CP_TesterPresentExpPosResp", vec![0x7Eu8, 0x00u8]),
            tester_present_exp_neg_resp: config("CP_TesterPresentExpNegResp", vec![0x7Fu8, 0x3Eu8]),
            tester_present_time: config("CP_TesterPresentTime", from_secs(2)),
            repeat_req_count_app: config("CP_RepeatReqCountApp", 2u32),
            rc_21_retry_policy: config("CP_RC21Handling", RetryPolicy::ContinueUntilTimeout),
            rc_21_completion_timeout: config("CP_RC21CompletionTimeout", from_secs(25)),
            rc_21_repeat_request_time: config("CP_RC21RequestTime", from_millis(200)),
            rc_78_retry_policy: config("CP_RC78Handling", RetryPolicy::ContinueUntilTimeout),
            rc_78_completion_timeout: config("CP_RC78CompletionTimeout", from_secs(25)),
            rc_78_timeout: config("CP_P6Star", from_secs(1)),
            rc_94_retry_policy: config("CP_RC94Handling", RetryPolicy::ContinueUntilTimeout),
            rc_94_completion_timeout: config("CP_RC94CompletionTimeout", from_secs(25)),
            rc_94_repeat_request_time: config("CP_RC94RequestTime", from_millis(200)),
            timeout_default: config("CP_P6Max", from_secs(1)),
        };
        assert(r.tester_present_message.default@ =~= seq![0x3Eu8, 0x00u8]);
        assert(r.tester_present_exp_pos_resp.default@ =~= seq![0x7Eu8, 0x00u8]);
        assert(r.tester_present_exp_neg_resp.default@ =~= seq![0x7Fu8, 0x3Eu8]);
        r
    }
}

/// Whether no key stands twice in a table of `(key, value)` entries.
pub open spec fn keys_distinct(t: Seq<(String, u32)>) -> bool {
    forall|i: int, j: int| 0 <= i < j < t.len() ==> #[trigger] t[i].0@ != #[trigger] t[j].0@
}

/// The com parameters of DoIP communication, with their database names and defaults.
#[derive(Clone, Debug)]
pub struct DoipComParams {
    /// Logical address of the DoIP entity the ECU is reached through.
    pub logical_gateway_address: ComParamConfig<u16>,
    /// Name of the table of logical response ids.
    pub logical_response_id_table_name: String,
    /// Logical (physical) address of the ECU.
    pub logical_ecu_address: ComParamConfig<u16>,
    /// Functional address of the ECU.
    pub logical_functional_address: ComParamConfig<u16>,
    /// Logical address of the tester.
    pub logical_tester_address: ComParamConfig<u16>,
    /// Retries per NACK code, the code written as decimal or `0x` hex text: a table keyed by
    /// the code's text, so no text stands in it twice (see [`keys_distinct`]).
    pub nack_number_of_retries: ComParamConfig<Vec<(String, u32)>>,
    /// How long the tester waits for an acknowledgement of the DoIP entity.
    pub diagnostic_ack_timeout: ComParamConfig<Duration>,
    /// Time between retries after a NACK.
    pub retry_period: ComParamConfig<Duration>,
    /// How long a routing activation may take.
    pub routing_activation_timeout: ComParamConfig<Duration>,
    /// Repetitions after a transmission or reception error or a transport timeout.
    pub repeat_request_count_transmission: ComParamConfig<u32>,
    /// How long a connection attempt may take.
    pub connection_timeout: ComParamConfig<Duration>,
    /// Delay before reconnecting.
    pub connection_retry_delay: ComParamConfig<Duration>,
    /// Connection attempts before giving up.
    pub connection_retry_attempts: ComParamConfig<u32>,
}

/// Whether `r` holds the default DoIP com parameters: their database names and default values.
pub open spec fn doip_defaults(r: DoipComParams) -> bool {
    &&& r.logical_gateway_address.name@ == "CP_DoIPLogicalGatewayAddress"@
    &&& r.logical_gateway_address.default == 0
    &&& r.logical_response_id_table_name@ == "CP_UniqueRespIdTable"@
    &&& r.logical_ecu_address.name@ == "CP_DoIPLogicalEcuAddress"@
    &&& r.logical_ecu_address.default == 0
    &&& r.logical_functional_address.name@ == "CP_DoIPLogicalFunctionalAddress"@
    &&& r.logical_functional_address.default == 0
    &&& r.logical_tester_address.name@ == "CP_DoIPLogicalTesterAddress"@
    &&& r.logical_tester_address.default == 0
    &&& r.nack_number_of_retries.name@ == "CP_DoIPNumberOfRetries"@
    &&& r.nack_number_of_retries.default@.len() == 1
    &&& r.nack_number_of_retries.default@[0].0@ == "0x03"@
    &&& r.nack_number_of_retries.default@[0].1 == 3
    &&& keys_distinct(r.nack_number_of_retries.default@)
    &&& r.diagnostic_ack_timeout.name@ == "CP_DoIPDiagnosticAckTimeout"@
    &&& r.diagnostic_ack_timeout.default == secs_duration(1)
    &&& r.retry_period.name@ == "CP_DoIPRetryPeriod"@
    &&& r.retry_period.default == millis_duration(200)
    &&& r.routing_activation_timeout.name@ == "CP_DoIPRoutingActivationTimeout"@
    &&& r.routing_activation_timeout.default == secs_duration(30)
    &&& r.repeat_request_count_transmission.name@ == "CP_RepeatReqCountTrans"@
    &&& r.repeat_request_count_transmission.default == 3
    &&& r.connection_timeout.name@ == "CP_DoIPConnectionTimeout"@
    &&& r.connection_timeout.default == secs_duration(30)
    &&& r.connection_retry_delay.name@ == "CP_DoIPConnectionRetryDelay"@
    &&& r.connection_retry_delay.default == secs_duration(5)
    &&& r.connection_retry_attempts.name@ == "CP_DoIPConnectionRetryAttempts"@
    &&& r.connection_retry_attempts.default == 100
}

impl Default for DoipComParams {
    /// All addresses 0, three retries on NACK `0x03` (out of memory), a 1 s acknowledgement
    /// timeout, 200 ms between retries, 30 s for routing activation and for connecting, three
    /// transmission repeats, and 100 connection attempts 5 s apart.
    fn default() -> (r: DoipComParams)
        ensures
            doip_defaults(r),
    {
        DoipComParams {
            logical_gateway_address: config("CP_DoIPLogicalGatewayAddress", 0u16),
            logical_response_id_table_name: text("CP_UniqueRespIdTable"),
            logical_ecu_address: config("CP_DoIPLogicalEcuAddress", 0u16),
            logical_functional_address: config("CP_DoIPLogicalFunctionalAddress", 0u16),
            logical_tester_address: config("CP_DoIPLogicalTesterAddress", 0u16),
            nack_number_of_retries: config("CP_DoIPNumberOfRetries", vec![(text("0x03"), 3u32)]),
            diagnostic_ack_timeout: config("CP_DoIPDiagnosticAckTimeout", from_secs(1)),
            retry_period: config("CP_DoIPRetryPeriod", from_millis(200)),
            routing_activation_timeout: config("CP_DoIPRoutingActivationTimeout", from_secs(30)),
            repeat_request_count_transmission: config("CP_RepeatReqCountTrans", 3u32),
            connection_timeout: config("CP_DoIPConnectionTimeout", from_secs(30)),
            connection_retry_delay: config("CP_DoIPConnectionRetryDelay", from_secs(5)),
            connection_retry_attempts: config("CP_DoIPConnectionRetryAttempts", 100u32),
        }
    }
}

/// The com parameters of UDS and DoIP communication.
#[derive(Clone, Debug)]
pub struct ComParams {
    pub uds: UdsComParams,
    pub doip: DoipComParams,
}

impl Default for ComParams {
    /// The default UDS and DoIP com parameters.
    fn default() -> (r: ComParams)
        ensures
            uds_defaults(r.uds),
            doip_defaults(r.doip),
    {
        ComParams { uds: UdsComParams::default(), doip: DoipComParams::default() }
    }
}

} // verus!
