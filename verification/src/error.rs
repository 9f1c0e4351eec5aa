//! Error types shared by the diagnostic data and protocol logic.
use vstd::prelude::*;

verus! {

/// A parse failure of a single value: the raw value and what went wrong.
#[derive(Debug, Clone, PartialEq, Eq)]
pub struct DataParseError {
    pub value: String,
    pub details: String,
}

/// Errors raised while handling diagnostic services, payloads and databases.
#[derive(Debug, Clone, PartialEq, Eq)]
pub enum DiagServiceError {
    /// Returned in case a resource can not be found
    NotFound(String),
    RequestNotSupported(String),
    InvalidDatabase(String),
    InvalidRequest(String),
    ParameterConversionError(String),
    UnknownOperation,
    UdsLookupError(String),
    BadPayload(String),
    /// The data received is insufficient to process the request.
    NotEnoughData { expected: usize, actual: usize },
    VariantDetectionError(String),
    InvalidState(String),
    InvalidAddress(String),
    SendFailed(String),
    Nack(u8),
    UnexpectedResponse(Option<String>),
    NoResponse(String),
    ConnectionClosed(String),
    EcuOffline(String),
    Timeout,
    AccessDenied(String),
    /// Returned in case a resource can be found but returns an error
    ResourceError(String),
    DataError(DataParseError),
    /// The provided value for the security plugin cannot be used
    InvalidSecurityPlugin,
    AmbiguousParameters { name: String, candidates: Vec<String> },
    /// No value found with the given parameters; the possible values are listed.
    InvalidParameter { possible_values: Vec<String> },
    InvalidConfiguration(String),
}

/// A [`DiagServiceError`] as contracts speak of it: its variant with its message, or with its
/// numbers.
pub enum ErrorKind {
    BadPayload(Seq<char>),
    NotEnoughData { expected: usize, actual: usize },
    InvalidDatabase(Seq<char>),
}

/// Whether `e` is the error `k`.
pub open spec fn is_kind(e: DiagServiceError, k: ErrorKind) -> bool {
    match k {
        ErrorKind::BadPayload(m) => e matches DiagServiceError::BadPayload(x) && x@ == m,
        ErrorKind::NotEnoughData { expected, actual } => e == DiagServiceError::NotEnoughData {
            expected,
            actual,
        },
        ErrorKind::InvalidDatabase(m) => e matches DiagServiceError::InvalidDatabase(x) && x@ == m,
    }
}

/// Creates an owned message from a string slice.
pub fn text(s: &str) -> (r: String)
    ensures
        r@ == s@,
{
    String::from_str(s)
}

/// Decimal digit character of `d` (0..=9).
pub open spec fn digit_char(d: int) -> char {
    if d == 0 {
        '0'
    } else if d == 1 {
        '1'
    } else if d == 2 {
        '2'
    } else if d == 3 {
        '3'
    } else if d == 4 {
        '4'
    } else if d == 5 {
        '5'
    } else if d == 6 {
        '6'
    } else if d == 7 {
        '7'
    } else if d == 8 {
        '8'
    } else {
        '9'
    }
}

/// Decimal representation of `n` without leading zeros.
pub open spec fn decimal(n: nat) -> Seq<char>
    decreases n,
{
    if n < 10 {
        seq![digit_char(n as int)]
    } else {
        decimal(n / 10).push(digit_char((n % 10) as int))
    }
}

/// Appends `c` to `s` (std `String::push`, which appends one character).
#[verifier::external_body]
pub(crate) fn push_char(s: &mut String, c: char)
    ensures
        final(s)@ == old(s)@.push(c),
{
    s.push(c);
}

/// Appends `t` to `s`.
pub fn push_text(s: &mut String, t: &str)
    ensures
        final(s)@ == old(s)@ + t@,
{
    s.append(t);
}

fn digit(d: u64) -> (c: char)
    requires
        d < 10,
    ensures
        c == digit_char(d as int),
{
    if d == 0 {
        '0'
    } else if d == 1 {
        '1'
    } else if d == 2 {
        '2'
    } else if d == 3 {
        '3'
    } else if d == 4 {
        '4'
    } else if d == 5 {
        '5'
    } else if d == 6 {
        '6'
    } else if d == 7 {
        '7'
    } else if d == 8 {
        '8'
    } else {
        '9'
    }
}

/// Appends the decimal representation of `n` to `s`.
pub fn push_decimal(s: &mut String, n: u64)
    ensures
        final(s)@ == old(s)@ + decimal(n as nat),
    decreases n,
{
    if n >= 10 {
        push_decimal(s, n / 10);
    }
    push_char(s, digit(n % 10));
    proof {
        if n >= 10 {
            assert(decimal(n as nat) == decimal((n / 10) as nat).push(digit_char((n % 10) as int)));
        }
        assert(s@ =~= old(s)@ + decimal(n as nat));
    }
}

/// What std's `Debug` formatting (`{:?}`) writes for a string with the characters `s`: the
/// text in double quotes, with quotes, backslashes and control characters escaped.
pub uninterp spec fn debug_str(s: Seq<char>) -> Seq<char>;

/// The strings with the characters `v`, each as `debug_str` writes it, separated by `", "`.
pub open spec fn debug_items(v: Seq<Seq<char>>) -> Seq<char>
    decreases v.len(),
{
    if v.len() == 0 {
        Seq::empty()
    } else if v.len() == 1 {
        debug_str(v[0])
    } else {
        debug_items(v.drop_last()) + ", "@ + debug_str(v.last())
    }
}

/// What std's `Debug` formatting (`{:?}`) writes for a list of strings with the characters
/// `v`: each string as `debug_str` writes it, separated by `", "`, in brackets.
pub open spec fn debug_str_list(v: Seq<Seq<char>>) -> Seq<char> {
    "["@ + debug_items(v) + "]"@
}

/// The characters of each string of `v`.
pub open spec fn texts_of(v: Seq<String>) -> Seq<Seq<char>> {
    v.map_values(|x: String| x@)
}

/// `Debug` text of a string: std `format!("{:?}")` on a `String`, whose result depends on
/// the characters of `s` alone and is named `debug_str`.
#[verifier::external_body]
pub(crate) fn debug_text(s: &String) -> (r: String)
    ensures
        r@ == debug_str(s@),
{
    format!("{s:?}")
}

/// The human readable message of an error.
pub open spec fn message_text(e: DiagServiceError) -> Seq<char> {
    match e {
        DiagServiceError::NotFound(m) => "Not found: "@ + debug_str(m@),
        DiagServiceError::RequestNotSupported(m) => "Request not supported: "@ + m@,
        DiagServiceError::InvalidDatabase(m) => "Invalid database: "@ + m@,
        DiagServiceError::InvalidRequest(m) => "Invalid request: "@ + m@,
        DiagServiceError::ParameterConversionError(m) => "Parameter conversion error: "@ + m@,
        DiagServiceError::UnknownOperation => "Unknown operation"@,
        DiagServiceError::UdsLookupError(m) => "UDS lookup error: "@ + m@,
        DiagServiceError::BadPayload(m) => "Bad payload: "@ + m@,
        DiagServiceError::NotEnoughData { expected, actual } => "Payload too short, expected at least "@
            + decimal(expected as nat) + " bytes, got "@ + decimal(actual as nat) + " bytes"@,
        DiagServiceError::VariantDetectionError(m) => "Variant detection error: "@ + m@,
        DiagServiceError::InvalidState(m) => m@,
        DiagServiceError::InvalidAddress(m) => m@,
        DiagServiceError::SendFailed(m) => "Sending message failed "@ + m@,
        DiagServiceError::Nack(code) => "Received Nack, code="@ + decimal(code as nat),
        DiagServiceError::NoResponse(m) => "No response "@ + m@,
        DiagServiceError::ConnectionClosed(m) => "Connection closed "@ + m@,
        DiagServiceError::EcuOffline(m) => "Ecu "@ + m@ + " offline"@,
        DiagServiceError::Timeout => "Timeout"@,
        DiagServiceError::AccessDenied(m) => "Access denied: "@ + m@,
        DiagServiceError::ResourceError(m) => "Resource error: "@ + m@,
        DiagServiceError::DataError(d) => "Data parse error: value='"@ + d.value@ + "', details='"@
            + d.details@ + "'"@,
        DiagServiceError::InvalidSecurityPlugin => "Invalid security plugin provided"@,
        DiagServiceError::InvalidConfiguration(m) => "Invalid configuration: "@ + m@,
        DiagServiceError::UnexpectedResponse(m) => "Unexpected response. "@ + match m {
            Some(t) => "Some("@ + debug_str(t@) + ")"@,
            None => "None"@,
        },
        DiagServiceError::AmbiguousParameters { name, candidates } =>
            "Unable to find a unique value with the given parameters: name='"@ + name@
            + "', candidates='"@ + debug_str_list(texts_of(candidates@)) + "'"@,
        DiagServiceError::InvalidParameter { possible_values } =>
            "No value found with the given parameters. Possible values are: "@
            + debug_str_list(texts_of(possible_values@)),
    }
}

impl DiagServiceError {
    /// The human readable message of the error.
    pub fn to_string(&self) -> (r: String)
        ensures
            r@ == message_text(*self),
    {
        let mut s = String::new();
        match self {
            DiagServiceError::NotFound(m) => {
                push_text(&mut s, "Not found: ");
                push_text(&mut s, debug_text(m).as_str());
            },
            DiagServiceError::RequestNotSupported(m) => {
                push_text(&mut s, "Request not supported: ");
                push_text(&mut s, m.as_str());
            },
            DiagServiceError::InvalidDatabase(m) => {
                push_text(&mut s, "Invalid database: ");
                push_text(&mut s, m.as_str());
            },
            DiagServiceError::InvalidRequest(m) => {
                push_text(&mut s, "Invalid request: ");
                push_text(&mut s, m.as_str());
            },
            DiagServiceError::ParameterConversionError(m) => {
                push_text(&mut s, "Parameter conversion error: ");
                push_text(&mut s, m.as_str());
            },
            DiagServiceError::UnknownOperation => {
                push_text(&mut s, "Unknown operation");
            },
            DiagServiceError::UdsLookupError(m) => {
                push_text(&mut s, "UDS lookup error: ");
                push_text(&mut s, m.as_str());
            },
            DiagServiceError::BadPayload(m) => {
                push_text(&mut s, "Bad payload: ");
                push_text(&mut s, m.as_str());
            },
            DiagServiceError::NotEnoughData { expected, actual } => {
                push_text(&mut s, "Payload too short, expected at least ");
                push_decimal(&mut s, *expected as u64);
                push_text(&mut s, " bytes, got ");
                push_decimal(&mut s, *actual as u64);
                push_text(&mut s, " bytes");
            },
            DiagServiceError::VariantDetectionError(m) => {
                push_text(&mut s, "Variant detection error: ");
                push_text(&mut s, m.as_str());
            },
            DiagServiceError::InvalidState(m) => {
                push_text(&mut s, m.as_str());
            },
            DiagServiceError::InvalidAddress(m) => {
                push_text(&mut s, m.as_str());
            },
            DiagServiceError::SendFailed(m) => {
                push_text(&mut s, "Sending message failed ");
                push_text(&mut s, m.as_str());
            },
            DiagServiceError::Nack(code) => {
                push_text(&mut s, "Received Nack, code=");
                push_decimal(&mut s, *code as u64);
            },
            DiagServiceError::UnexpectedResponse(m) => {
                push_text(&mut s, "Unexpected response. ");
                match m {
                    Some(t) => {
                        push_text(&mut s, "Some(");
                        push_text(&mut s, debug_text(t).as_str());
                        push_text(&mut s, ")");
                    },
                    None => {
                        push_text(&mut s, "None");
                    },
                }
            },
            DiagServiceError::NoResponse(m) => {
                push_text(&mut s, "No response ");
                push_text(&mut s, m.as_str());
            },
            DiagServiceError::ConnectionClosed(m) => {
                push_text(&mut s, "Connection closed ");
                push_text(&mut s, m.as_str());
            },
            DiagServiceError::EcuOffline(m) => {
                push_text(&mut s, "Ecu ");
                push_text(&mut s, m.as_str());
                push_text(&mut s, " offline");
            },
            DiagServiceError::Timeout => {
                push_text(&mut s, "Timeout");
            },
            DiagServiceError::AccessDenied(m) => {
                push_text(&mut s, "Access denied: ");
                push_text(&mut s, m.as_str());
            },
            DiagServiceError::ResourceError(m) => {
                push_text(&mut s, "Resource error: ");
                push_text(&mut s, m.as_str());
            },
            DiagServiceError::DataError(d) => {
                push_text(&mut s, "Data parse error: value='");
                push_text(&mut s, d.value.as_str());
                push_text(&mut s, "', details='");
                push_text(&mut s, d.details.as_str());
                push_text(&mut s, "'");
            },
            DiagServiceError::InvalidSecurityPlugin => {
                push_text(&mut s, "Invalid security plugin provided");
            },
            DiagServiceError::AmbiguousParameters { name, candidates } => {
                push_text(&mut s, "Unable to find a unique value with the given parameters: name='");
                push_text(&mut s, name.as_str());
                push_text(&mut s, "', candidates='");
                push_text(&mut s, debug_list(candidates).as_str());
                push_text(&mut s, "'");
            },
            DiagServiceError::InvalidParameter { possible_values } => {
                push_text(
                    &mut s,
                    "No value found with the given parameters. Possible values are: ",
                );
                push_text(&mut s, debug_list(possible_values).as_str());
            },
            DiagServiceError::InvalidConfiguration(m) => {
                push_text(&mut s, "Invalid configuration: ");
                push_text(&mut s, m.as_str());
            },
        }
        s
    }
}

/// `Debug` text of a list of strings: std `format!("{:?}")` on a `Vec<String>`, which writes
/// the list in brackets with its items separated by `", "`, as the documentation of
/// `Formatter::debug_list` shows; each item is written as the string's own `Debug` text,
/// which `debug_str` names.
#[verifier::external_body]
fn debug_list(v: &Vec<String>) -> (r: String)
    ensures
        r@ == debug_str_list(texts_of(v@)),
{
    format!("{v:?}")
}

} // verus!
