//! Security plugins: the claims of an authenticated client, the errors of authentication and
//! the HTTP responses they lead to.
use vstd::prelude::*;
use std::collections::HashMap;
use crate::error::{push_text, text};
use crate::sovd::ErrorCode;

pub mod default_plugin;

verus! {

/// A JSON value, held opaquely.
#[verifier::external_type_specification]
#[verifier::external_body]
pub struct ExJsonValue(serde_json::Value);

/// The claims of an authentication token.
pub trait Claims {
    /// The subject (user identifier) of the token.
    fn sub(&self) -> &str;
}

/// Access to the claims of the current authentication.
pub trait AuthApi {
    /// The kind of claims the plugin holds.
    type ClaimsType: Claims;

    /// The claims of the current authentication.
    fn claims(&self) -> &Self::ClaimsType;
}

/// A security plugin that can be created for each request.
pub trait SecurityPluginLoader: Default {
}

/// Errors of authentication and authorisation.
#[derive(Debug)]
pub enum AuthError {
    /// No token came with the request.
    NoTokenProvided,
    /// The credentials of an authorisation request are wrong.
    WrongCredentials,
    /// An authorisation request came without credentials.
    MissingCredentials,
    /// The token is invalid or malformed.
    InvalidToken { details: String },
    /// The security plugin is misconfigured.
    Internal,
    /// A plugin specific error with its HTTP status and SOVD error data.
    Custom {
        http_status: u16,
        message: String,
        error_code: ErrorCode,
        vendor_code: Option<String>,
        parameters: Option<HashMap<String, serde_json::Value>>,
    },
}

/// The message of an authentication error.
pub open spec fn auth_error_message(e: AuthError) -> Seq<char> {
    match e {
        AuthError::NoTokenProvided => "No token provided in the request"@,
        AuthError::WrongCredentials => "Wrong credentials provided in the request"@,
        AuthError::MissingCredentials => "No credentials provided in the request"@,
        AuthError::InvalidToken { details } => "Invalid token: "@ + details@,
        AuthError::Internal => "Misconfiguration of Security Plugin"@,
        AuthError::Custom { message, .. } => "Authentication error: "@ + message@,
    }
}

impl AuthError {
    /// The message of the error.
    pub fn to_string(&self) -> (r: String)
        ensures
            r@ == auth_error_message(*self),
    {
        match self {
            AuthError::NoTokenProvided => text("No token provided in the request"),
            AuthError::WrongCredentials => text("Wrong credentials provided in the request"),
            AuthError::MissingCredentials => text("No credentials provided in the request"),
            AuthError::InvalidToken { details } => {
                let mut s = String::new();
                push_text(&mut s, "Invalid token: ");
                push_text(&mut s, details.as_str());
                s
            },
            AuthError::Internal => text("Misconfiguration of Security Plugin"),
            AuthError::Custom { message, .. } => {
                let mut s = String::new();
                push_text(&mut s, "Authentication error: ");
                push_text(&mut s, message.as_str());
                s
            },
        }
    }
}

/// A SOVD error response body.
#[derive(Debug)]
pub struct ApiErrorResponse {
    pub message: String,
    pub error_code: ErrorCode,
    pub vendor_code: Option<String>,
    pub parameters: Option<HashMap<String, serde_json::Value>>,
    pub error_source: Option<String>,
}

/// An HTTP response of the security layer: its status and, where it has one, its error body.
#[derive(Debug)]
pub struct ErrorHttpResponse {
    pub status: u16,
    pub body: Option<ApiErrorResponse>,
}

/// The HTTP response of an authentication error (SOVD 6.15.6): a missing token is `401`
/// without a body, a misconfigured plugin `500` with a server misconfigured error, a plugin
/// specific error its own status and data, and every other error `403` with an insufficient
/// access rights error carrying the message.
pub fn auth_error_response(e: AuthError) -> (r: ErrorHttpResponse)
    ensures
        e is NoTokenProvided ==> r.status == 401 && r.body is None,
        e is Internal ==> r.status == 500 && (r.body matches Some(b) && b.message@
            == auth_error_message(e) && b.error_code == ErrorCode::SovdServerMisconfigured
            && b.vendor_code is None && b.parameters is None && b.error_source is None),
        (e matches AuthError::Custom { http_status, message, error_code, vendor_code, parameters }
            ==> r.status == http_status && (r.body matches Some(b) && b.message@ == message@
            && b.error_code == error_code && b.vendor_code == vendor_code && b.parameters
            == parameters && b.error_source is None)),
        (e is WrongCredentials || e is MissingCredentials || e is InvalidToken) ==> r.status
            == 403 && (r.body matches Some(b) && b.message@ == auth_error_message(e)
            && b.error_code == ErrorCode::InsufficientAccessRights && b.vendor_code is None
            && b.parameters is None && b.error_source is None),
{
    let message = e.to_string();
    match e {
        AuthError::NoTokenProvided => ErrorHttpResponse { status: 401, body: None },
        AuthError::Internal => ErrorHttpResponse {
            status: 500,
            body: Some(
                ApiErrorResponse {
                    message,
                    error_code: ErrorCode::SovdServerMisconfigured,
                    vendor_code: None,
                    parameters: None,
                    error_source: None,
                },
            ),
        },
        AuthError::Custom { http_status, message, error_code, vendor_code, parameters } => {
            ErrorHttpResponse {
                status: http_status,
                body: Some(
                    ApiErrorResponse {
                        message,
                        error_code,
                        vendor_code,
                        parameters,
                        error_source: None,
                    },
                ),
            }
        },
        _ => ErrorHttpResponse {
            status: 403,
            body: Some(
                ApiErrorResponse {
                    message,
                    error_code: ErrorCode::InsufficientAccessRights,
                    vendor_code: None,
                    parameters: None,
                    error_source: None,
                },
            ),
        },
    }
}

/// Claims of the test plugin: the fixed user `test_user`.
pub struct TestClaims;

impl Claims for TestClaims {
    fn sub(&self) -> (r: &str)
        ensures
            r@ == "test_user"@,
    {
        "test_user"
    }
}

/// A security plugin for tests that lets every request pass as `test_user`.
#[derive(Clone)]
pub struct TestSecurityPlugin;

impl AuthApi for TestSecurityPlugin {
    type ClaimsType = TestClaims;

    fn claims(&self) -> &TestClaims {
        &TestClaims
    }
}

impl Default for TestSecurityPlugin {
    fn default() -> (r: Self)
        ensures
            r == TestSecurityPlugin,
    {
        TestSecurityPlugin
    }
}

impl SecurityPluginLoader for TestSecurityPlugin {
}

} // verus!
