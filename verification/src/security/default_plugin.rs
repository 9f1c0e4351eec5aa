//! The default security plugin: JWT bearer tokens issued for client credentials.
use vstd::prelude::*;
use crate::error::text;
use crate::security::{
    auth_error_message, ApiErrorResponse, AuthApi, AuthError, Claims as ClaimsApi,
    SecurityPluginLoader,
};
use crate::sovd::ErrorCode;
use crate::text::str_eq;

verus! {

/// Expiry of issued tokens, as a Unix timestamp (May 2033).
pub const TOKEN_EXPIRY: usize = 2_000_000_000;

/// The claims of a token of the default plugin: its subject and expiry.
#[derive(Debug, Clone)]
pub struct Claims {
    sub: String,
    exp: usize,
}

impl Claims {
    /// The subject of the claims.
    pub closed spec fn subject(self) -> Seq<char> {
        self.sub@
    }

    /// The expiry of the claims.
    pub closed spec fn expiry(self) -> usize {
        self.exp
    }

    /// Claims of subject `sub` expiring at `exp`.
    pub fn new(sub: String, exp: usize) -> (r: Self)
        ensures
            r.subject() == sub@,
            r.expiry() == exp,
    {
        Claims { sub, exp }
    }

    /// The expiry of the token, a Unix timestamp.
    pub fn exp(&self) -> (r: usize)
        ensures
            r == self.expiry(),
    {
        self.exp
    }
}

impl ClaimsApi for Claims {
    fn sub(&self) -> (r: &str)
        ensures
            r@ == self.subject(),
    {
        self.sub.as_str()
    }
}

/// The answer to a successful authorisation: the token, its type `Bearer` and its expiry.
#[derive(Debug, Clone)]
pub struct AuthBody {
    access_token: String,
    token_type: String,
    expires_in: usize,
}

impl AuthBody {
    /// The token.
    pub closed spec fn token_text(self) -> Seq<char> {
        self.access_token@
    }

    /// The type of the token.
    pub closed spec fn type_text(self) -> Seq<char> {
        self.token_type@
    }

    /// The expiry of the token.
    pub closed spec fn expiry(self) -> usize {
        self.expires_in
    }

    /// The answer carrying a bearer token `access_token` that expires at `expires_in`.
    pub fn new(access_token: String, expires_in: usize) -> (r: Self)
        ensures
            r.token_text() == access_token@,
            r.type_text() == "Bearer"@,
            r.expiry() == expires_in,
    {
        AuthBody { access_token, token_type: text("Bearer"), expires_in }
    }

    /// The token.
    pub fn access_token(&self) -> (r: &str)
        ensures
            r@ == self.token_text(),
    {
        self.access_token.as_str()
    }

    /// The type of the token.
    pub fn token_type(&self) -> (r: &str)
        ensures
            r@ == self.type_text(),
    {
        self.token_type.as_str()
    }

    /// The expiry of the token.
    pub fn expires_in(&self) -> (r: usize)
        ensures
            r == self.expiry(),
    {
        self.expires_in
    }
}

/// The credentials of an authorisation request.
#[derive(Debug, Clone)]
pub struct AuthPayload {
    client_id: String,
    client_secret: String,
}

impl AuthPayload {
    /// The client identifier.
    pub closed spec fn id_text(self) -> Seq<char> {
        self.client_id@
    }

    /// The client secret.
    pub closed spec fn secret_text(self) -> Seq<char> {
        self.client_secret@
    }

    /// Credentials of client `client_id` with secret `client_secret`.
    pub fn new(client_id: String, client_secret: String) -> (r: Self)
        ensures
            r.id_text() == client_id@,
            r.secret_text() == client_secret@,
    {
        AuthPayload { client_id, client_secret }
    }
}

/// Checks the credentials of an authorisation request: both must be given, and the secret
/// must be `secret`.
pub fn check_auth_payload(payload: &AuthPayload) -> (r: Result<(), AuthError>)
    ensures
        (payload.id_text().len() == 0 || payload.secret_text().len() == 0) ==> r matches Err(
            AuthError::MissingCredentials,
        ),
        !(payload.id_text().len() == 0 || payload.secret_text().len() == 0) && payload.secret_text()
            != "secret"@ ==> r matches Err(AuthError::WrongCredentials),
        !(payload.id_text().len() == 0 || payload.secret_text().len() == 0) && payload.secret_text()
            == "secret"@ ==> r is Ok,
{
    if payload.client_id.as_str().is_empty() || payload.client_secret.as_str().is_empty() {
        return Err(AuthError::MissingCredentials);
    }
    if !str_eq(payload.client_secret.as_str(), "secret") {
        return Err(AuthError::WrongCredentials);
    }
    Ok(())
}

/// The response of the authorisation endpoint: its HTTP status and body.
#[derive(Debug)]
pub enum AuthorizeResponse {
    /// An error response with its status.
    Error { status: u16, body: ApiErrorResponse },
    /// `200` with the issued token.
    Authorized(AuthBody),
}

/// The response to a request body that is no valid credentials object: `400` with a vendor
/// specific `bad-request` error carrying the parser's message.
pub fn bad_authorize_request(parse_error: String) -> (r: AuthorizeResponse)
    ensures
        r matches AuthorizeResponse::Error { status, body } && status == 400 && body.message@
            == parse_error@ && body.error_code == ErrorCode::VendorSpecific && (body.vendor_code matches Some(
            v,
        ) && v@ == "bad-request"@) && body.parameters is None && body.error_source is None,
{
    AuthorizeResponse::Error {
        status: 400,
        body: ApiErrorResponse {
            message: parse_error,
            error_code: ErrorCode::VendorSpecific,
            vendor_code: Some(text("bad-request")),
            parameters: None,
            error_source: None,
        },
    }
}

/// The claims to issue a token for: the client as subject, expiring at [`TOKEN_EXPIRY`]; or,
/// when the credentials do not pass, the `403` insufficient access rights response with the
/// error's message.
pub fn authorization_claims(payload: AuthPayload) -> (r: Result<Claims, AuthorizeResponse>)
    ensures
        (payload.id_text().len() == 0 || payload.secret_text().len() == 0) ==> (r matches Err(
            AuthorizeResponse::Error { status, body },
        ) && status == 403 && body.message@ == auth_error_message(AuthError::MissingCredentials)
            && body.error_code == ErrorCode::InsufficientAccessRights),
        !(payload.id_text().len() == 0 || payload.secret_text().len() == 0) && payload.secret_text()
            != "secret"@ ==> (r matches Err(AuthorizeResponse::Error { status, body }) && status
            == 403 && body.message@ == auth_error_message(AuthError::WrongCredentials)
            && body.error_code == ErrorCode::InsufficientAccessRights),
        !(payload.id_text().len() == 0 || payload.secret_text().len() == 0) && payload.secret_text()
            == "secret"@ ==> (r matches Ok(c) && c.subject() == payload.id_text() && c.expiry()
            == TOKEN_EXPIRY),
{
    match check_auth_payload(&payload) {
        Err(e) => {
            let message = e.to_string();
            Err(
                AuthorizeResponse::Error {
                    status: 403,
                    body: ApiErrorResponse {
                        message,
                        error_code: ErrorCode::InsufficientAccessRights,
                        vendor_code: None,
                        parameters: None,
                        error_source: None,
                    },
                },
            )
        },
        Ok(()) => Ok(Claims::new(payload.client_id, TOKEN_EXPIRY)),
    }
}

/// The response once the token of `claims` was encoded: `200` with the bearer token expiring
/// when the claims do, or `500` with a server failure when encoding failed (`None`).
pub fn authorization_response(claims: &Claims, token: Option<String>) -> (r: AuthorizeResponse)
    ensures
        token matches Some(t) ==> (r matches AuthorizeResponse::Authorized(b) && b.token_text()
            == t@ && b.type_text() == "Bearer"@ && b.expiry() == claims.expiry()),
        token is None ==> (r matches AuthorizeResponse::Error { status, body } && status == 500
            && body.message@ == "Internal server error"@ && body.error_code
            == ErrorCode::SovdServerFailure),
{
    match token {
        Some(t) => AuthorizeResponse::Authorized(AuthBody::new(t, claims.exp)),
        None => AuthorizeResponse::Error {
            status: 500,
            body: ApiErrorResponse {
                message: text("Internal server error"),
                error_code: ErrorCode::SovdServerFailure,
                vendor_code: None,
                parameters: None,
                error_source: None,
            },
        },
    }
}

/// The data of an authenticated request: the claims of its token.
pub struct DefaultSecurityPluginData {
    claims: Claims,
}

impl DefaultSecurityPluginData {
    /// The claims of the request.
    pub closed spec fn held_claims(self) -> Claims {
        self.claims
    }

    /// The data of a request authenticated with `claims`.
    pub fn new(claims: Claims) -> (r: Self)
        ensures
            r.held_claims() == claims,
    {
        DefaultSecurityPluginData { claims }
    }
}

impl AuthApi for DefaultSecurityPluginData {
    type ClaimsType = Claims;

    fn claims(&self) -> (r: &Claims)
        ensures
            *r == self.held_claims(),
    {
        &self.claims
    }
}

/// The default security plugin.
#[derive(Default)]
pub struct DefaultSecurityPlugin;

impl SecurityPluginLoader for DefaultSecurityPlugin {
}

} // verus!
