//! Error taxonomy of the authentication core and the structured problem
//! payload handed back over the API boundary.

use vstd::prelude::*;

verus! {

/// Failure classes of the core. Credential-lookup failures are normalised to
/// the single `InvalidCredentials` outcome before they cross the boundary, so
/// a caller cannot learn which factor failed (anti-enumeration).
#[derive(Clone, Copy, Debug, PartialEq, Eq, Structural)]
pub enum AuthError {
    /// Malformed or missing input; safe to reveal field-level detail.
    Validation,
    /// Uniform outcome for: actor not found, account not active, no password
    /// configured, or secret mismatch.
    InvalidCredentials,
    /// Bad signature, malformed structure, or expired access token.
    InvalidToken,
    /// A presented refresh secret that matches no active session.
    InvalidOrExpired,
    /// A superseded refresh secret was replayed; the session family has been
    /// revoked as a side effect.
    ReuseDetected,
    /// No tenant mapping exists for the request host.
    TenantNotFound,
    /// Decryption or signature check failed on stored data.
    Integrity,
    /// Data-store or crypto-library failure; surfaced only generically.
    Infrastructure,
}

/// Structured problem payload: title, numeric status, machine code, optional
/// detail, optional field-level errors. The trace identifier is attached at
/// the transport layer.
pub struct ApiError {
    pub status: u16,
    pub code: String,
    pub title: String,
    pub detail: Option<String>,
    pub fields: Option<Vec<(String, String)>>,
}

impl ApiError {
    pub fn new(status: u16, code: &str, title: &str) -> (r: ApiError)
        ensures
            r.status == status,
            r.code@ == code@,
            r.title@ == title@,
            r.detail is None,
            r.fields is None,
    {
        ApiError {
            status,
            code: code.to_owned(),
            title: title.to_owned(),
            detail: None,
            fields: None,
        }
    }

    pub fn with_detail(self, detail: &str) -> (r: ApiError)
        ensures
            r.status == self.status,
            r.code == self.code,
            r.title == self.title,
            r.detail matches Some(d) && d@ == detail@,
            r.fields == self.fields,
    {
        ApiError { detail: Some(detail.to_owned()), ..self }
    }

    pub fn with_fields(self, fields: Vec<(String, String)>) -> (r: ApiError)
        ensures
            r.status == self.status,
            r.code == self.code,
            r.title == self.title,
            r.detail == self.detail,
            r.fields matches Some(f) && f == fields,
    {
        ApiError { fields: Some(fields), ..self }
    }

    pub fn unauthorized() -> (r: ApiError)
        ensures
            r.status == 401,
            r.code@ == "UNAUTHORIZED"@,
            r.title@ == "Authentication required"@,
            r.detail is None,
            r.fields is None,
    {
        ApiError::new(401, "UNAUTHORIZED", "Authentication required")
    }

    pub fn forbidden() -> (r: ApiError)
        ensures
            r.status == 403,
            r.code@ == "FORBIDDEN"@,
            r.title@ == "Access denied"@,
            r.detail is None,
            r.fields is None,
    {
        ApiError::new(403, "FORBIDDEN", "Access denied")
    }

    pub fn not_found() -> (r: ApiError)
        ensures
            r.status == 404,
            r.code@ == "NOT_FOUND"@,
            r.title@ == "Resource not found"@,
            r.detail is None,
            r.fields is None,
    {
        ApiError::new(404, "NOT_FOUND", "Resource not found")
    }

    pub fn bad_request(detail: &str) -> (r: ApiError)
        ensures
            r.status == 400,
            r.code@ == "BAD_REQUEST"@,
            r.title@ == "Invalid request"@,
            r.detail matches Some(d) && d@ == detail@,
            r.fields is None,
    {
        ApiError::new(400, "BAD_REQUEST", "Invalid request").with_detail(detail)
    }

    pub fn validation_error(fields: Vec<(String, String)>) -> (r: ApiError)
        ensures
            r.status == 400,
            r.code@ == "VALIDATION_ERROR"@,
            r.title@ == "Validation failed"@,
            r.detail is None,
            r.fields matches Some(f) && f == fields,
    {
        ApiError::new(400, "VALIDATION_ERROR", "Validation failed").with_fields(fields)
    }

    pub fn internal_error() -> (r: ApiError)
        ensures
            r.status == 500,
            r.code@ == "INTERNAL_ERROR"@,
            r.title@ == "Internal server error"@,
            r.detail is None,
            r.fields is None,
    {
        ApiError::new(500, "INTERNAL_ERROR", "Internal server error")
    }

    /// Maps a core failure to the problem payload the boundary shows. Every
    /// authentication-class failure collapses to the same generic response:
    /// a caller cannot learn which factor failed, nor that a reuse cascade
    /// fired. Integrity and infrastructure failures are never shown
    /// verbatim.
    pub fn from_auth_error(e: AuthError) -> (r: ApiError)
        ensures
            e == AuthError::Validation ==> r.status == 400 && r.code@ == "BAD_REQUEST"@,
            (e == AuthError::InvalidCredentials || e == AuthError::InvalidToken
                || e == AuthError::InvalidOrExpired || e == AuthError::ReuseDetected)
                ==> r.status == 401 && r.code@ == "UNAUTHORIZED"@ && r.detail is None,
            e == AuthError::TenantNotFound ==> r.status == 404 && r.code@ == "NOT_FOUND"@,
            (e == AuthError::Integrity || e == AuthError::Infrastructure) ==> r.status == 500
                && r.code@ == "INTERNAL_ERROR"@ && r.detail is None,
    {
        match e {
            AuthError::Validation => ApiError::bad_request("Invalid request"),
            AuthError::InvalidCredentials => ApiError::unauthorized(),
            AuthError::InvalidToken => ApiError::unauthorized(),
            AuthError::InvalidOrExpired => ApiError::unauthorized(),
            AuthError::ReuseDetected => ApiError::unauthorized(),
            AuthError::TenantNotFound => ApiError::not_found(),
            AuthError::Integrity => ApiError::internal_error(),
            AuthError::Infrastructure => ApiError::internal_error(),
        }
    }
}

} // verus!
