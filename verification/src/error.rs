//! Framework error types and their HTTP classification.

use vstd::prelude::*;
use vstd::string::*;
use crate::text::{eq_ascii_case, eq_ignore_ascii_case};
use crate::resilience_store::ResilienceError;

verus! {

/// Standardized error body returned by the HTTP layer.
#[derive(Debug, Clone)]
pub struct ErrorResponse {
    pub error: String,
    pub message: String,
    pub details: Option<String>,
}

/// Nova framework error types.
#[derive(Debug)]
pub enum NovaError {
    /// Database connection or query errors.
    DatabaseError(String),
    /// Validation failed.
    ValidationError(String),
    /// Authentication failed.
    AuthenticationError(String),
    /// Authorization failed (forbidden).
    AuthorizationError(String),
    /// Resource not found.
    NotFound(String),
    /// Conflict error (e.g., duplicate entry).
    Conflict(String),
    /// Internal server error.
    InternalError(String),
    /// Bad request / invalid input.
    BadRequest(String),
    /// Custom error with an HTTP status code.
    Custom { status: u16, error: String, message: String },
}

/// Abstract content of a framework error.
pub enum NovaErrorView {
    DatabaseError(Seq<char>),
    ValidationError(Seq<char>),
    AuthenticationError(Seq<char>),
    AuthorizationError(Seq<char>),
    NotFound(Seq<char>),
    Conflict(Seq<char>),
    InternalError(Seq<char>),
    BadRequest(Seq<char>),
    Custom { status: u16, error: Seq<char>, message: Seq<char> },
}

impl NovaError {
    /// The abstract value.
    pub open spec fn view(&self) -> NovaErrorView {
        match *self {
            NovaError::DatabaseError(m) => NovaErrorView::DatabaseError(m@),
            NovaError::ValidationError(m) => NovaErrorView::ValidationError(m@),
            NovaError::AuthenticationError(m) => NovaErrorView::AuthenticationError(m@),
            NovaError::AuthorizationError(m) => NovaErrorView::AuthorizationError(m@),
            NovaError::NotFound(m) => NovaErrorView::NotFound(m@),
            NovaError::Conflict(m) => NovaErrorView::Conflict(m@),
            NovaError::InternalError(m) => NovaErrorView::InternalError(m@),
            NovaError::BadRequest(m) => NovaErrorView::BadRequest(m@),
            NovaError::Custom { status, error, message } => NovaErrorView::Custom {
                status,
                error: error@,
                message: message@,
            },
        }
    }
}

/// HTTP status code that the error maps to.
pub open spec fn spec_status_code(e: NovaError) -> u16 {
    match e {
        NovaError::DatabaseError(_) => 500,
        NovaError::ValidationError(_) => 400,
        NovaError::AuthenticationError(_) => 401,
        NovaError::AuthorizationError(_) => 403,
        NovaError::NotFound(_) => 404,
        NovaError::Conflict(_) => 409,
        NovaError::InternalError(_) => 500,
        NovaError::BadRequest(_) => 400,
        NovaError::Custom { status, .. } => status,
    }
}

/// Name of the error kind.
pub open spec fn spec_error_type(e: NovaError) -> Seq<char> {
    match e {
        NovaError::DatabaseError(_) => "DatabaseError"@,
        NovaError::ValidationError(_) => "ValidationError"@,
        NovaError::AuthenticationError(_) => "AuthenticationError"@,
        NovaError::AuthorizationError(_) => "AuthorizationError"@,
        NovaError::NotFound(_) => "NotFound"@,
        NovaError::Conflict(_) => "Conflict"@,
        NovaError::InternalError(_) => "InternalError"@,
        NovaError::BadRequest(_) => "BadRequest"@,
        NovaError::Custom { error, .. } => error@,
    }
}

/// Human-readable rendering of the error.
pub open spec fn spec_display(e: NovaError) -> Seq<char> {
    match e {
        NovaError::DatabaseError(m) => "Database error: "@ + m@,
        NovaError::ValidationError(m) => "Validation error: "@ + m@,
        NovaError::AuthenticationError(m) => "Authentication error: "@ + m@,
        NovaError::AuthorizationError(m) => "Authorization error: "@ + m@,
        NovaError::NotFound(m) => "Not found: "@ + m@,
        NovaError::Conflict(m) => "Conflict: "@ + m@,
        NovaError::InternalError(m) => "Internal error: "@ + m@,
        NovaError::BadRequest(m) => "Bad request: "@ + m@,
        NovaError::Custom { message, .. } => message@,
    }
}

impl NovaError {
    /// The HTTP status code for this error.
    pub fn status_code(&self) -> (r: u16)
        ensures
            r == spec_status_code(*self),
    {
        match self {
            NovaError::DatabaseError(_) => 500,
            NovaError::ValidationError(_) => 400,
            NovaError::AuthenticationError(_) => 401,
            NovaError::AuthorizationError(_) => 403,
            NovaError::NotFound(_) => 404,
            NovaError::Conflict(_) => 409,
            NovaError::InternalError(_) => 500,
            NovaError::BadRequest(_) => 400,
            NovaError::Custom { status, .. } => *status,
        }
    }

    /// The error type name.
    pub fn error_type(&self) -> (r: &str)
        ensures
            r@ == spec_error_type(*self),
    {
        match self {
            NovaError::DatabaseError(_) => "DatabaseError",
            NovaError::ValidationError(_) => "ValidationError",
            NovaError::AuthenticationError(_) => "AuthenticationError",
            NovaError::AuthorizationError(_) => "AuthorizationError",
            NovaError::NotFound(_) => "NotFound",
            NovaError::Conflict(_) => "Conflict",
            NovaError::InternalError(_) => "InternalError",
            NovaError::BadRequest(_) => "BadRequest",
            NovaError::Custom { error, .. } => error.as_str(),
        }
    }

    /// Rendered text of the error, as its `Display` form would print it.
    pub fn to_display_string(&self) -> (r: String)
        ensures
            r@ == spec_display(*self),
    {
        match self {
            NovaError::DatabaseError(m) => String::from_str("Database error: ").concat(m.as_str()),
            NovaError::ValidationError(m) => String::from_str("Validation error: ").concat(m.as_str()),
            NovaError::AuthenticationError(m) => String::from_str("Authentication error: ").concat(m.as_str()),
            NovaError::AuthorizationError(m) => String::from_str("Authorization error: ").concat(m.as_str()),
            NovaError::NotFound(m) => String::from_str("Not found: ").concat(m.as_str()),
            NovaError::Conflict(m) => String::from_str("Conflict: ").concat(m.as_str()),
            NovaError::InternalError(m) => String::from_str("Internal error: ").concat(m.as_str()),
            NovaError::BadRequest(m) => String::from_str("Bad request: ").concat(m.as_str()),
            NovaError::Custom { message, .. } => message.clone(),
        }
    }

    /// The message carried by the error: the custom message for `Custom`,
    /// otherwise the rendered text.
    pub fn message(&self) -> (r: String)
        ensures
            r@ == spec_display(*self),
    {
        self.to_display_string()
    }
}

/// Whether a `NOVA_DEBUG` setting asks for error details: `true` in any
/// ASCII case, or `1`.
pub open spec fn debug_requested(setting: Option<Seq<char>>) -> bool {
    match setting {
        Some(v) => eq_ascii_case(v, "true"@) || v == "1"@,
        None => false,
    }
}

/// Whether the `NOVA_DEBUG` setting (absent when unset) asks for error
/// details in responses.
pub fn debug_details_enabled(setting: Option<&str>) -> (r: bool)
    ensures
        r == debug_requested(match setting {
            Some(v) => Some(v@),
            None => None,
        }),
{
    match setting {
        Some(v) => {
            if eq_ignore_ascii_case(v, "true") {
                true
            } else {
                let one = String::from_str("1");
                let got = String::from_str(v);
                got == one
            }
        },
        None => false,
    }
}

impl NovaError {
    /// The body of the error's HTTP response: its type, its message, and the
    /// details when they are to be shown.
    pub fn error_response(&self, details: Option<String>) -> (r: ErrorResponse)
        ensures
            r.error@ == spec_error_type(*self),
            r.message@ == spec_display(*self),
            r.details == details,
    {
        ErrorResponse { error: String::from_str(self.error_type()), message: self.message(), details }
    }

    /// The error for malformed JSON input: a bad request naming the parser's
    /// complaint.
    pub fn invalid_json(detail: &str) -> (r: NovaError)
        ensures
            r@ == NovaErrorView::BadRequest("Invalid JSON: "@ + detail@),
    {
        NovaError::BadRequest(String::from_str("Invalid JSON: ").concat(detail))
    }

    /// A store failure becomes an internal error carrying its message.
    pub fn from_resilience_error(e: ResilienceError) -> (r: NovaError)
        ensures
            r@ == NovaErrorView::InternalError(e.spec_message()),
    {
        NovaError::InternalError(e.to_display_string())
    }
}

} // verus!
