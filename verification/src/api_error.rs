//! Errors of the component API: their codes, messages and HTTP statuses.
use vstd::prelude::*;

use crate::text::append;

verus! {

/// An error of the component runtime, with the text that describes it.
#[derive(Debug, Clone)]
pub enum RuntimeError {
    ComponentNotFound(String),
    ComponentAlreadyExists(String),
    InvalidState(String),
    Configuration(String),
    IoError(String),
    SerializationError(String),
    Other(String),
}

/// Detailed error information.
#[derive(Debug)]
pub struct ErrorDetail {
    /// Error code for programmatic error handling
    pub code: String,
    /// Human-readable error message
    pub message: String,
    /// Optional additional details
    pub details: Option<serde_json::Value>,
    /// Component ID if applicable
    pub component_id: Option<String>,
}

/// API error response structure.
#[derive(Debug)]
pub struct ApiErrorResponse {
    /// Always false for error responses
    pub success: bool,
    /// Error details
    pub error: ErrorDetail,
}

impl ApiErrorResponse {
    /// An error response with a code and a message.
    pub fn new(code: &str, message: &str) -> (r: Self)
        ensures
            !r.success,
            r.error.code@ == code@,
            r.error.message@ == message@,
            r.error.details is None,
            r.error.component_id is None,
    {
        ApiErrorResponse {
            success: false,
            error: ErrorDetail {
                code: code.to_string(),
                message: message.to_string(),
                details: None,
                component_id: None,
            },
        }
    }

    /// An error response with additional details.
    pub fn with_details(code: &str, message: &str, details: serde_json::Value) -> (r: Self)
        ensures
            !r.success,
            r.error.code@ == code@,
            r.error.message@ == message@,
            r.error.details == Some(details),
            r.error.component_id is None,
    {
        ApiErrorResponse {
            success: false,
            error: ErrorDetail {
                code: code.to_string(),
                message: message.to_string(),
                details: Some(details),
                component_id: None,
            },
        }
    }

    /// An error response about one component.
    pub fn with_component(code: &str, message: &str, component_id: &str) -> (r: Self)
        ensures
            !r.success,
            r.error.code@ == code@,
            r.error.message@ == message@,
            r.error.details is None,
            r.error.component_id matches Some(c) && c@ == component_id@,
    {
        ApiErrorResponse {
            success: false,
            error: ErrorDetail {
                code: code.to_string(),
                message: message.to_string(),
                details: None,
                component_id: Some(component_id.to_string()),
            },
        }
    }
}

/// The code, message prefix and component of a runtime error: a missing or
/// duplicate component names it, the others carry only a message.
pub open spec fn runtime_error_parts(e: RuntimeError) -> (Seq<char>, Seq<char>, Seq<char>, bool) {
    match e {
        RuntimeError::ComponentNotFound(n) => ("COMPONENT_NOT_FOUND"@, "Component not found: "@, n@, true),
        RuntimeError::ComponentAlreadyExists(n) => ("COMPONENT_ALREADY_EXISTS"@, "Component already exists: "@, n@, true),
        RuntimeError::InvalidState(m) => ("INVALID_STATE"@, "Invalid state: "@, m@, false),
        RuntimeError::Configuration(m) => ("CONFIGURATION_ERROR"@, "Configuration error: "@, m@, false),
        RuntimeError::IoError(m) => ("INTERNAL_ERROR"@, "IO error: "@, m@, false),
        RuntimeError::SerializationError(m) => ("INTERNAL_ERROR"@, "Serialization error: "@, m@, false),
        RuntimeError::Other(m) => ("INTERNAL_ERROR"@, "Error: "@, m@, false),
    }
}

/// The detail of a runtime error.
pub fn error_detail(e: &RuntimeError) -> (d: ErrorDetail)
    ensures
        ({
            let (code, prefix, text, names_component) = runtime_error_parts(*e);
            &&& d.code@ == code
            &&& d.message@ == prefix + text
            &&& d.details is None
            &&& if names_component {
                d.component_id matches Some(c) && c@ == text
            } else {
                d.component_id is None
            }
        }),
{
    let (code, prefix, text, names): (&str, &str, &String, bool) = match e {
        RuntimeError::ComponentNotFound(n) => ("COMPONENT_NOT_FOUND", "Component not found: ", n, true),
        RuntimeError::ComponentAlreadyExists(n) => ("COMPONENT_ALREADY_EXISTS", "Component already exists: ", n, true),
        RuntimeError::InvalidState(m) => ("INVALID_STATE", "Invalid state: ", m, false),
        RuntimeError::Configuration(m) => ("CONFIGURATION_ERROR", "Configuration error: ", m, false),
        RuntimeError::IoError(m) => ("INTERNAL_ERROR", "IO error: ", m, false),
        RuntimeError::SerializationError(m) => ("INTERNAL_ERROR", "Serialization error: ", m, false),
        RuntimeError::Other(m) => ("INTERNAL_ERROR", "Error: ", m, false),
    };
    let mut message = String::new();
    append(&mut message, prefix);
    append(&mut message, text.as_str());
    ErrorDetail {
        code: code.to_string(),
        message,
        details: None,
        component_id: if names {
            Some(text.clone())
        } else {
            None
        },
    }
}

/// The HTTP status of a runtime error: 404 for a missing component, 409 for
/// a duplicate, 400 for a bad configuration or state, 500 otherwise.
pub open spec fn runtime_status(e: RuntimeError) -> u16 {
    match e {
        RuntimeError::ComponentNotFound(_) => 404,
        RuntimeError::ComponentAlreadyExists(_) => 409,
        RuntimeError::Configuration(_) | RuntimeError::InvalidState(_) => 400,
        _ => 500,
    }
}

/// The HTTP status of a runtime error.
pub fn error_to_status_code(e: &RuntimeError) -> (r: u16)
    ensures
        r == runtime_status(*e),
        e is ComponentNotFound ==> r == 404,
        e is ComponentAlreadyExists ==> r == 409,
{
    match e {
        RuntimeError::ComponentNotFound(_) => 404,
        RuntimeError::ComponentAlreadyExists(_) => 409,
        RuntimeError::Configuration(_) | RuntimeError::InvalidState(_) => 400,
        _ => 500,
    }
}

/// Errors that name a component report it; the status of every other error
/// is a client or server error as its kind says, never a success.
pub proof fn lemma_error_status_is_failure(e: RuntimeError)
    ensures
        400 <= runtime_status(e) < 600,
        runtime_error_parts(e).3 <==> (e is ComponentNotFound || e is ComponentAlreadyExists),
{
}

/// The status of a runtime error answers its kind: a missing component is
/// 404 (Not Found), a duplicate one 409 (Conflict), a bad configuration or
/// state 400 (Bad Request), and an internal failure 500; so the status and
/// the error code always agree.
pub proof fn lemma_status_follows_error_kind(e: RuntimeError)
    ensures
        e is ComponentNotFound <==> runtime_status(e) == 404,
        e is ComponentAlreadyExists <==> runtime_status(e) == 409,
        (e is Configuration || e is InvalidState) <==> runtime_status(e) == 400,
        (e is IoError || e is SerializationError || e is Other) <==> runtime_status(e) == 500,
        runtime_status(e) == 404 <==> runtime_error_parts(e).0 == "COMPONENT_NOT_FOUND"@,
        runtime_status(e) == 409 <==> runtime_error_parts(e).0 == "COMPONENT_ALREADY_EXISTS"@,
        runtime_status(e) == 500 <==> runtime_error_parts(e).0 == "INTERNAL_ERROR"@,
{
    reveal_strlit("COMPONENT_NOT_FOUND");
    reveal_strlit("COMPONENT_ALREADY_EXISTS");
    reveal_strlit("INVALID_STATE");
    reveal_strlit("CONFIGURATION_ERROR");
    reveal_strlit("INTERNAL_ERROR");
    assert("COMPONENT_NOT_FOUND"@.len() == 19);
    assert("COMPONENT_ALREADY_EXISTS"@.len() == 24);
    assert("INVALID_STATE"@.len() == 13);
    assert("CONFIGURATION_ERROR"@.len() == 19);
    assert("INTERNAL_ERROR"@.len() == 14);
    assert("COMPONENT_NOT_FOUND"@[0] != "CONFIGURATION_ERROR"@[0] || "COMPONENT_NOT_FOUND"@[1] != "CONFIGURATION_ERROR"@[1] || "COMPONENT_NOT_FOUND"@[2] != "CONFIGURATION_ERROR"@[2] || "COMPONENT_NOT_FOUND"@[3] != "CONFIGURATION_ERROR"@[3] || "COMPONENT_NOT_FOUND"@[4] != "CONFIGURATION_ERROR"@[4]);
}

} // verus!
