//! Service-level error taxonomy and its mapping to HTTP responses.

use vstd::prelude::*;
use vstd::string::StringExecFns;

verus! {

/// Domain errors surfaced by the service layer.
#[derive(Debug, Clone, PartialEq)]
pub enum ServiceError {
    Validation { message: String },
    NotFound { entity: String, identifier: String },
    AlreadyExists { entity: String, identifier: String },
    PermissionDenied { message: String },
    InvalidOperation { message: String },
    Database { message: String },
    ExternalService { message: String },
}

impl ServiceError {
    /// A validation failure with the given message.
    pub fn validation(message: String) -> (r: Self)
        ensures
            r == (ServiceError::Validation { message }),
    {
        ServiceError::Validation { message }
    }

    /// An entity that could not be found under the given identifier.
    pub fn not_found(entity: String, identifier: String) -> (r: Self)
        ensures
            r == (ServiceError::NotFound { entity, identifier }),
    {
        ServiceError::NotFound { entity, identifier }
    }
}

/// The HTTP status code each error maps to.
pub open spec fn spec_status_of(e: ServiceError) -> u16 {
    match e {
        ServiceError::Validation { .. } => 400,
        ServiceError::NotFound { .. } => 404,
        ServiceError::AlreadyExists { .. } => 409,
        ServiceError::PermissionDenied { .. } => 403,
        ServiceError::InvalidOperation { .. } => 400,
        ServiceError::Database { .. } => 500,
        ServiceError::ExternalService { .. } => 502,
    }
}

/// The machine-readable error type each error maps to.
pub open spec fn spec_error_type_of(e: ServiceError) -> Seq<char> {
    match e {
        ServiceError::Validation { .. } => "validation_error"@,
        ServiceError::NotFound { .. } => "not_found"@,
        ServiceError::AlreadyExists { .. } => "already_exists"@,
        ServiceError::PermissionDenied { .. } => "permission_denied"@,
        ServiceError::InvalidOperation { .. } => "invalid_operation"@,
        ServiceError::Database { .. } => "database_error"@,
        ServiceError::ExternalService { .. } => "external_service_error"@,
    }
}

/// The human-readable message each error maps to.  A storage failure is
/// masked: its details are logged, never sent to a client.
pub open spec fn spec_message_of(e: ServiceError) -> Seq<char> {
    match e {
        ServiceError::Validation { message } => message@,
        ServiceError::NotFound { entity, identifier } => entity@ + " '"@ + identifier@
            + "' not found"@,
        ServiceError::AlreadyExists { entity, identifier } => entity@ + " '"@ + identifier@
            + "' already exists"@,
        ServiceError::PermissionDenied { message } => message@,
        ServiceError::InvalidOperation { message } => message@,
        ServiceError::Database { .. } => "Internal server error"@,
        ServiceError::ExternalService { message } => message@,
    }
}

/// An error as the HTTP layer renders it.
#[derive(Debug, Clone)]
pub struct HttpError {
    pub status: u16,
    pub error_type: String,
    pub message: String,
}

/// Quote an identifier into an entity message: `{entity} '{id}' {verb}`.
fn quoted_message(entity: &String, identifier: &String, suffix: &str) -> (r: String)
    ensures
        r@ == entity@ + " '"@ + identifier@ + suffix@,
{
    let mut m = entity.clone();
    m.append(" '");
    m.append(identifier.as_str());
    m.append(suffix);
    m
}

/// Converts a service error to the status code, error type and message
/// of the standard HTTP error response.
pub fn service_error_to_http(error: ServiceError) -> (r: HttpError)
    ensures
        r.status == spec_status_of(error),
        r.error_type@ == spec_error_type_of(error),
        r.message@ == spec_message_of(error),
{
    match error {
        ServiceError::Validation { message } => HttpError {
            status: 400,
            error_type: "validation_error".to_owned(),
            message,
        },
        ServiceError::NotFound { entity, identifier } => HttpError {
            status: 404,
            error_type: "not_found".to_owned(),
            message: quoted_message(&entity, &identifier, "' not found"),
        },
        ServiceError::AlreadyExists { entity, identifier } => HttpError {
            status: 409,
            error_type: "already_exists".to_owned(),
            message: quoted_message(&entity, &identifier, "' already exists"),
        },
        ServiceError::PermissionDenied { message } => HttpError {
            status: 403,
            error_type: "permission_denied".to_owned(),
            message,
        },
        ServiceError::InvalidOperation { message } => HttpError {
            status: 400,
            error_type: "invalid_operation".to_owned(),
            message,
        },
        ServiceError::Database { .. } => HttpError {
            status: 500,
            error_type: "database_error".to_owned(),
            message: "Internal server error".to_owned(),
        },
        ServiceError::ExternalService { message } => HttpError {
            status: 502,
            error_type: "external_service_error".to_owned(),
            message,
        },
    }
}

} // verus!
