//! The error categories of the service and their HTTP status codes.
use vstd::prelude::*;

use crate::validation::FieldError;

verus! {

/// Everything that can go wrong in a request to the service.
#[derive(Debug)]
pub enum ServiceError {
    /// Configuration missing or another fault of the server itself.
    InternalError,
    /// Bad credentials, or a refresh cookie that is missing.
    Unauthorized,
    /// A token that is malformed, badly signed, expired or from another issuer.
    InvalidJwt,
    /// Signup for a username that is already taken.
    UserAlreadyExists { username: String },
    /// The password hasher failed.
    HashError,
    /// No `Authorization` header with a bearer token.
    MissingAuthHeader,
    /// An `Authorization` header that is not readable text.
    InvalidHeader,
    /// Field rules that failed, each listed.
    ValidatorError(Vec<FieldError>),
    /// A refresh token that was already redeemed or never registered.
    InvalidRefreshToken,
    /// Signup with a wrong signup secret.
    InvalidSignupSecret,
}

/// The HTTP status that reports an error: 401 for failed authentication
/// (including a missing, invalid, expired or replayed token), 400 for a
/// request the service refuses, 500 for a fault of the server.
pub open spec fn status_of(e: ServiceError) -> u16 {
    match e {
        ServiceError::Unauthorized
        | ServiceError::InvalidJwt
        | ServiceError::MissingAuthHeader
        | ServiceError::InvalidRefreshToken => 401,
        ServiceError::UserAlreadyExists { .. }
        | ServiceError::InvalidHeader
        | ServiceError::ValidatorError(_)
        | ServiceError::InvalidSignupSecret => 400,
        ServiceError::InternalError | ServiceError::HashError => 500,
    }
}

impl ServiceError {
    /// The HTTP status code that reports this error.
    pub fn status_code(&self) -> (r: u16)
        ensures
            r == status_of(*self),
    {
        match self {
            ServiceError::Unauthorized
            | ServiceError::InvalidJwt
            | ServiceError::MissingAuthHeader
            | ServiceError::InvalidRefreshToken => 401,
            ServiceError::UserAlreadyExists { .. }
            | ServiceError::InvalidHeader
            | ServiceError::ValidatorError(_)
            | ServiceError::InvalidSignupSecret => 400,
            ServiceError::InternalError | ServiceError::HashError => 500,
        }
    }

    /// The message of the error body.
    pub fn message(&self) -> (r: String)
        ensures
            *self is InternalError || *self is HashError ==> r@ == "Internal Server Error"@,
            *self is Unauthorized ==> r@ == "Unauthorized"@,
            *self is InvalidJwt ==> r@ == "Invalid JWT"@,
            *self is MissingAuthHeader ==> r@ == "Missing 'Authorization' header with Bearer token"@,
            *self is InvalidHeader ==> r@ == "Invalid header value"@,
            *self is ValidatorError ==> r@ == "Invalid input"@,
            *self is InvalidRefreshToken ==> r@ == "Re-using refresh token"@,
            *self is InvalidSignupSecret ==> r@ == "Invalid signup secret"@,
            *self is UserAlreadyExists ==> r@ == "User with username '"@
                + self->UserAlreadyExists_username@ + "' already exists"@,
    {
        match self {
            ServiceError::InternalError | ServiceError::HashError => String::from_str(
                "Internal Server Error",
            ),
            ServiceError::Unauthorized => String::from_str("Unauthorized"),
            ServiceError::InvalidJwt => String::from_str("Invalid JWT"),
            ServiceError::MissingAuthHeader => String::from_str(
                "Missing 'Authorization' header with Bearer token",
            ),
            ServiceError::InvalidHeader => String::from_str("Invalid header value"),
            ServiceError::ValidatorError(_) => String::from_str("Invalid input"),
            ServiceError::InvalidRefreshToken => String::from_str("Re-using refresh token"),
            ServiceError::InvalidSignupSecret => String::from_str("Invalid signup secret"),
            ServiceError::UserAlreadyExists { username } => {
                let mut m = String::from_str("User with username '");
                m.append(username.as_str());
                m.append("' already exists");
                m
            },
        }
    }
}

} // verus!
