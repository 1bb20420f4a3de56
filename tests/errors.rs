use lunch_list::errors::ServiceError;
use lunch_list::validation::FieldError;

#[test]
fn status_codes() {
    assert_eq!(ServiceError::Unauthorized.status_code(), 401);
    assert_eq!(ServiceError::MissingAuthHeader.status_code(), 401);
    assert_eq!(ServiceError::InvalidRefreshToken.status_code(), 401);
    assert_eq!(ServiceError::InvalidJwt.status_code(), 401);
    assert_eq!(ServiceError::UserAlreadyExists { username: "alice".to_string() }.status_code(), 400);
    assert_eq!(ServiceError::InvalidHeader.status_code(), 400);
    assert_eq!(ServiceError::ValidatorError(vec![FieldError::EmptyPassword]).status_code(), 400);
    assert_eq!(ServiceError::InvalidSignupSecret.status_code(), 400);
    assert_eq!(ServiceError::InternalError.status_code(), 500);
    assert_eq!(ServiceError::HashError.status_code(), 500);
}

#[test]
fn error_messages() {
    assert_eq!(ServiceError::InternalError.message(), "Internal Server Error");
    assert_eq!(ServiceError::HashError.message(), "Internal Server Error");
    assert_eq!(ServiceError::Unauthorized.message(), "Unauthorized");
    assert_eq!(ServiceError::InvalidJwt.message(), "Invalid JWT");
    assert_eq!(
        ServiceError::MissingAuthHeader.message(),
        "Missing 'Authorization' header with Bearer token"
    );
    assert_eq!(ServiceError::InvalidHeader.message(), "Invalid header value");
    assert_eq!(ServiceError::ValidatorError(vec![]).message(), "Invalid input");
    assert_eq!(ServiceError::InvalidRefreshToken.message(), "Re-using refresh token");
    assert_eq!(ServiceError::InvalidSignupSecret.message(), "Invalid signup secret");
    assert_eq!(
        ServiceError::UserAlreadyExists { username: "alice".to_string() }.message(),
        "User with username 'alice' already exists"
    );
}
