use lunch_list::validation::{field_messages, validate_username, FieldError, Login, Signup};

#[test]
fn test_valid_username() {
    let login = Login {
        username: "Sir User".to_string(),
        password: "hunter2".to_string(),
    };
    assert!(login.validate().is_ok());
}

#[test]
fn test_empty_username() {
    let login = Login {
        username: "".to_string(),
        password: "hunter2".to_string(),
    };
    assert!(login.validate().is_err());
}

#[test]
fn test_username_with_special_characters() {
    let login = Login {
        username: "user#123?<>".to_string(),
        password: "hunter2".to_string(),
    };
    assert!(login.validate().is_err());
}

#[test]
fn login_test_valid_username() {
    let login = Login {
        username: "Sir User".to_string(),
        password: "hunter2".to_string(),
    };
    assert!(login.validate().is_ok());
}

#[test]
fn login_test_username_with_special_characters() {
    let login = Login {
        username: "user#123?<>".to_string(),
        password: "hunter2".to_string(),
    };
    assert!(!login.validate().is_ok());
}

#[test]
fn username_characters() {
    assert!(validate_username("Sir User"));
    assert!(validate_username(""));
    assert!(validate_username("Zoë 42"));
    assert!(!validate_username("user#123?<>"));
    assert!(!validate_username("a-b"));
    assert!(!validate_username("tab\there"));
}

#[test]
fn every_failing_rule_is_listed_in_order() {
    let empty = Login { username: "".to_string(), password: "".to_string() };
    assert_eq!(
        empty.validate().unwrap_err(),
        vec![FieldError::EmptyUsername, FieldError::EmptyPassword]
    );
    let bad = Login { username: "a<b".to_string(), password: "".to_string() };
    assert_eq!(
        bad.validate().unwrap_err(),
        vec![FieldError::UsernameCharacters, FieldError::EmptyPassword]
    );
    let only_name = Login { username: "user#1".to_string(), password: "pw".to_string() };
    assert_eq!(only_name.validate().unwrap_err(), vec![FieldError::UsernameCharacters]);
}

#[test]
fn field_error_texts() {
    assert_eq!(FieldError::EmptyUsername.field(), "username");
    assert_eq!(FieldError::UsernameCharacters.field(), "username");
    assert_eq!(FieldError::EmptyPassword.field(), "password");
    assert_eq!(FieldError::EmptyUsername.message(), "Username cannot be empty");
    assert_eq!(
        FieldError::UsernameCharacters.message(),
        "Username can only contain alphanumeric characters and spaces"
    );
    assert_eq!(FieldError::EmptyPassword.message(), "Password cannot be empty");
}

#[test]
fn signup_secret_must_match() {
    let signup = Signup::new("alice".to_string(), "pw1".to_string(), "correct-secret".to_string());
    assert!(signup.verify_with_secret("correct-secret"));
    assert!(!signup.verify_with_secret("wrong-secret"));
    assert!(!signup.verify_with_secret("correct-secret "));
    assert!(!signup.verify_with_secret(""));
    assert!(signup.validate().is_ok());
}

#[test]
fn password_hash_verifies_its_password() {
    let signup = Signup::new("alice".to_string(), "pw1".to_string(), "s".to_string());
    let hash = signup.hash_with_salt(b"0123456789abcdef0123456789abcdef").unwrap();
    assert!(hash.starts_with("$argon2i$"));
    assert!(!hash.contains("pw1"));
    let right = Login { username: "alice".to_string(), password: "pw1".to_string() };
    let wrong = Login { username: "alice".to_string(), password: "pw2".to_string() };
    assert_eq!(right.verify_hash(&hash).unwrap(), true);
    assert_eq!(wrong.verify_hash(&hash).unwrap(), false);
    let again = signup.hash_with_salt(b"0123456789abcdef0123456789abcdef").unwrap();
    assert_eq!(hash, again);
}

#[test]
fn random_salts_give_different_hashes() {
    let signup = Signup::new("alice".to_string(), "pw1".to_string(), "s".to_string());
    let a = signup.hash().unwrap();
    let b = signup.hash().unwrap();
    assert_ne!(a, b);
    let login = Login { username: "alice".to_string(), password: "pw1".to_string() };
    assert!(login.verify_hash(&a).unwrap());
    assert!(login.verify_hash(&b).unwrap());
}

#[test]
fn malformed_hash_is_an_error() {
    let login = Login { username: "alice".to_string(), password: "pw1".to_string() };
    let r = login.verify_hash("not a hash");
    assert!(r.is_err());
    assert_eq!(r.unwrap_err().status_code(), 500);
}

#[test]
fn messages_grouped_by_field() {
    let errors = vec![
        FieldError::EmptyUsername,
        FieldError::UsernameCharacters,
        FieldError::EmptyPassword,
    ];
    assert_eq!(
        field_messages(&errors, "username").unwrap(),
        "Username cannot be empty, Username can only contain alphanumeric characters and spaces"
    );
    assert_eq!(field_messages(&errors, "password").unwrap(), "Password cannot be empty");
    assert_eq!(field_messages(&vec![FieldError::EmptyPassword], "username"), None);
    assert_eq!(field_messages(&vec![], "password"), None);
}

#[test]
fn short_salt_is_a_hash_error() {
    let signup = Signup::new("alice".to_string(), "pw1".to_string(), "s".to_string());
    assert!(signup.hash_with_salt(b"12345678").is_ok());
    assert!(matches!(
        signup.hash_with_salt(b"1234567"),
        Err(lunch_list::errors::ServiceError::HashError)
    ));
}
