use lunch_list::claims::{
    check_access_fields, check_refresh_fields, decode_fields, split_at_signature, claims_from_header_at, decode_access, decode_access_at,
    decode_refresh_at, get_bearer_token, get_token_pair, token_pair_at, Claims, ClaimsConfig,
    RefreshClaims, TokenFields, ACCESS_TOKEN_SECONDS, REFRESH_TOKEN_SECONDS, TOKEN_ISSUER,
};
use lunch_list::errors::ServiceError;

const SECRET: &[u8] = b"token-secret";

fn fields(exp: Option<u64>, iss: Option<&str>, sub: Option<u64>, name: Option<&str>) -> TokenFields {
    TokenFields {
        exp,
        iat: Some(1000),
        iss: iss.map(|s| s.to_string()),
        sub,
        name: name.map(|s| s.to_string()),
    }
}

#[test]
fn claims_carry_user_and_window() {
    let c = Claims::issued_at(7, "alice".to_string(), 1000);
    assert_eq!(c.sub, 7);
    assert_eq!(c.name, "alice");
    assert_eq!(c.iss, "lunch-list");
    assert_eq!(c.iat, 1000);
    assert_eq!(c.exp, 1600);
    let r = RefreshClaims::issued_at(7, 1000);
    assert_eq!(r.exp, 1000 + 604800);
    assert_eq!(r.sub, 7);
    assert_eq!(ACCESS_TOKEN_SECONDS, 600);
    assert_eq!(REFRESH_TOKEN_SECONDS, 604800);
    assert_eq!(TOKEN_ISSUER, "lunch-list");
    let now = Claims::new(3, "bob".to_string());
    assert_eq!(now.exp - now.iat, 600);
    assert!(now.iat > 1_600_000_000);
}

#[test]
fn access_token_round_trip_within_window() {
    let (access, refresh) = token_pair_at(42, "alice".to_string(), SECRET, 1000, 7).unwrap();
    assert_ne!(access, refresh);
    assert_eq!(access.split('.').count(), 3);
    let c = decode_access_at(&access, SECRET, 1000).unwrap();
    assert_eq!(c.sub, 42);
    assert_eq!(c.name, "alice");
    assert_eq!(c.iss, "lunch-list");
    assert_eq!(c.iat, 1000);
    assert_eq!(c.exp, 1600);
    assert_eq!(decode_access_at(&access, SECRET, 1600).unwrap().sub, 42);
    let late = decode_access_at(&access, SECRET, 1601);
    assert!(matches!(late, Err(ServiceError::InvalidJwt)));
}

#[test]
fn refresh_token_round_trip_within_window() {
    let (_, refresh) = token_pair_at(42, "alice".to_string(), SECRET, 1000, 7).unwrap();
    let c = decode_refresh_at(&refresh, SECRET, 1000 + 604800).unwrap();
    assert_eq!(c.sub, 42);
    assert!(decode_refresh_at(&refresh, SECRET, 1000 + 604801).is_err());
}

#[test]
fn wrong_secret_or_tampering_fails() {
    let (access, _) = token_pair_at(1, "alice".to_string(), SECRET, 1000, 7).unwrap();
    assert!(matches!(decode_access_at(&access, b"other", 1000), Err(ServiceError::InvalidJwt)));
    let mut tampered = access.clone();
    tampered.push('x');
    assert!(decode_access_at(&tampered, SECRET, 1000).is_err());
    assert!(decode_access_at("garbage", SECRET, 1000).is_err());
}

#[test]
fn refresh_token_is_not_an_access_token() {
    let (_, refresh) = token_pair_at(1, "alice".to_string(), SECRET, 1000, 7).unwrap();
    assert!(decode_access_at(&refresh, SECRET, 1000).is_err());
}

#[test]
fn token_pair_by_the_clock() {
    let (access, refresh) = get_token_pair(5, "carol".to_string(), SECRET).unwrap();
    let c = decode_access(&access, SECRET).unwrap();
    assert_eq!(c.sub, 5);
    assert_eq!(c.name, "carol");
    assert!(decode_access(&refresh, SECRET).is_err());
}

#[test]
fn field_checks() {
    let ok = check_access_fields(fields(Some(2000), Some("lunch-list"), Some(9), Some("n")), 2000).unwrap();
    assert_eq!((ok.exp, ok.iat, ok.sub), (2000, 1000, 9));
    assert!(check_access_fields(fields(Some(1999), Some("lunch-list"), Some(9), Some("n")), 2000).is_err());
    assert!(check_access_fields(fields(None, Some("lunch-list"), Some(9), Some("n")), 0).is_err());
    assert!(check_access_fields(fields(Some(2000), Some("other"), Some(9), Some("n")), 0).is_err());
    assert!(check_access_fields(fields(Some(2000), None, Some(9), Some("n")), 0).is_err());
    assert!(check_access_fields(fields(Some(2000), Some("lunch-list"), None, Some("n")), 0).is_err());
    assert!(check_access_fields(fields(Some(2000), Some("lunch-list"), Some(9), None), 0).is_err());
    let r = check_refresh_fields(fields(Some(2000), Some("lunch-list"), Some(9), None), 0).unwrap();
    assert_eq!(r.sub, 9);
    assert!(matches!(
        check_refresh_fields(fields(Some(2000), Some("lunch-list "), Some(9), None), 0),
        Err(ServiceError::InvalidJwt)
    ));
}

#[test]
fn bearer_header_parsing() {
    assert_eq!(get_bearer_token(Some("Bearer abc.def")).unwrap(), "abc.def");
    assert_eq!(get_bearer_token(Some("Bearer ")).unwrap(), "");
    assert!(matches!(get_bearer_token(None), Err(ServiceError::MissingAuthHeader)));
    assert!(matches!(get_bearer_token(Some("bearer abc")), Err(ServiceError::MissingAuthHeader)));
    assert!(matches!(get_bearer_token(Some("Bearer")), Err(ServiceError::MissingAuthHeader)));
    assert!(matches!(get_bearer_token(Some("Basic abc")), Err(ServiceError::MissingAuthHeader)));
    assert!(matches!(get_bearer_token(Some("xBearer abc")), Err(ServiceError::MissingAuthHeader)));
}

#[test]
fn claims_from_authorization_header() {
    let (access, _) = token_pair_at(8, "dave".to_string(), SECRET, 1000, 7).unwrap();
    let header = format!("Bearer {}", access);
    let c = claims_from_header_at(Some(&header), SECRET, 1200).unwrap();
    assert_eq!(c.sub, 8);
    assert_eq!(c.name, "dave");
    assert!(matches!(claims_from_header_at(None, SECRET, 1200), Err(ServiceError::MissingAuthHeader)));
    assert!(matches!(
        claims_from_header_at(Some(&access), SECRET, 1200),
        Err(ServiceError::MissingAuthHeader)
    ));
    let expired = claims_from_header_at(Some(&header), SECRET, 1601).unwrap_err();
    assert!(matches!(expired, ServiceError::InvalidJwt));
    assert_eq!(expired.status_code(), 401);
}

#[test]
fn claims_config_secret() {
    let config = ClaimsConfig::default().secret("s3cr3t");
    assert_eq!(config.secret_bytes(), b"s3cr3t");
    assert_eq!(ClaimsConfig::new().secret_bytes(), b"");
}

#[test]
fn serial_numbers_make_tokens_distinct() {
    let (a1, r1) = token_pair_at(1, "alice".to_string(), SECRET, 1000, 1).unwrap();
    let (a2, r2) = token_pair_at(1, "alice".to_string(), SECRET, 1000, 2).unwrap();
    assert_ne!(a1, a2);
    assert_ne!(r1, r2);
    let (a3, r3) = token_pair_at(1, "alice".to_string(), SECRET, 1000, 1).unwrap();
    assert_eq!((a1, r1), (a3, r3));
}

#[test]
fn token_split_at_last_dot() {
    assert_eq!(split_at_signature("a.b.c"), Some(("a.b", "c")));
    assert_eq!(split_at_signature("abc"), None);
    assert_eq!(split_at_signature("ab."), Some(("ab", "")));
    let (access, _) = token_pair_at(1, "alice".to_string(), SECRET, 1000, 7).unwrap();
    assert!(decode_fields(&access, SECRET).is_some());
    assert!(decode_fields(&access, b"nope").is_none());
}
