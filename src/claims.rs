//! Access and refresh claims, their signed token form, and the checks a
//! presented token must pass.
use vstd::prelude::*;

use crate::errors::ServiceError;
use crate::validation::same_text;

verus! {

/// The issuer written into, and demanded of, every token.
pub const TOKEN_ISSUER: &'static str = "lunch-list";

/// How long an access token stays valid: ten minutes.
pub const ACCESS_TOKEN_SECONDS: u64 = 600;

/// How long a refresh token stays valid: one week.
pub const REFRESH_TOKEN_SECONDS: u64 = 604800;

/// The latest timestamp the clock can give (the largest `i64`).
pub const MAX_TIMESTAMP: u64 = 0x7fff_ffff_ffff_ffff;

#[verifier::external_type_specification]
#[verifier::external_body]
pub struct ExJwtError(jsonwebtoken::errors::Error);

/// Relies on chrono's conversion of `std::time::SystemTime::now()` to a UTC
/// date and time and its `timestamp()`: the seconds since the Unix epoch by
/// the system clock, negative for a clock set before the epoch.
#[verifier::external_body]
fn unix_now() -> (r: i64) {
    chrono::DateTime::<chrono::Utc>::from(std::time::SystemTime::now()).timestamp()
}

/// The current time in seconds since the Unix epoch; a clock set before the
/// epoch reads as zero.
pub fn now_timestamp() -> (r: u64)
    ensures
        r <= MAX_TIMESTAMP,
{
    let t = unix_now();
    if t < 0 {
        0
    } else {
        t as u64
    }
}

/// The compact token that jsonwebtoken writes for a claims object with these
/// fields (`name` written as null when absent, `jti` the token's serial
/// number), signed with HS256 and the secret.
pub uninterp spec fn signed_token(
    exp: u64,
    iat: u64,
    iss: Seq<char>,
    sub: u64,
    name: Option<Seq<char>>,
    jti: u64,
    secret: Seq<u8>,
) -> Seq<char>;

/// Relies on `jsonwebtoken::encode` with the default header (HS256): it writes
/// the claims object, signs it with the secret and returns the compact token.
/// With an HMAC key and a map of plain values it cannot fail; the token's
/// HS256 signature checks out with the same secret (`crypto::verify`), and
/// `dangerous_insecure_decode` reads the fields back.
#[verifier::external_body]
fn encode_token(
    exp: u64,
    iat: u64,
    iss: &str,
    sub: u64,
    name: Option<&str>,
    jti: u64,
    secret: &[u8],
) -> (r: Result<String, jsonwebtoken::errors::Error>)
    ensures
        r is Ok,
        r matches Ok(t) ==> t@ == signed_token(
            exp,
            iat,
            iss@,
            sub,
            match name {
                Some(n) => Some(n@),
                None => None,
            },
            jti,
            secret@,
        ),
        r matches Ok(t) ==> jwt_payload(t@, secret@) == Some(
            (
                Some(exp),
                Some(iat),
                Some(iss@),
                Some(sub),
                match name {
                    Some(n) => Some(n@),
                    None => None,
                },
            ),
        ),
{
    let claims = std::collections::BTreeMap::from([
        ("exp", serde_json::Value::from(exp)),
        ("iat", serde_json::Value::from(iat)),
        ("iss", serde_json::Value::from(iss)),
        ("sub", serde_json::Value::from(sub)),
        ("name", serde_json::Value::from(name)),
        ("jti", serde_json::Value::from(jti)),
    ]);
    let key = jsonwebtoken::EncodingKey::from_secret(secret);
    jsonwebtoken::encode(&jsonwebtoken::Header::default(), &claims, &key)
}

/// Relies on `rand::random`: a random 64-bit number.
#[verifier::external_body]
fn random_u64() -> (r: u64) {
    rand::random::<u64>()
}

/// The claim fields read from a token: expiry, issue time, issuer, subject and
/// name, each absent when the payload lacks it or holds another JSON type.
pub struct TokenFields {
    pub exp: Option<u64>,
    pub iat: Option<u64>,
    pub iss: Option<String>,
    pub sub: Option<u64>,
    pub name: Option<String>,
}

impl View for TokenFields {
    type V = (Option<u64>, Option<u64>, Option<Seq<char>>, Option<u64>, Option<Seq<char>>);

    open spec fn view(&self) -> Self::V {
        (
            self.exp,
            self.iat,
            match self.iss {
                Some(s) => Some(s@),
                None => None,
            },
            self.sub,
            match self.name {
                Some(s) => Some(s@),
                None => None,
            },
        )
    }
}

/// The claim fields that jsonwebtoken's `dangerous_insecure_decode` reads
/// from a token (header, claims and signature parts), without looking at the
/// signature; none when the token is malformed.
pub uninterp spec fn jwt_claims(token: Seq<char>) -> Option<
    (Option<u64>, Option<u64>, Option<Seq<char>>, Option<u64>, Option<Seq<char>>),
>;

/// Relies on `jsonwebtoken::dangerous_insecure_decode`: it splits the token,
/// reads its header and parses its claims object, neither checking the
/// signature nor reading the clock.
#[verifier::external_body]
fn read_claims(token: &str) -> (r: Result<TokenFields, jsonwebtoken::errors::Error>)
    ensures
        r is Ok <==> jwt_claims(token@) is Some,
        r matches Ok(f) ==> jwt_claims(token@) == Some(f@),
{
    jsonwebtoken::dangerous_insecure_decode::<serde_json::Value>(token).map(|d| TokenFields {
        exp: d.claims["exp"].as_u64(),
        iat: d.claims["iat"].as_u64(),
        iss: d.claims["iss"].as_str().map(String::from),
        sub: d.claims["sub"].as_u64(),
        name: d.claims["name"].as_str().map(String::from),
    })
}

/// The signature is the HS256 signature of the message under the secret.
pub uninterp spec fn hs256_signature_ok(message: Seq<char>, signature: Seq<char>, secret: Seq<u8>) -> bool;

/// Relies on `jsonwebtoken::crypto::verify` with HS256: it signs the message
/// with the secret and compares the result with the signature.
#[verifier::external_body]
fn verify_hs256(signature: &str, message: &str, secret: &[u8]) -> (r: Result<
    bool,
    jsonwebtoken::errors::Error,
>)
    ensures
        (r matches Ok(b) && b) <==> hs256_signature_ok(message@, signature@, secret@),
{
    let key = jsonwebtoken::DecodingKey::from_secret(secret);
    jsonwebtoken::crypto::verify(signature, message, &key, jsonwebtoken::Algorithm::HS256)
}

/// The position `i` holds the last dot of the token.
pub open spec fn last_dot_at(token: Seq<char>, i: int) -> bool {
    &&& 0 <= i < token.len()
    &&& token[i] == '.'
    &&& forall|j: int| i < j < token.len() ==> token[j] != '.'
}

/// A token split at its last dot: the signed message and the signature.
pub open spec fn split_signature(token: Seq<char>) -> Option<(Seq<char>, Seq<char>)> {
    if exists|i: int| last_dot_at(token, i) {
        let i = choose|i: int| last_dot_at(token, i);
        Some((token.subrange(0, i), token.subrange(i + 1, token.len() as int)))
    } else {
        None
    }
}

/// The claim fields of a token whose HS256 signature checks out with the
/// secret; none when the token is malformed or the signature fails.
pub open spec fn jwt_payload(token: Seq<char>, secret: Seq<u8>) -> Option<FieldValues> {
    match split_signature(token) {
        Some((message, signature)) => if hs256_signature_ok(message, signature, secret) {
            jwt_claims(token)
        } else {
            None
        },
        None => None,
    }
}

/// Splits a token at its last dot into the signed message and the signature.
pub fn split_at_signature(token: &str) -> (r: Option<(&str, &str)>)
    ensures
        match split_signature(token@) {
            Some((m, sig)) => r matches Some((a, b)) && a@ == m && b@ == sig,
            None => r is None,
        },
{
    let n = token.unicode_len();
    let mut i: usize = n;
    while i > 0
        invariant
            n == token@.len(),
            i <= n,
            forall|j: int| i <= j < n ==> token@[j] != '.',
        decreases i,
    {
        if token.get_char(i - 1) == '.' {
            let k = i - 1;
            proof {
                assert(last_dot_at(token@, k as int));
                let c = choose|c: int| last_dot_at(token@, c);
                if c < k {
                    assert(token@[k as int] != '.');
                } else if c > k {
                    assert(token@[c] != '.');
                }
            }
            return Some((token.substring_char(0, k), token.substring_char(k + 1, n)));
        }
        i = i - 1;
    }
    proof {
        if exists|c: int| last_dot_at(token@, c) {
            let c = choose|c: int| last_dot_at(token@, c);
            assert(token@[c] != '.');
        }
    }
    None
}

/// Reads the claim fields of a token whose HS256 signature checks out with
/// the secret.
pub fn decode_fields(token: &str, secret: &[u8]) -> (r: Option<TokenFields>)
    ensures
        r is Some <==> jwt_payload(token@, secret@) is Some,
        r matches Some(f) ==> jwt_payload(token@, secret@) == Some(f@),
{
    let (message, signature) = match split_at_signature(token) {
        Some(parts) => parts,
        None => {
            return None;
        },
    };
    let signed = match verify_hs256(signature, message, secret) {
        Ok(b) => b,
        Err(_) => false,
    };
    if !signed {
        return None;
    }
    match read_claims(token) {
        Ok(f) => Some(f),
        Err(_) => None,
    }
}

/// The claims of an access token: who the bearer is, for a short while.
#[derive(Debug)]
pub struct Claims {
    pub exp: u64,
    pub iat: u64,
    pub iss: String,
    pub sub: usize,
    pub name: String,
}

/// The claims of a refresh token: whose session it renews, for a week.
#[derive(Debug)]
pub struct RefreshClaims {
    pub exp: u64,
    pub iat: u64,
    pub iss: String,
    pub sub: usize,
}

impl Claims {
    /// Access claims for the user, issued now.
    pub fn new(id: usize, name: String) -> (r: Claims)
        ensures
            r.sub == id,
            r.name == name,
            r.iss@ == TOKEN_ISSUER@,
            r.iat <= MAX_TIMESTAMP,
            r.exp == r.iat + ACCESS_TOKEN_SECONDS,
    {
        Claims::issued_at(id, name, now_timestamp())
    }

    /// Access claims for the user, issued at `now`: they expire ten minutes
    /// later.
    pub fn issued_at(id: usize, name: String, now: u64) -> (r: Claims)
        requires
            now <= MAX_TIMESTAMP,
        ensures
            r.sub == id,
            r.name == name,
            r.iss@ == TOKEN_ISSUER@,
            r.iat == now,
            r.exp == now + ACCESS_TOKEN_SECONDS,
    {
        Claims {
            exp: now + ACCESS_TOKEN_SECONDS,
            iat: now,
            iss: String::from_str(TOKEN_ISSUER),
            sub: id,
            name,
        }
    }
}

impl RefreshClaims {
    /// Refresh claims for the user, issued now.
    pub fn new(id: usize) -> (r: RefreshClaims)
        ensures
            r.sub == id,
            r.iss@ == TOKEN_ISSUER@,
            r.iat <= MAX_TIMESTAMP,
            r.exp == r.iat + REFRESH_TOKEN_SECONDS,
    {
        RefreshClaims::issued_at(id, now_timestamp())
    }

    /// Refresh claims for the user, issued at `now`: they expire a week later.
    pub fn issued_at(id: usize, now: u64) -> (r: RefreshClaims)
        requires
            now <= MAX_TIMESTAMP,
        ensures
            r.sub == id,
            r.iss@ == TOKEN_ISSUER@,
            r.iat == now,
            r.exp == now + REFRESH_TOKEN_SECONDS,
    {
        RefreshClaims {
            exp: now + REFRESH_TOKEN_SECONDS,
            iat: now,
            iss: String::from_str(TOKEN_ISSUER),
            sub: id,
        }
    }
}

/// The access token for the user, issued at `now` with serial number `jti`.
pub open spec fn access_token_at(
    id: usize,
    name: Seq<char>,
    secret: Seq<u8>,
    now: u64,
    jti: u64,
) -> Seq<char> {
    signed_token(
        (now + ACCESS_TOKEN_SECONDS) as u64,
        now,
        TOKEN_ISSUER@,
        id as u64,
        Some(name),
        jti,
        secret,
    )
}

/// The refresh token for the user, issued at `now` with serial number `jti`.
pub open spec fn refresh_token_at(id: usize, secret: Seq<u8>, now: u64, jti: u64) -> Seq<char> {
    signed_token(
        (now + REFRESH_TOKEN_SECONDS) as u64,
        now,
        TOKEN_ISSUER@,
        id as u64,
        None,
        jti,
        secret,
    )
}

/// The claim fields that an access token issued at `iat` carries.
pub open spec fn issued_access_fields(id: usize, name: Seq<char>, iat: u64) -> FieldValues {
    (
        Some((iat + ACCESS_TOKEN_SECONDS) as u64),
        Some(iat),
        Some(TOKEN_ISSUER@),
        Some(id as u64),
        Some(name),
    )
}

/// The claim fields that a refresh token issued at `iat` carries.
pub open spec fn issued_refresh_fields(id: usize, iat: u64) -> FieldValues {
    (
        Some((iat + REFRESH_TOKEN_SECONDS) as u64),
        Some(iat),
        Some(TOKEN_ISSUER@),
        Some(id as u64),
        None,
    )
}

/// Signs access claims, with serial number `jti`.
pub fn encode_access(claims: &Claims, jti: u64, secret: &[u8]) -> (r: Result<String, ServiceError>)
    ensures
        r matches Ok(t) && t@ == signed_token(
            claims.exp,
            claims.iat,
            claims.iss@,
            claims.sub as u64,
            Some(claims.name@),
            jti,
            secret@,
        ) && jwt_payload(t@, secret@) == Some(
            (
                Some(claims.exp),
                Some(claims.iat),
                Some(claims.iss@),
                Some(claims.sub as u64),
                Some(claims.name@),
            ),
        ),
{
    match encode_token(
        claims.exp,
        claims.iat,
        claims.iss.as_str(),
        claims.sub as u64,
        Some(claims.name.as_str()),
        jti,
        secret,
    ) {
        Ok(t) => Ok(t),
        Err(_) => Err(ServiceError::InvalidJwt),
    }
}

/// Signs refresh claims, with serial number `jti`.
pub fn encode_refresh(claims: &RefreshClaims, jti: u64, secret: &[u8]) -> (r: Result<
    String,
    ServiceError,
>)
    ensures
        r matches Ok(t) && t@ == signed_token(
            claims.exp,
            claims.iat,
            claims.iss@,
            claims.sub as u64,
            None,
            jti,
            secret@,
        ) && jwt_payload(t@, secret@) == Some(
            (
                Some(claims.exp),
                Some(claims.iat),
                Some(claims.iss@),
                Some(claims.sub as u64),
                None::<Seq<char>>,
            ),
        ),
{
    match encode_token(
        claims.exp,
        claims.iat,
        claims.iss.as_str(),
        claims.sub as u64,
        None,
        jti,
        secret,
    ) {
        Ok(t) => Ok(t),
        Err(_) => Err(ServiceError::InvalidJwt),
    }
}

/// An access token and a refresh token for the user, both issued at `now`
/// with serial number `jti`. Decoding them with the same secret gives back
/// their fields; the two tokens differ.
pub fn token_pair_at(id: usize, name: String, secret: &[u8], now: u64, jti: u64) -> (r: Result<
    (String, String),
    ServiceError,
>)
    requires
        now <= MAX_TIMESTAMP,
    ensures
        r is Ok,
        r matches Ok((a, b)) ==> {
            &&& a@ == access_token_at(id, name@, secret@, now, jti)
            &&& b@ == refresh_token_at(id, secret@, now, jti)
            &&& jwt_payload(a@, secret@) == Some(issued_access_fields(id, name@, now))
            &&& jwt_payload(b@, secret@) == Some(issued_refresh_fields(id, now))
            &&& a@ != b@
        },
{
    let claims = Claims::issued_at(id, name, now);
    let refresh_claims = RefreshClaims::issued_at(id, now);
    let access = encode_access(&claims, jti, secret)?;
    let refresh = encode_refresh(&refresh_claims, jti, secret)?;
    Ok((access, refresh))
}

/// An access token and a refresh token for the user, both issued now under a
/// random serial number.
pub fn get_token_pair(id: usize, name: String, secret: &[u8]) -> (r: Result<
    (String, String),
    ServiceError,
>)
    ensures
        r is Ok,
        r matches Ok((a, b)) ==> exists|now: u64, jti: u64|
            {
                &&& now <= MAX_TIMESTAMP
                &&& a@ == access_token_at(id, name@, secret@, now, jti)
                &&& b@ == refresh_token_at(id, secret@, now, jti)
                &&& jwt_payload(a@, secret@) == Some(issued_access_fields(id, name@, now))
                &&& jwt_payload(b@, secret@) == Some(issued_refresh_fields(id, now))
            },
{
    let now = now_timestamp();
    let jti = random_u64();
    token_pair_at(id, name, secret, now, jti)
}

/// The claim fields of a token as values: expiry, issue time, issuer,
/// subject, name.
pub type FieldValues = (Option<u64>, Option<u64>, Option<Seq<char>>, Option<u64>, Option<Seq<char>>);

/// A refresh token's fields pass at `now`: it has not expired, it names this
/// service as issuer, and it carries an issue time and a subject that fits an
/// id.
pub open spec fn refresh_fields_ok(f: FieldValues, now: u64) -> bool {
    &&& f.0 matches Some(exp) && now <= exp
    &&& f.1 is Some
    &&& f.2 == Some(TOKEN_ISSUER@)
    &&& f.3 matches Some(sub) && sub <= usize::MAX
}

/// An access token's fields pass at `now`: as for a refresh token, and it
/// carries a name.
pub open spec fn access_fields_ok(f: FieldValues, now: u64) -> bool {
    refresh_fields_ok(f, now) && f.4 is Some
}

/// The refresh claims hold exactly the fields read.
pub open spec fn refresh_claims_of(c: RefreshClaims, f: FieldValues) -> bool {
    &&& f.0 == Some(c.exp)
    &&& f.1 == Some(c.iat)
    &&& f.2 == Some(c.iss@)
    &&& f.3 == Some(c.sub as u64)
}

/// The access claims hold exactly the fields read.
pub open spec fn access_claims_of(c: Claims, f: FieldValues) -> bool {
    &&& f.0 == Some(c.exp)
    &&& f.1 == Some(c.iat)
    &&& f.2 == Some(c.iss@)
    &&& f.3 == Some(c.sub as u64)
    &&& f.4 == Some(c.name@)
}

/// Checks the fields read from a refresh token at time `now`.
pub fn check_refresh_fields(f: TokenFields, now: u64) -> (r: Result<RefreshClaims, ServiceError>)
    ensures
        r is Ok <==> refresh_fields_ok(f@, now),
        r matches Ok(c) ==> refresh_claims_of(c, f@),
        r matches Err(e) ==> e is InvalidJwt,
{
    match (f.exp, f.iat, f.iss, f.sub) {
        (Some(exp), Some(iat), Some(iss), Some(sub)) => {
            if now <= exp && same_text(iss.as_str(), TOKEN_ISSUER) && sub <= usize::MAX as u64 {
                Ok(RefreshClaims { exp, iat, iss, sub: sub as usize })
            } else {
                Err(ServiceError::InvalidJwt)
            }
        },
        _ => Err(ServiceError::InvalidJwt),
    }
}

/// Checks the fields read from an access token at time `now`.
pub fn check_access_fields(f: TokenFields, now: u64) -> (r: Result<Claims, ServiceError>)
    ensures
        r is Ok <==> access_fields_ok(f@, now),
        r matches Ok(c) ==> access_claims_of(c, f@),
        r matches Err(e) ==> e is InvalidJwt,
{
    match (f.exp, f.iat, f.iss, f.sub, f.name) {
        (Some(exp), Some(iat), Some(iss), Some(sub), Some(name)) => {
            if now <= exp && same_text(iss.as_str(), TOKEN_ISSUER) && sub <= usize::MAX as u64 {
                Ok(Claims { exp, iat, iss, sub: sub as usize, name })
            } else {
                Err(ServiceError::InvalidJwt)
            }
        },
        _ => Err(ServiceError::InvalidJwt),
    }
}

/// The token is a refresh token of this service, signed with the secret and
/// valid at `now`.
pub open spec fn refresh_token_valid(token: Seq<char>, secret: Seq<u8>, now: u64) -> bool {
    jwt_payload(token, secret) matches Some(f) && refresh_fields_ok(f, now)
}

/// The token is an access token of this service, signed with the secret and
/// valid at `now`.
pub open spec fn access_token_valid(token: Seq<char>, secret: Seq<u8>, now: u64) -> bool {
    jwt_payload(token, secret) matches Some(f) && access_fields_ok(f, now)
}

/// Verifies a refresh token at time `now`: signature, issuer and expiry.
pub fn decode_refresh_at(token: &str, secret: &[u8], now: u64) -> (r: Result<
    RefreshClaims,
    ServiceError,
>)
    ensures
        r is Ok <==> refresh_token_valid(token@, secret@, now),
        r matches Ok(c) ==> refresh_claims_of(c, jwt_payload(token@, secret@)->Some_0),
        r matches Err(e) ==> e is InvalidJwt,
{
    match decode_fields(token, secret) {
        Some(f) => check_refresh_fields(f, now),
        None => Err(ServiceError::InvalidJwt),
    }
}

/// Verifies an access token at time `now`: signature, issuer and expiry.
pub fn decode_access_at(token: &str, secret: &[u8], now: u64) -> (r: Result<Claims, ServiceError>)
    ensures
        r is Ok <==> access_token_valid(token@, secret@, now),
        r matches Ok(c) ==> access_claims_of(c, jwt_payload(token@, secret@)->Some_0),
        r matches Err(e) ==> e is InvalidJwt,
{
    match decode_fields(token, secret) {
        Some(f) => check_access_fields(f, now),
        None => Err(ServiceError::InvalidJwt),
    }
}

/// Verifies a refresh token against the clock.
pub fn decode_refresh(token: &str, secret: &[u8]) -> (r: Result<RefreshClaims, ServiceError>)
    ensures
        exists|now: u64|
            now <= MAX_TIMESTAMP && (r is Ok <==> refresh_token_valid(token@, secret@, now)),
        r matches Ok(c) ==> jwt_payload(token@, secret@) matches Some(f) && refresh_claims_of(
            c,
            f,
        ) && f.2 == Some(TOKEN_ISSUER@),
        r matches Err(e) ==> e is InvalidJwt,
{
    decode_refresh_at(token, secret, now_timestamp())
}

/// Verifies an access token against the clock.
pub fn decode_access(token: &str, secret: &[u8]) -> (r: Result<Claims, ServiceError>)
    ensures
        exists|now: u64|
            now <= MAX_TIMESTAMP && (r is Ok <==> access_token_valid(token@, secret@, now)),
        r matches Ok(c) ==> jwt_payload(token@, secret@) matches Some(f) && access_claims_of(c, f)
            && f.2 == Some(TOKEN_ISSUER@),
        r matches Err(e) ==> e is InvalidJwt,
{
    decode_access_at(token, secret, now_timestamp())
}

/// The token that an `Authorization` header carries: what follows the exact
/// prefix `Bearer `.
pub open spec fn bearer_of(header: Seq<char>) -> Option<Seq<char>> {
    if header.len() >= 7 && header.subrange(0, 7) == "Bearer "@ {
        Some(header.subrange(7, header.len() as int))
    } else {
        None
    }
}

/// Reads the bearer token of an `Authorization` header. A missing header, or
/// one without the exact prefix `Bearer `, is refused.
pub fn get_bearer_token(header: Option<&str>) -> (r: Result<String, ServiceError>)
    ensures
        r matches Ok(t) ==> header matches Some(h) && bearer_of(h@) == Some(t@),
        r is Err ==> r->Err_0 is MissingAuthHeader && (header matches Some(h) ==> bearer_of(
            h@,
        ) is None),
{
    match header {
        None => Err(ServiceError::MissingAuthHeader),
        Some(h) => {
            let n = h.unicode_len();
            proof {
                reveal_strlit("Bearer ");
            }
            if n >= 7 && same_text(h.substring_char(0, 7), "Bearer ") {
                Ok(String::from_str(h.substring_char(7, n)))
            } else {
                Err(ServiceError::MissingAuthHeader)
            }
        },
    }
}

/// The `Authorization` header carries a bearer token that is a valid access
/// token at `now`.
pub open spec fn header_token_valid(header: Option<&str>, secret: Seq<u8>, now: u64) -> bool {
    header matches Some(h) && bearer_of(h@) matches Some(t) && access_token_valid(t, secret, now)
}

/// The claims of the bearer token in an `Authorization` header, checked at
/// time `now`.
pub fn claims_from_header_at(header: Option<&str>, secret: &[u8], now: u64) -> (r: Result<
    Claims,
    ServiceError,
>)
    ensures
        r is Ok <==> (header matches Some(h) && bearer_of(h@) matches Some(t) && access_token_valid(
            t,
            secret@,
            now,
        )),
        r matches Ok(c) ==> header matches Some(h) && access_claims_of(
            c,
            jwt_payload(bearer_of(h@)->Some_0, secret@)->Some_0,
        ),
        r matches Err(e) ==> (e is MissingAuthHeader <==> (header matches Some(h) ==> bearer_of(
            h@,
        ) is None)),
        r matches Err(e) ==> e is MissingAuthHeader || e is InvalidJwt,
{
    let token = get_bearer_token(header)?;
    decode_access_at(token.as_str(), secret, now)
}

/// The claims of the bearer token in an `Authorization` header, checked
/// against the clock.
pub fn claims_from_header(header: Option<&str>, secret: &[u8]) -> (r: Result<Claims, ServiceError>)
    ensures
        exists|now: u64|
            now <= MAX_TIMESTAMP && (r is Ok <==> #[trigger] header_token_valid(
                header,
                secret@,
                now,
            )),
        r matches Ok(c) ==> header matches Some(h) && bearer_of(h@) matches Some(t) && jwt_payload(
            t,
            secret@,
        ) matches Some(f) && access_claims_of(c, f) && f.2 == Some(TOKEN_ISSUER@),
        r matches Err(e) ==> (e is MissingAuthHeader <==> (header matches Some(h) ==> bearer_of(
            h@,
        ) is None)),
        r matches Err(e) ==> e is MissingAuthHeader || e is InvalidJwt,
{
    let now = now_timestamp();
    let r = claims_from_header_at(header, secret, now);
    assert(r is Ok <==> header_token_valid(header, secret@, now));
    r
}

/// What an access token is checked with: the signing secret.
pub struct ClaimsConfig {
    secret: String,
}

impl ClaimsConfig {
    /// The signing secret, as text.
    pub closed spec fn secret_text(&self) -> Seq<char> {
        self.secret@
    }

    /// A configuration without a secret.
    pub fn new() -> (r: ClaimsConfig)
        ensures
            r.secret_text() == Seq::<char>::empty(),
    {
        ClaimsConfig { secret: String::new() }
    }

    /// Sets the signing secret.
    pub fn secret(self, secret: &str) -> (r: ClaimsConfig)
        ensures
            r.secret_text() == secret@,
    {
        ClaimsConfig { secret: String::from_str(secret) }
    }

    /// The signing secret, as the bytes of its UTF-8 text.
    pub fn secret_bytes(&self) -> (r: &[u8])
        ensures
            r@ == vstd::utf8::encode_utf8(self.secret_text()),
    {
        self.secret.as_str().as_bytes()
    }
}

impl Default for ClaimsConfig {
    fn default() -> (r: ClaimsConfig)
        ensures
            r.secret_text() == Seq::<char>::empty(),
    {
        ClaimsConfig::new()
    }
}

} // verus!
