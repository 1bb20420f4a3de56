//! The authentication service: signup, login, token refresh with rotation and
//! breach detection, and logout.
use vstd::prelude::*;

use crate::claims::{
    access_fields_ok, access_token_at, REFRESH_TOKEN_SECONDS, access_token_valid, issued_access_fields,
    issued_refresh_fields, decode_refresh_at, jwt_payload, now_timestamp,
    refresh_token_at, refresh_token_valid, token_pair_at, FieldValues, ACCESS_TOKEN_SECONDS,
    MAX_TIMESTAMP, TOKEN_ISSUER,
};
use crate::crypto::{
    argon2_encoded, argon2_hash, argon2_verdict, argon2_verify, fingerprint, fingerprint_of,
    hash_input_ok, random_salt, SALT_LEN,
};
use crate::registry::same_bytes;
use crate::errors::ServiceError;
use crate::registry::SessionRegistry;
use crate::store::{entry_of, id_of, name_taken, CredentialStore, UserEntry};
use crate::validation::{
    check_credentials, credential_errors, same_text, trim_text, trimmed, Login, Signup,
};

verus! {

/// The configuration of the service: the secret that signs tokens and the
/// secret that a signup must present.
pub struct AppState {
    pub token_secret: String,
    pub signup_secret: String,
}

/// The id whose credentials these are: the name is registered and its stored
/// hash verifies the password.
pub open spec fn accepted_id(users: Seq<UserEntry>, name: Seq<char>, password: Seq<u8>) -> Option<
    usize,
> {
    match id_of(users, name) {
        Some(id) => if argon2_verdict(users[id - 1].1, password) == Some(true) {
            Some(id)
        } else {
            None
        },
        None => None,
    }
}

/// The user that a valid refresh token names.
pub open spec fn refresh_subject(token: Seq<char>, secret: Seq<u8>) -> usize {
    jwt_payload(token, secret)->Some_0.3->Some_0 as usize
}

/// The sessions after a refresh token of `user` with fingerprint `f` is
/// presented: when registered it is rotated out for the new fingerprint
/// `fresh`; otherwise every session of the user is revoked.
pub open spec fn rotate(
    sessions: Set<(usize, Seq<u8>)>,
    user: usize,
    f: Seq<u8>,
    fresh: Seq<u8>,
) -> Set<(usize, Seq<u8>)> {
    if sessions.contains((user, f)) {
        sessions.remove((user, f)).insert((user, fresh))
    } else {
        sessions.filter(|p: (usize, Seq<u8>)| p.0 != user)
    }
}

/// The serial number that follows `serial`, wrapping after the largest.
pub open spec fn next_serial(serial: u64) -> u64 {
    if serial == u64::MAX {
        0
    } else {
        (serial + 1) as u64
    }
}

/// Only the sessions and the token serial number may differ between the two
/// services.
pub open spec fn same_except_sessions(a: AuthService, b: AuthService) -> bool {
    &&& a.users() == b.users()
    &&& a.token_secret() == b.token_secret()
    &&& a.signup_secret() == b.signup_secret()
}

/// Only the users may differ between the two services.
pub open spec fn same_except_users(a: AuthService, b: AuthService) -> bool {
    &&& a.sessions() == b.sessions()
    &&& a.token_secret() == b.token_secret()
    &&& a.signup_secret() == b.signup_secret()
    &&& a.serial() == b.serial()
}

/// What a signup with this (trimmed) name, password, signup secret and salt
/// does: field rules first, then the signup secret, then a taken name; a new
/// user gets the next id and the salted hash of the password, which verifies
/// the password. Hashing succeeds whenever Argon2 accepts the salt and
/// password lengths.
pub open spec fn signup_outcome(
    s0: AuthService,
    s1: AuthService,
    name: Seq<char>,
    password: Seq<char>,
    secret: Seq<char>,
    salt: Seq<u8>,
    r: Result<usize, ServiceError>,
) -> bool {
    &&& s1.wf()
    &&& same_except_users(s0, s1)
    &&& if credential_errors(name, password).len() > 0 {
        &&& r matches Err(ServiceError::ValidatorError(errors)) && errors@ == credential_errors(
            name,
            password,
        )
        &&& s1.users() == s0.users()
    } else if secret != s0.signup_secret() {
        r matches Err(e) && e is InvalidSignupSecret && s1.users() == s0.users()
    } else if name_taken(s0.users(), name) {
        &&& r matches Err(ServiceError::UserAlreadyExists { username }) && username@ == name
        &&& s1.users() == s0.users()
    } else if s0.users().len() + 1 >= usize::MAX {
        r matches Err(e) && e is InternalError && s1.users() == s0.users()
    } else {
        let pw = vstd::utf8::encode_utf8(password);
        &&& hash_input_ok(pw, salt) ==> r is Ok
        &&& match r {
            Ok(id) => {
                &&& s1.users() == s0.users().push((name, argon2_encoded(pw, salt)))
                &&& argon2_verdict(argon2_encoded(pw, salt), pw) == Some(true)
                &&& id == s1.users().len()
            },
            Err(e) => e is HashError && s1.users() == s0.users(),
        }
    }
}

/// What a login with this (trimmed) name and password does at time `now`:
/// accepted credentials get a token pair, numbered with the service's serial
/// number, whose refresh token is registered before it is handed out; an
/// unknown name and a wrong password get the same refusal.
pub open spec fn login_outcome(
    s0: AuthService,
    s1: AuthService,
    name: Seq<char>,
    password: Seq<u8>,
    now: u64,
    r: Result<(String, String), ServiceError>,
) -> bool {
    &&& s1.wf()
    &&& same_except_sessions(s0, s1)
    &&& match accepted_id(s0.users(), name, password) {
        None => {
            &&& r matches Err(e) && e is Unauthorized
            &&& s1.sessions() == s0.sessions()
            &&& s1.serial() == s0.serial()
        },
        Some(id) => {
            &&& r matches Ok((a, b)) && {
                &&& a@ == access_token_at(id, name, s0.token_secret(), now, s0.serial())
                &&& b@ == refresh_token_at(id, s0.token_secret(), now, s0.serial())
                &&& s1.sessions() == s0.sessions().insert((id, fingerprint_of(b@)))
                &&& jwt_payload(a@, s0.token_secret()) == Some(issued_access_fields(id, name, now))
                &&& jwt_payload(b@, s0.token_secret()) == Some(issued_refresh_fields(id, now))
            }
            &&& s1.serial() == next_serial(s0.serial())
        },
    }
}

/// What presenting a refresh cookie does at time `now`: a missing or invalid
/// token is refused; a valid one that is not registered (already redeemed, or
/// revoked) revokes every session of its user; a registered one is redeemed
/// and replaced by a freshly issued pair, whose refresh token has another
/// fingerprint (the call fails, issuing nothing, should the two digests
/// coincide).
pub open spec fn refresh_outcome(
    s0: AuthService,
    s1: AuthService,
    cookie: Option<Seq<char>>,
    now: u64,
    r: Result<(String, String), ServiceError>,
) -> bool {
    &&& s1.wf()
    &&& same_except_sessions(s0, s1)
    &&& match cookie {
        None => {
            &&& r matches Err(e) && e is Unauthorized
            &&& s1.sessions() == s0.sessions()
            &&& s1.serial() == s0.serial()
        },
        Some(t) => {
            let secret = s0.token_secret();
            let u = refresh_subject(t, secret);
            let f = fingerprint_of(t);
            if !refresh_token_valid(t, secret, now) {
                &&& r matches Err(e) && e is Unauthorized
                &&& s1.sessions() == s0.sessions()
                &&& s1.serial() == s0.serial()
            } else if !s0.sessions().contains((u, f)) {
                &&& r matches Err(e) && e is InvalidRefreshToken
                &&& s1.sessions() == rotate(s0.sessions(), u, f, f)
                &&& s1.serial() == s0.serial()
            } else {
                match entry_of(s0.users(), u) {
                    None => {
                        &&& r matches Err(e) && e is Unauthorized
                        &&& s1.sessions() == s0.sessions().remove((u, f))
                        &&& s1.serial() == s0.serial()
                    },
                    Some(entry) => {
                        let fresh = refresh_token_at(u, secret, now, s0.serial());
                        &&& s1.serial() == next_serial(s0.serial())
                        &&& if fingerprint_of(fresh) != f {
                            &&& r matches Ok((a, b)) && {
                                &&& a@ == access_token_at(u, entry.0, secret, now, s0.serial())
                                &&& b@ == fresh
                                &&& b@ != t
                                &&& jwt_payload(a@, secret) == Some(
                                    issued_access_fields(u, entry.0, now),
                                )
                                &&& jwt_payload(b@, secret) == Some(issued_refresh_fields(u, now))
                                &&& s1.sessions() == rotate(s0.sessions(), u, f, fingerprint_of(b@))
                            }
                        } else {
                            &&& r matches Err(e) && e is InternalError
                            &&& s1.sessions() == s0.sessions().remove((u, f))
                        }
                    },
                }
            }
        },
    }
}

/// What a logout with a refresh cookie does at time `now`: without a cookie
/// it is refused; otherwise it succeeds, and a valid token has its own
/// session revoked, or every session of its user when `all` is set.
pub open spec fn logout_outcome(
    s0: AuthService,
    s1: AuthService,
    cookie: Option<Seq<char>>,
    all: bool,
    now: u64,
    r: Result<(), ServiceError>,
) -> bool {
    &&& s1.wf()
    &&& same_except_sessions(s0, s1)
    &&& s1.serial() == s0.serial()
    &&& match cookie {
        None => r matches Err(e) && e is Unauthorized && s1.sessions() == s0.sessions(),
        Some(t) => {
            let secret = s0.token_secret();
            let u = refresh_subject(t, secret);
            &&& r is Ok
            &&& if !refresh_token_valid(t, secret, now) {
                s1.sessions() == s0.sessions()
            } else if all {
                s1.sessions() == s0.sessions().filter(|p: (usize, Seq<u8>)| p.0 != u)
            } else {
                s1.sessions() == s0.sessions().remove((u, fingerprint_of(t)))
            }
        },
    }
}

/// The view of an optional borrowed text.
pub open spec fn text_of(cookie: Option<&str>) -> Option<Seq<char>> {
    match cookie {
        Some(t) => Some(t@),
        None => None,
    }
}

/// The query of a logout: whether every session of the user ends, or only
/// the one of the presented cookie.
pub struct LogoutRequest {
    pub all: bool,
}

/// Users, sessions and the signup secret: credential checks and session
/// rotation over them.
pub struct AuthService {
    config: AppState,
    users: CredentialStore,
    sessions: SessionRegistry,
    serial: u64,
}

impl AuthService {
    /// The registered users, in id order.
    pub closed spec fn users(&self) -> Seq<UserEntry> {
        self.users@
    }

    /// The redeemable refresh tokens, as (user, fingerprint) pairs.
    pub closed spec fn sessions(&self) -> Set<(usize, Seq<u8>)> {
        self.sessions@
    }

    /// The bytes of the token signing secret.
    pub closed spec fn token_secret(&self) -> Seq<u8> {
        vstd::utf8::encode_utf8(self.config.token_secret@)
    }

    /// The signup secret.
    pub closed spec fn signup_secret(&self) -> Seq<char> {
        self.config.signup_secret@
    }

    /// The serial number the next issued token pair carries.
    pub closed spec fn serial(&self) -> u64 {
        self.serial
    }

    /// The service is well formed: usernames are unique, ids fit, and every
    /// session belongs to a registered user.
    pub closed spec fn wf(&self) -> bool {
        &&& self.users.wf()
        &&& forall|p: (usize, Seq<u8>)|
            #[trigger] self.sessions@.contains(p) ==> 1 <= p.0 <= self.users@.len()
    }

    /// A service with no users and no sessions.
    pub fn new(config: AppState) -> (r: AuthService)
        ensures
            r.wf(),
            r.users() == Seq::<UserEntry>::empty(),
            r.sessions() == Set::<(usize, Seq<u8>)>::empty(),
            r.token_secret() == vstd::utf8::encode_utf8(config.token_secret@),
            r.signup_secret() == config.signup_secret@,
            r.serial() == 0,
    {
        AuthService {
            config,
            users: CredentialStore::new(),
            sessions: SessionRegistry::new(),
            serial: 0,
        }
    }

    /// Creates an account for an already trimmed name, hashing the password
    /// with the given salt.
    pub fn register_user(&mut self, name: String, password: &str, secret: &str, salt: &[u8]) -> (r:
        Result<usize, ServiceError>)
        requires
            old(self).wf(),
        ensures
            signup_outcome(*old(self), *final(self), name@, password@, secret@, salt@, r),
    {
        match check_credentials(name.as_str(), password) {
            Err(errors) => {
                return Err(ServiceError::ValidatorError(errors));
            },
            Ok(()) => {},
        }
        if !same_text(secret, self.config.signup_secret.as_str()) {
            return Err(ServiceError::InvalidSignupSecret);
        }
        if self.users.lookup(name.as_str()).is_some() {
            return Err(ServiceError::UserAlreadyExists { username: name });
        }
        if !self.users.has_room() {
            return Err(ServiceError::InternalError);
        }
        let hash = match argon2_hash(password.as_bytes(), salt) {
            Ok(h) => h,
            Err(_) => {
                return Err(ServiceError::HashError);
            },
        };
        let id = self.users.create(name, hash);
        Ok(id)
    }

    /// Creates an account with the given salt for the password hash; the
    /// username is trimmed first.
    pub fn signup_with_salt(&mut self, request: &Signup, salt: &[u8]) -> (r: Result<
        usize,
        ServiceError,
    >)
        requires
            old(self).wf(),
        ensures
            signup_outcome(
                *old(self),
                *final(self),
                trimmed(request.username@),
                request.password@,
                request.secret@,
                salt@,
                r,
            ),
    {
        let name = trim_text(request.username.as_str());
        self.register_user(name, request.password.as_str(), request.secret.as_str(), salt)
    }

    /// Creates an account; the password is hashed with a fresh random salt.
    pub fn signup(&mut self, request: &Signup) -> (r: Result<usize, ServiceError>)
        requires
            old(self).wf(),
        ensures
            exists|salt: Seq<u8>|
                salt.len() == SALT_LEN && signup_outcome(
                    *old(self),
                    *final(self),
                    trimmed(request.username@),
                    request.password@,
                    request.secret@,
                    salt,
                    r,
                ),
    {
        let salt = random_salt();
        self.signup_with_salt(request, salt.as_slice())
    }

    /// Logs a user in under an already trimmed name at time `now`, returning
    /// an access token and a refresh token.
    pub fn login_as(&mut self, name: String, password: &str, now: u64) -> (r: Result<
        (String, String),
        ServiceError,
    >)
        requires
            old(self).wf(),
            now <= MAX_TIMESTAMP,
        ensures
            login_outcome(
                *old(self),
                *final(self),
                name@,
                vstd::utf8::encode_utf8(password@),
                now,
                r,
            ),
    {
        let id = match self.users.lookup(name.as_str()) {
            Some(id) => id,
            None => {
                return Err(ServiceError::Unauthorized);
            },
        };
        let verified = match self.users.get(id) {
            Some(user) => match argon2_verify(user.password_hash.as_str(), password.as_bytes()) {
                Ok(b) => b,
                Err(_) => false,
            },
            None => false,
        };
        if !verified {
            return Err(ServiceError::Unauthorized);
        }
        let jti = self.serial;
        self.serial = if jti == u64::MAX {
            0
        } else {
            jti + 1
        };
        let (access, refresh) = match token_pair_at(
            id,
            name,
            self.config.token_secret.as_str().as_bytes(),
            now,
            jti,
        ) {
            Ok(pair) => pair,
            Err(e) => {
                return Err(e);
            },
        };
        self.sessions.register(id, refresh.as_str());
        Ok((access, refresh))
    }

    /// Logs a user in at time `now`, returning an access token and a refresh
    /// token; the username is trimmed first.
    pub fn login_at(&mut self, login: &Login, now: u64) -> (r: Result<
        (String, String),
        ServiceError,
    >)
        requires
            old(self).wf(),
            now <= MAX_TIMESTAMP,
        ensures
            login_outcome(
                *old(self),
                *final(self),
                trimmed(login.username@),
                vstd::utf8::encode_utf8(login.password@),
                now,
                r,
            ),
    {
        let name = trim_text(login.username.as_str());
        self.login_as(name, login.password.as_str(), now)
    }

    /// Logs a user in, by the clock.
    pub fn login(&mut self, login: &Login) -> (r: Result<(String, String), ServiceError>)
        requires
            old(self).wf(),
        ensures
            exists|now: u64|
                now <= MAX_TIMESTAMP && login_outcome(
                    *old(self),
                    *final(self),
                    trimmed(login.username@),
                    vstd::utf8::encode_utf8(login.password@),
                    now,
                    r,
                ),
    {
        let now = now_timestamp();
        self.login_at(login, now)
    }

    /// Redeems a refresh cookie at time `now`: a registered token is rotated
    /// out for a new pair; a valid token that is not registered revokes every
    /// session of its user.
    pub fn refresh_at(&mut self, cookie: Option<&str>, now: u64) -> (r: Result<
        (String, String),
        ServiceError,
    >)
        requires
            old(self).wf(),
            now <= MAX_TIMESTAMP,
        ensures
            refresh_outcome(*old(self), *final(self), text_of(cookie), now, r),
    {
        let token = match cookie {
            Some(t) => t,
            None => {
                return Err(ServiceError::Unauthorized);
            },
        };
        let claims = match decode_refresh_at(token, self.config.token_secret.as_str().as_bytes(), now) {
            Ok(c) => c,
            Err(_) => {
                return Err(ServiceError::Unauthorized);
            },
        };
        let user = claims.sub;
        if !self.sessions.redeem(user, token) {
            self.sessions.revoke_all(user);
            assert(self.sessions@ =~= rotate(
                old(self).sessions@,
                user,
                fingerprint_of(token@),
                fingerprint_of(token@),
            ));
            return Err(ServiceError::InvalidRefreshToken);
        }
        let name = match self.users.get(user) {
            Some(u) => u.username.clone(),
            None => {
                return Err(ServiceError::Unauthorized);
            },
        };
        let jti = self.serial;
        self.serial = if jti == u64::MAX {
            0
        } else {
            jti + 1
        };
        let (access, refresh) = match token_pair_at(
            user,
            name,
            self.config.token_secret.as_str().as_bytes(),
            now,
            jti,
        ) {
            Ok(pair) => pair,
            Err(e) => {
                return Err(e);
            },
        };
        if same_bytes(fingerprint(refresh.as_str()).as_slice(), fingerprint(token).as_slice()) {
            return Err(ServiceError::InternalError);
        }
        self.sessions.register(user, refresh.as_str());
        Ok((access, refresh))
    }

    /// Redeems a refresh cookie, by the clock.
    pub fn refresh(&mut self, cookie: Option<&str>) -> (r: Result<(String, String), ServiceError>)
        requires
            old(self).wf(),
        ensures
            exists|now: u64|
                now <= MAX_TIMESTAMP && refresh_outcome(
                    *old(self),
                    *final(self),
                    text_of(cookie),
                    now,
                    r,
                ),
    {
        let now = now_timestamp();
        self.refresh_at(cookie, now)
    }

    /// Logs out at time `now`: revokes the cookie's session, or every session
    /// of its user when `all` is set. A token that no longer verifies still
    /// logs out, with nothing to revoke.
    pub fn logout_at(&mut self, cookie: Option<&str>, request: &LogoutRequest, now: u64) -> (r:
        Result<(), ServiceError>)
        requires
            old(self).wf(),
        ensures
            logout_outcome(*old(self), *final(self), text_of(cookie), request.all, now, r),
    {
        let token = match cookie {
            Some(t) => t,
            None => {
                return Err(ServiceError::Unauthorized);
            },
        };
        match decode_refresh_at(token, self.config.token_secret.as_str().as_bytes(), now) {
            Ok(claims) => {
                if request.all {
                    self.sessions.revoke_all(claims.sub);
                } else {
                    self.sessions.revoke_one(claims.sub, token);
                }
            },
            Err(_) => {},
        }
        Ok(())
    }

    /// Logs out, by the clock.
    pub fn logout(&mut self, cookie: Option<&str>, request: &LogoutRequest) -> (r: Result<
        (),
        ServiceError,
    >)
        requires
            old(self).wf(),
        ensures
            exists|now: u64|
                now <= MAX_TIMESTAMP && logout_outcome(
                    *old(self),
                    *final(self),
                    text_of(cookie),
                    request.all,
                    now,
                    r,
                ),
    {
        let now = now_timestamp();
        self.logout_at(cookie, request, now)
    }
}

/// Signing up and then logging in: once a signup succeeds, a login with the
/// same name and password succeeds, for the new user's id, and registers its
/// refresh token; a login with a password that the stored hash rejects is
/// refused as unauthorized.
pub proof fn lemma_signup_then_login(
    s0: AuthService,
    s1: AuthService,
    name: Seq<char>,
    password: Seq<char>,
    secret: Seq<char>,
    salt: Seq<u8>,
    signed_up: Result<usize, ServiceError>,
    s2: AuthService,
    now: u64,
    logged_in: Result<(String, String), ServiceError>,
    s3: AuthService,
    wrong: Seq<char>,
    later: u64,
    refused: Result<(String, String), ServiceError>,
)
    requires
        s0.wf(),
        signup_outcome(s0, s1, name, password, secret, salt, signed_up),
        signed_up is Ok,
        login_outcome(s1, s2, name, vstd::utf8::encode_utf8(password), now, logged_in),
        argon2_verdict(
            argon2_encoded(vstd::utf8::encode_utf8(password), salt),
            vstd::utf8::encode_utf8(wrong),
        ) != Some(true),
        login_outcome(s1, s3, name, vstd::utf8::encode_utf8(wrong), later, refused),
    ensures
        signed_up->Ok_0 == s0.users().len() + 1,
        logged_in matches Ok((a, b)) && {
            &&& a@ == access_token_at(signed_up->Ok_0, name, s1.token_secret(), now, s1.serial())
            &&& jwt_payload(a@, s1.token_secret()) == Some(
                issued_access_fields(signed_up->Ok_0, name, now),
            )
            &&& jwt_payload(b@, s1.token_secret()) == Some(
                issued_refresh_fields(signed_up->Ok_0, now),
            )
            &&& s2.sessions().contains((signed_up->Ok_0, fingerprint_of(b@)))
        },
        refused matches Err(e) && e is Unauthorized,
        s3.sessions() == s1.sessions(),
        s3.serial() == s1.serial(),
{
    let users = s0.users();
    let id = signed_up->Ok_0;
    let entry = (name, argon2_encoded(vstd::utf8::encode_utf8(password), salt));
    assert(!name_taken(users, name));
    assert(s1.users() == users.push(entry));
    let all = s1.users();
    assert(all[users.len() as int].0 == name);
    assert(name_taken(all, name));
    let i = choose|i: int| 0 <= i < all.len() && all[i].0 == name;
    if i != users.len() {
        assert(users[i].0 == name);
    }
    assert(id_of(all, name) == Some(id));
    assert(all[id - 1] == entry);
}

/// An issued access token, read back with its secret, passes the checks and
/// names its user exactly while the expiry window opened at issue has not
/// closed. `token_pair_at` and `get_token_pair` state the premise of every
/// access token they issue.
pub proof fn lemma_access_window(
    token: Seq<char>,
    secret: Seq<u8>,
    id: usize,
    name: Seq<char>,
    iat: u64,
    now: u64,
)
    requires
        iat <= MAX_TIMESTAMP,
        jwt_payload(token, secret) == Some(issued_access_fields(id, name, iat)),
    ensures
        access_token_valid(token, secret, now) <==> now <= iat + ACCESS_TOKEN_SECONDS,
        access_token_valid(token, secret, now) ==> jwt_payload(token, secret)->Some_0.3 == Some(
            id as u64,
        ),
{
}

/// The login-refresh-replay scenario: the refresh cookie of a login, presented
/// while unexpired, is rotated for a new cookie of the same user; presenting
/// the old cookie again is refused as a replay, after which the new cookie is
/// refused too, its whole session family being revoked. The rotated-in token
/// must not share its digest with the old one.
pub proof fn lemma_login_refresh_replay(
    s1: AuthService,
    s2: AuthService,
    s3: AuthService,
    s4: AuthService,
    s5: AuthService,
    name: Seq<char>,
    password: Seq<u8>,
    login_at: u64,
    logged_in: Result<(String, String), ServiceError>,
    refresh_at: u64,
    refreshed: Result<(String, String), ServiceError>,
    replay_at: u64,
    replayed: Result<(String, String), ServiceError>,
    later: u64,
    refused: Result<(String, String), ServiceError>,
)
    requires
        s1.wf(),
        login_at <= MAX_TIMESTAMP,
        login_outcome(s1, s2, name, password, login_at, logged_in),
        logged_in is Ok,
        login_at <= refresh_at <= login_at + REFRESH_TOKEN_SECONDS,
        fingerprint_of(
            refresh_token_at(
                accepted_id(s1.users(), name, password)->Some_0,
                s1.token_secret(),
                refresh_at,
                s2.serial(),
            ),
        ) != fingerprint_of(logged_in->Ok_0.1@),
        refresh_outcome(s2, s3, Some(logged_in->Ok_0.1@), refresh_at, refreshed),
        refresh_at <= replay_at <= login_at + REFRESH_TOKEN_SECONDS,
        refresh_outcome(s3, s4, Some(logged_in->Ok_0.1@), replay_at, replayed),
        refresh_at <= later <= refresh_at + REFRESH_TOKEN_SECONDS,
        refresh_outcome(s4, s5, Some(refreshed->Ok_0.1@), later, refused),
    ensures
        refreshed matches Ok((a, c)) && {
            &&& c@ != logged_in->Ok_0.1@
            &&& jwt_payload(a@, s1.token_secret()) == Some(
                issued_access_fields(
                    accepted_id(s1.users(), name, password)->Some_0,
                    s1.users()[accepted_id(s1.users(), name, password)->Some_0 - 1].0,
                    refresh_at,
                ),
            )
        },
        replayed matches Err(e) && e is InvalidRefreshToken,
        refused matches Err(e) && e is InvalidRefreshToken,
{
    let secret = s1.token_secret();
    let id = accepted_id(s1.users(), name, password)->Some_0;
    let b = logged_in->Ok_0.1@;
    let f = fingerprint_of(b);
    assert(refresh_token_valid(b, secret, refresh_at));
    assert(refresh_subject(b, secret) == id);
    assert(s2.sessions().contains((id, f)));
    assert(entry_of(s2.users(), id) is Some);
    let c = refreshed->Ok_0.1@;
    assert(refresh_token_valid(b, secret, replay_at));
    assert(!s3.sessions().contains((id, f)));
    assert(refresh_token_valid(c, secret, later));
    assert(refresh_subject(c, secret) == id);
    assert(!s4.sessions().contains((id, fingerprint_of(c))));
}

/// Logging out twice with the same cookie, the clock not running backwards:
/// the second call answers as the first did and changes nothing more.
pub proof fn lemma_logout_twice(
    s0: AuthService,
    s1: AuthService,
    s2: AuthService,
    cookie: Option<Seq<char>>,
    all: bool,
    first_at: u64,
    first: Result<(), ServiceError>,
    second_at: u64,
    second: Result<(), ServiceError>,
)
    requires
        logout_outcome(s0, s1, cookie, all, first_at, first),
        logout_outcome(s1, s2, cookie, all, second_at, second),
        first_at <= second_at,
    ensures
        first is Ok <==> second is Ok,
        first matches Err(e) ==> e is Unauthorized,
        second matches Err(e) ==> e is Unauthorized,
        s2.sessions() == s1.sessions(),
{
    if let Some(t) = cookie {
        let secret = s0.token_secret();
        let u = refresh_subject(t, secret);
        if refresh_token_valid(t, secret, second_at) {
            assert(refresh_token_valid(t, secret, first_at));
            if all {
                assert(s2.sessions() =~= s1.sessions());
            } else {
                assert(s2.sessions() =~= s1.sessions());
            }
        }
    }
}

/// Replaying a redeemed refresh token: after a successful refresh, presenting
/// the same (still unexpired) token again is refused and revokes every
/// session of its user, while other users keep theirs.
pub proof fn lemma_replay_revokes_all(
    s0: AuthService,
    s1: AuthService,
    s2: AuthService,
    token: Seq<char>,
    first_at: u64,
    first: Result<(String, String), ServiceError>,
    second_at: u64,
    second: Result<(String, String), ServiceError>,
)
    requires
        refresh_outcome(s0, s1, Some(token), first_at, first),
        first is Ok,
        refresh_outcome(s1, s2, Some(token), second_at, second),
        refresh_token_valid(token, s1.token_secret(), second_at),
    ensures
        second matches Err(e) && e is InvalidRefreshToken,
        forall|p: (usize, Seq<u8>)|
            s2.sessions().contains(p) ==> p.0 != refresh_subject(token, s0.token_secret()),
        forall|p: (usize, Seq<u8>)|
            p.0 != refresh_subject(token, s0.token_secret()) ==> (s2.sessions().contains(p)
                <==> s1.sessions().contains(p)),
{
    let u = refresh_subject(token, s0.token_secret());
    let f = fingerprint_of(token);
    assert(!s1.sessions().contains((u, f)));
}

/// Presenting one refresh token N times in a row, each call atomic, the token
/// staying unexpired throughout: at most one call succeeds, and only the
/// first; when the token was registered, the first does succeed (unless the
/// new token's digest coincides with the old one's);
/// every later call is refused as a replay; the revocation of the user's
/// sessions takes effect at the second call and the calls after it change
/// nothing.
pub proof fn lemma_single_rotation(
    states: Seq<AuthService>,
    results: Seq<Result<(String, String), ServiceError>>,
    times: Seq<u64>,
    token: Seq<char>,
)
    requires
        states.len() == results.len() + 1,
        times.len() == results.len(),
        states[0].wf(),
        forall|i: int|
            0 <= i < results.len() ==> refresh_outcome(
                #[trigger] states[i],
                states[i + 1],
                Some(token),
                times[i],
                results[i],
            ),
        forall|i: int|
            0 <= i < results.len() ==> refresh_token_valid(
                token,
                states[0].token_secret(),
                #[trigger] times[i],
            ),
    ensures
        forall|i: int|
            0 < i < results.len() ==> (#[trigger] results[i] matches Err(e)
                && e is InvalidRefreshToken),
        forall|i: int| 0 <= i < results.len() && #[trigger] results[i] is Ok ==> i == 0,
        ({
            let secret = states[0].token_secret();
            let u = refresh_subject(token, secret);
            let f = fingerprint_of(token);
            results.len() >= 1 && states[0].sessions().contains((u, f)) && fingerprint_of(
                refresh_token_at(u, secret, times[0], states[0].serial()),
            ) != f ==> results[0] is Ok
        }),
        results.len() >= 2 ==> forall|p: (usize, Seq<u8>)|
            #[trigger] states[2].sessions().contains(p) ==> p.0 != refresh_subject(
                token,
                states[0].token_secret(),
            ),
        forall|i: int| 2 <= i < results.len() ==> #[trigger] states[i + 1].sessions() == states[i].sessions(),
    decreases results.len(),
{
    let secret = states[0].token_secret();
    let u = refresh_subject(token, secret);
    let f = fingerprint_of(token);
    let n = results.len();
    if n == 0 {
        return;
    }
    assert forall|i: int| 0 <= i <= n implies #[trigger] states[i].token_secret() == secret by {
        lemma_secret_kept(states, results, times, token, i);
    }
    assert forall|i: int| 1 <= i <= n implies !(#[trigger] states[i].sessions()).contains((u, f)) by {
        lemma_key_gone(states, results, times, token, i);
    }
    assert forall|i: int| 0 < i < n implies (#[trigger] results[i] matches Err(e)
        && e is InvalidRefreshToken) by {
        assert(states[i].token_secret() == secret);
        assert(refresh_outcome(states[i], states[i + 1], Some(token), times[i], results[i]));
        assert(!states[i].sessions().contains((u, f)));
    }
    assert(refresh_outcome(states[0], states[1], Some(token), times[0], results[0]));
    if states[0].sessions().contains((u, f)) {
        assert(entry_of(states[0].users(), u) is Some);
    }
    if n >= 2 {
        assert(states[1].token_secret() == secret);
        assert(refresh_outcome(states[1], states[2], Some(token), times[1], results[1]));
        assert(states[2].sessions() == rotate(states[1].sessions(), u, f, f));
    }
    assert forall|i: int| 2 <= i < n implies #[trigger] states[i + 1].sessions()
        == states[i].sessions() by {
        assert(states[i].token_secret() == secret);
        assert(states[i - 1].token_secret() == secret);
        assert(refresh_outcome(states[i - 1], states[i], Some(token), times[i - 1], results[i - 1]));
        assert(refresh_outcome(states[i], states[i + 1], Some(token), times[i], results[i]));
        assert(!states[i - 1].sessions().contains((u, f)));
        assert(!states[i].sessions().contains((u, f)));
        assert(states[i + 1].sessions() =~= states[i].sessions());
    }
}

/// The signing secret stays the same along a run of refresh calls.
proof fn lemma_secret_kept(
    states: Seq<AuthService>,
    results: Seq<Result<(String, String), ServiceError>>,
    times: Seq<u64>,
    token: Seq<char>,
    i: int,
)
    requires
        states.len() == results.len() + 1,
        times.len() == results.len(),
        forall|k: int|
            0 <= k < results.len() ==> refresh_outcome(
                #[trigger] states[k],
                states[k + 1],
                Some(token),
                times[k],
                results[k],
            ),
        0 <= i <= results.len(),
    ensures
        states[i].token_secret() == states[0].token_secret(),
    decreases i,
{
    if i > 0 {
        lemma_secret_kept(states, results, times, token, i - 1);
        assert(refresh_outcome(states[i - 1], states[i], Some(token), times[i - 1], results[i - 1]));
    }
}

/// After the first of a run of refresh calls with one valid token, the token
/// is no longer registered.
proof fn lemma_key_gone(
    states: Seq<AuthService>,
    results: Seq<Result<(String, String), ServiceError>>,
    times: Seq<u64>,
    token: Seq<char>,
    i: int,
)
    requires
        states.len() == results.len() + 1,
        times.len() == results.len(),
        forall|k: int|
            0 <= k < results.len() ==> refresh_outcome(
                #[trigger] states[k],
                states[k + 1],
                Some(token),
                times[k],
                results[k],
            ),
        forall|k: int|
            0 <= k < results.len() ==> refresh_token_valid(
                token,
                states[0].token_secret(),
                #[trigger] times[k],
            ),
        1 <= i <= results.len(),
    ensures
        !states[i].sessions().contains(
            (refresh_subject(token, states[0].token_secret()), fingerprint_of(token)),
        ),
    decreases i,
{
    let secret = states[0].token_secret();
    let u = refresh_subject(token, secret);
    let f = fingerprint_of(token);
    lemma_secret_kept(states, results, times, token, i - 1);
    assert(refresh_outcome(states[i - 1], states[i], Some(token), times[i - 1], results[i - 1]));
    assert(refresh_token_valid(token, secret, times[i - 1]));
    if i > 1 {
        lemma_key_gone(states, results, times, token, i - 1);
    }
}

} // verus!
