//! Field rules for login and signup requests.
use vstd::prelude::*;

use crate::crypto::{
    argon2_encoded, argon2_hash, argon2_verdict, argon2_verify, hash_input_ok, random_salt, SALT_LEN,
};
use crate::errors::ServiceError;

verus! {

/// What `char::is_alphanumeric` answers for a character.
pub uninterp spec fn is_alphanumeric_char(c: char) -> bool;

/// Relies on `char::is_alphanumeric`: whether the character is alphabetic or
/// numeric in the Unicode sense.
#[verifier::external_body]
fn char_is_alphanumeric(c: char) -> (r: bool)
    ensures
        r == is_alphanumeric_char(c),
{
    c.is_alphanumeric()
}

/// A character of the Unicode White_Space property, which `char::is_whitespace`
/// and `str::trim` go by.
pub open spec fn is_white_space(c: char) -> bool {
    ||| '\u{9}' <= c <= '\u{d}'
    ||| c == ' '
    ||| c == '\u{85}'
    ||| c == '\u{a0}'
    ||| c == '\u{1680}'
    ||| '\u{2000}' <= c <= '\u{200a}'
    ||| c == '\u{2028}'
    ||| c == '\u{2029}'
    ||| c == '\u{202f}'
    ||| c == '\u{205f}'
    ||| c == '\u{3000}'
}

/// The text without its leading white space.
pub open spec fn trim_start(s: Seq<char>) -> Seq<char>
    decreases s.len(),
{
    if s.len() > 0 && is_white_space(s[0]) {
        trim_start(s.drop_first())
    } else {
        s
    }
}

/// The text without its trailing white space.
pub open spec fn trim_end(s: Seq<char>) -> Seq<char>
    decreases s.len(),
{
    if s.len() > 0 && is_white_space(s.last()) {
        trim_end(s.drop_last())
    } else {
        s
    }
}

/// The text with leading and trailing white space removed.
pub open spec fn trimmed(s: Seq<char>) -> Seq<char> {
    trim_end(trim_start(s))
}

/// Relies on `str::trim`: the text without leading and trailing whitespace,
/// whitespace being the Unicode White_Space property.
#[verifier::external_body]
pub(crate) fn trim_text(s: &str) -> (r: String)
    ensures
        r@ == trimmed(s@),
{
    String::from(s.trim())
}

/// A character that may stand in a username.
pub open spec fn username_char_ok(c: char) -> bool {
    is_alphanumeric_char(c) || c == ' '
}

/// Every character of the name is alphanumeric or a space.
pub open spec fn username_chars_ok(s: Seq<char>) -> bool {
    forall|i: int| 0 <= i < s.len() ==> username_char_ok(#[trigger] s[i])
}

/// Returns true when every character of the username is alphanumeric or a
/// space. The empty name passes this test: its emptiness is checked apart.
pub fn validate_username(username: &str) -> (r: bool)
    ensures
        r == username_chars_ok(username@),
{
    let n = username.unicode_len();
    let mut i: usize = 0;
    while i < n
        invariant
            n == username@.len(),
            i <= n,
            forall|j: int| 0 <= j < i ==> username_char_ok(#[trigger] username@[j]),
        decreases n - i,
    {
        let c = username.get_char(i);
        if !(char_is_alphanumeric(c) || c == ' ') {
            return false;
        }
        i = i + 1;
    }
    true
}

/// Whether two strings hold the same characters.
pub fn same_text(a: &str, b: &str) -> (r: bool)
    ensures
        r == (a@ == b@),
{
    let n = a.unicode_len();
    let m = b.unicode_len();
    if n != m {
        return false;
    }
    let mut i: usize = 0;
    while i < n
        invariant
            n == a@.len(),
            m == b@.len(),
            n == m,
            i <= n,
            forall|j: int| 0 <= j < i ==> a@[j] == b@[j],
        decreases n - i,
    {
        if a.get_char(i) != b.get_char(i) {
            return false;
        }
        i = i + 1;
    }
    assert(a@ =~= b@);
    true
}

/// A field of a request that failed its rule.
#[derive(Debug, Clone, Copy, PartialEq, Eq, Structural)]
pub enum FieldError {
    /// The username is empty.
    EmptyUsername,
    /// The username holds a character other than a letter, a digit or a space.
    UsernameCharacters,
    /// The password is empty.
    EmptyPassword,
}

/// The field that a failure concerns.
pub open spec fn field_name(e: FieldError) -> Seq<char> {
    match e {
        FieldError::EmptyPassword => "password"@,
        _ => "username"@,
    }
}

/// The message of a failure.
pub open spec fn message_text(e: FieldError) -> Seq<char> {
    match e {
        FieldError::EmptyUsername => "Username cannot be empty"@,
        FieldError::UsernameCharacters => "Username can only contain alphanumeric characters and spaces"@,
        FieldError::EmptyPassword => "Password cannot be empty"@,
    }
}

/// The messages of the failures of one field, in order, joined with ", ".
pub open spec fn joined_messages(errors: Seq<FieldError>, field: Seq<char>) -> Seq<char>
    decreases errors.len(),
{
    if errors.len() == 0 {
        Seq::empty()
    } else {
        let before = joined_messages(errors.drop_last(), field);
        let e = errors.last();
        if field_name(e) != field {
            before
        } else if before.len() == 0 {
            message_text(e)
        } else {
            before + ", "@ + message_text(e)
        }
    }
}

/// The failures include one of this field.
pub open spec fn field_failed(errors: Seq<FieldError>, field: Seq<char>) -> bool {
    exists|i: int| 0 <= i < errors.len() && field_name(#[trigger] errors[i]) == field
}

/// The messages of the failures of one field, joined with ", ", or none when
/// the field did not fail.
pub fn field_messages(errors: &Vec<FieldError>, field: &str) -> (r: Option<String>)
    ensures
        r is Some <==> field_failed(errors@, field@),
        r matches Some(m) ==> m@ == joined_messages(errors@, field@),
{
    let mut out = String::new();
    let mut found = false;
    let mut i: usize = 0;
    while i < errors.len()
        invariant
            i <= errors@.len(),
            out@ == joined_messages(errors@.subrange(0, i as int), field@),
            found <==> exists|j: int| 0 <= j < i && field_name(#[trigger] errors@[j]) == field@,
            found <==> out@.len() > 0,
        decreases errors@.len() - i,
    {
        let e = errors[i];
        proof {
            assert(errors@.subrange(0, i + 1).drop_last() =~= errors@.subrange(0, i as int));
        }
        if same_text(e.field(), field) {
            if found {
                out.append(", ");
            }
            out.append(e.message());
            found = true;
            proof {
                reveal_strlit("Username cannot be empty");
                reveal_strlit("Username can only contain alphanumeric characters and spaces");
                reveal_strlit("Password cannot be empty");
                assert(message_text(e).len() > 0);
            }
        }
        i = i + 1;
    }
    assert(errors@.subrange(0, errors@.len() as int) =~= errors@);
    if found {
        Some(out)
    } else {
        None
    }
}

impl FieldError {
    /// The name of the field that failed.
    pub fn field(&self) -> (r: &'static str)
        ensures
            r@ == field_name(*self),
    {
        match self {
            FieldError::EmptyPassword => "password",
            _ => "username",
        }
    }

    /// The message shown for the failure.
    pub fn message(&self) -> (r: &'static str)
        ensures
            r@ == message_text(*self),
    {
        match self {
            FieldError::EmptyUsername => "Username cannot be empty",
            FieldError::UsernameCharacters => "Username can only contain alphanumeric characters and spaces",
            FieldError::EmptyPassword => "Password cannot be empty",
        }
    }
}

/// The failures of a username and password pair, in field order: an empty
/// name, a name with a forbidden character, an empty password.
pub open spec fn credential_errors(username: Seq<char>, password: Seq<char>) -> Seq<FieldError> {
    let empty_name = if username.len() == 0 {
        seq![FieldError::EmptyUsername]
    } else {
        Seq::empty()
    };
    let bad_chars = if username_chars_ok(username) {
        Seq::empty()
    } else {
        seq![FieldError::UsernameCharacters]
    };
    let empty_password = if password.len() == 0 {
        seq![FieldError::EmptyPassword]
    } else {
        Seq::empty()
    };
    empty_name + bad_chars + empty_password
}

/// Checks a username and password pair against the field rules.
pub fn check_credentials(username: &str, password: &str) -> (r: Result<(), Vec<FieldError>>)
    ensures
        r is Ok <==> credential_errors(username@, password@).len() == 0,
        r matches Err(e) ==> e@ == credential_errors(username@, password@),
{
    let mut errors: Vec<FieldError> = Vec::new();
    if username.is_empty() {
        errors.push(FieldError::EmptyUsername);
    }
    if !validate_username(username) {
        errors.push(FieldError::UsernameCharacters);
    }
    if password.is_empty() {
        errors.push(FieldError::EmptyPassword);
    }
    assert(errors@ =~= credential_errors(username@, password@));
    if errors.len() == 0 {
        Ok(())
    } else {
        Err(errors)
    }
}

/// The credentials of a login request.
pub struct Login {
    pub username: String,
    pub password: String,
}

impl Login {
    /// Checks the fields: a non-empty username of letters, digits and spaces,
    /// and a non-empty password. On failure, every failing rule is listed.
    pub fn validate(&self) -> (r: Result<(), Vec<FieldError>>)
        ensures
            r is Ok <==> credential_errors(self.username@, self.password@).len() == 0,
            r matches Err(e) ==> e@ == credential_errors(self.username@, self.password@),
    {
        check_credentials(self.username.as_str(), self.password.as_str())
    }

    /// Whether the password matches an encoded Argon2 hash. A hash that
    /// cannot be read is an error.
    pub fn verify_hash(&self, hash: &str) -> (r: Result<bool, ServiceError>)
        ensures
            r is Ok <==> argon2_verdict(hash@, vstd::utf8::encode_utf8(self.password@)) is Some,
            r matches Ok(b) ==> argon2_verdict(hash@, vstd::utf8::encode_utf8(self.password@))
                == Some(b),
            r matches Err(e) ==> e is HashError,
    {
        match argon2_verify(hash, self.password.as_str().as_bytes()) {
            Ok(b) => Ok(b),
            Err(_) => Err(ServiceError::HashError),
        }
    }
}

/// A request to create an account: credentials and the signup secret that
/// gates registration.
pub struct Signup {
    pub username: String,
    pub password: String,
    pub secret: String,
}

impl Signup {
    pub fn new(username: String, password: String, secret: String) -> (r: Signup)
        ensures
            r.username == username,
            r.password == password,
            r.secret == secret,
    {
        Signup { username, password, secret }
    }

    /// Checks the fields as `Login::validate` does.
    pub fn validate(&self) -> (r: Result<(), Vec<FieldError>>)
        ensures
            r is Ok <==> credential_errors(self.username@, self.password@).len() == 0,
            r matches Err(e) ==> e@ == credential_errors(self.username@, self.password@),
    {
        check_credentials(self.username.as_str(), self.password.as_str())
    }

    /// Whether the request carries the configured signup secret.
    pub fn verify_with_secret(&self, secret: &str) -> (r: bool)
        ensures
            r == (self.secret@ == secret@),
    {
        same_text(self.secret.as_str(), secret)
    }

    /// The encoded Argon2 hash of the password with the given salt.
    pub fn hash_with_salt(&self, salt: &[u8]) -> (r: Result<String, ServiceError>)
        ensures
            hash_input_ok(vstd::utf8::encode_utf8(self.password@), salt@) ==> r is Ok,
            r matches Ok(h) ==> h@ == argon2_encoded(vstd::utf8::encode_utf8(self.password@), salt@),
            r matches Ok(h) ==> argon2_verdict(h@, vstd::utf8::encode_utf8(self.password@)) == Some(
                true,
            ),
            r matches Err(e) ==> e is HashError,
    {
        match argon2_hash(self.password.as_str().as_bytes(), salt) {
            Ok(h) => Ok(h),
            Err(_) => Err(ServiceError::HashError),
        }
    }

    /// The encoded Argon2 hash of the password with a fresh random 32-byte
    /// salt.
    pub fn hash(&self) -> (r: Result<String, ServiceError>)
        ensures
            vstd::utf8::encode_utf8(self.password@).len() <= u32::MAX ==> r is Ok,
            r matches Ok(h) ==> argon2_verdict(h@, vstd::utf8::encode_utf8(self.password@)) == Some(
                true,
            ),
            r matches Ok(h) ==> exists|salt: Seq<u8>|
                salt.len() == SALT_LEN && h@ == argon2_encoded(
                    vstd::utf8::encode_utf8(self.password@),
                    salt,
                ),
            r matches Err(e) ==> e is HashError,
    {
        let salt = random_salt();
        self.hash_with_salt(salt.as_slice())
    }
}

} // verus!
