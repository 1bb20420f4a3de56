//! The one-way functions the service relies on: token fingerprints and
//! password hashes.
use vstd::prelude::*;

verus! {

#[verifier::external_type_specification]
#[verifier::external_body]
pub struct ExArgon2Error(argon2::Error);

/// The BLAKE2b-512 digest of the bytes.
pub uninterp spec fn blake2b_digest(data: Seq<u8>) -> Seq<u8>;

/// Relies on blake2's `Blake2b` through `digest::Digest::digest`: the 64-byte
/// BLAKE2b digest of the bytes.
#[verifier::external_body]
fn blake2b(data: &[u8]) -> (r: Vec<u8>)
    ensures
        r@ == blake2b_digest(data@),
        r@.len() == 64,
{
    <blake2::Blake2b as digest::Digest>::digest(data).to_vec()
}

/// The fingerprint kept for a token: the digest of its UTF-8 bytes.
pub open spec fn fingerprint_of(token: Seq<char>) -> Seq<u8> {
    blake2b_digest(vstd::utf8::encode_utf8(token))
}

/// The fingerprint of a token.
pub fn fingerprint(token: &str) -> (r: Vec<u8>)
    ensures
        r@ == fingerprint_of(token@),
        r@.len() == 64,
{
    blake2b(token.as_bytes())
}

/// The encoded Argon2 hash (default configuration: Argon2i, version 0x13,
/// 4096 KiB, three passes, one lane, 32-byte hash) of a password with a salt.
pub uninterp spec fn argon2_encoded(password: Seq<u8>, salt: Seq<u8>) -> Seq<char>;

/// Relies on `argon2::hash_encoded` with `argon2::Config::default()`: the
/// encoded hash string of the password with the salt. With the default
/// parameters it fails only for a salt shorter than 8 bytes or an input longer
/// than `u32::MAX` bytes, and `argon2::verify_encoded` accepts the password
/// against the hash it returns.
#[verifier::external_body]
pub(crate) fn argon2_hash(password: &[u8], salt: &[u8]) -> (r: Result<String, argon2::Error>)
    ensures
        hash_input_ok(password@, salt@) ==> r is Ok,
        r matches Ok(h) ==> h@ == argon2_encoded(password@, salt@),
        r matches Ok(h) ==> argon2_verdict(h@, password@) == Some(true),
{
    argon2::hash_encoded(password, salt, &argon2::Config::default())
}

/// A password and salt that Argon2 with the default parameters accepts: a
/// salt of at least 8 bytes, and neither longer than `u32::MAX` bytes.
pub open spec fn hash_input_ok(password: Seq<u8>, salt: Seq<u8>) -> bool {
    8 <= salt.len() <= u32::MAX && password.len() <= u32::MAX
}

/// What `argon2::verify_encoded` answers for an encoded hash and a password:
/// whether they match, or none when the hash string cannot be read.
pub uninterp spec fn argon2_verdict(encoded: Seq<char>, password: Seq<u8>) -> Option<bool>;

/// Relies on `argon2::verify_encoded`: it reads the parameters and salt from
/// the encoded hash, hashes the password with them and compares.
#[verifier::external_body]
pub(crate) fn argon2_verify(encoded: &str, password: &[u8]) -> (r: Result<bool, argon2::Error>)
    ensures
        r is Ok <==> argon2_verdict(encoded@, password@) is Some,
        r matches Ok(b) ==> argon2_verdict(encoded@, password@) == Some(b),
{
    argon2::verify_encoded(encoded, password)
}

/// Relies on rand's `thread_rng` and `Rng::fill`: overwrites the bytes with
/// random ones.
#[verifier::external_body]
fn fill_random(buf: &mut Vec<u8>)
    ensures
        final(buf)@.len() == old(buf)@.len(),
{
    rand::Rng::fill(&mut rand::thread_rng(), buf.as_mut_slice())
}

/// The length of a password salt.
pub const SALT_LEN: usize = 32;

/// A fresh random salt.
pub fn random_salt() -> (r: Vec<u8>)
    ensures
        r@.len() == SALT_LEN,
{
    let mut salt: Vec<u8> = Vec::new();
    let mut i: usize = 0;
    while i < SALT_LEN
        invariant
            i <= SALT_LEN,
            salt@.len() == i,
        decreases SALT_LEN - i,
    {
        salt.push(0u8);
        i = i + 1;
    }
    fill_random(&mut salt);
    salt
}

} // verus!
