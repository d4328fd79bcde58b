//! Authentication: Argon2id password hashes, random session tokens of
//! which only the SHA-256 digest is stored, session expiry and the checks
//! of a login and of a session.

use vstd::prelude::*;
use crate::errors::{DomainError, validation, is_validation_err};
use crate::ids::hex_char;
use crate::duration::Moment;
use crate::requests::utf8_len;
use argon2::password_hash::{PasswordHasher, PasswordVerifier};
use sha2::Digest;
use rand::RngCore;

verus! {

/// Name of the session cookie.
pub const SESSION_COOKIE: &'static str = "atolye_session";

/// Whether the PHC string `hash` is an Argon2 hash of `password`: argon2's
/// `Argon2::default().verify_password` on the parsed string (false when it
/// does not parse). A function of the two texts alone.
pub uninterp spec fn argon2_accepts(hash: Seq<char>, password: Seq<char>) -> bool;

/// SHA-256 digest of the UTF-8 bytes of a text (sha2 `Sha256::digest`).
pub uninterp spec fn sha256_text(s: Seq<char>) -> Seq<u8>;

/// Whether password-hash's `SaltString::from_b64` accepts `s` and its B64
/// text then decodes to at least 8 bytes, the shortest salt argon2 takes.
pub uninterp spec fn salt_valid(s: Seq<char>) -> bool;

/// A fresh random salt as B64 text: password-hash `SaltString::generate`
/// with the operating system's generator, which encodes 16 random bytes
/// (22 characters, accepted again by `from_b64`). Claimed: the text is a
/// valid salt. Which text comes out is not stated.
#[verifier::external_body]
fn new_salt() -> (r: String)
    ensures
        salt_valid(r@),
{
    let salt = argon2::password_hash::SaltString::generate(&mut argon2::password_hash::rand_core::OsRng);
    salt.as_str().to_string()
}

/// argon2 `Argon2::default().hash_password` with the salt read from its B64
/// text by `SaltString::from_b64`, as a PHC string (`None` when the salt is
/// refused or hashing fails). Claimed: the string starts with `$argon2`
/// (the algorithm identifier) and verifies against the same password, as
/// `verify_password` recomputes the hash from the parameters and salt that
/// the string records; and hashing succeeds for a valid salt and a password
/// of at most `u32::MAX` bytes, the only inputs that argon2's
/// `verify_inputs` checks under the default parameters. Which string comes
/// out depends on the salt and is not stated.
#[verifier::external_body]
fn argon2_hash(password: &str, salt: &str) -> (r: Option<String>)
    ensures
        r matches Some(h) ==> h@.len() >= 7 && h@.subrange(0, 7) == "$argon2"@ && argon2_accepts(h@, password@),
        salt_valid(salt@) && utf8_len(password@) <= 0xFFFF_FFFF ==> r is Some,
{
    let parsed = match argon2::password_hash::SaltString::from_b64(salt) {
        Ok(s) => s,
        Err(_) => return None,
    };
    match argon2::Argon2::default().hash_password(password.as_bytes(), &parsed) {
        Ok(h) => Some(h.to_string()),
        Err(_) => None,
    }
}

/// argon2 `Argon2::default().verify_password` on the PHC string `hash`
/// parsed by `PasswordHash::new`; a string that does not parse verifies
/// nothing. Claimed besides the name: `PasswordHash::parse` refuses an
/// empty string and one whose first field (before the first `$`) is not
/// empty, so such a hash accepts no password.
#[verifier::external_body]
fn argon2_verify(hash: &str, password: &str) -> (r: bool)
    ensures
        r == argon2_accepts(hash@, password@),
        hash@.len() == 0 || hash@[0] != '$' ==> !r,
{
    match argon2::password_hash::PasswordHash::new(hash) {
        Ok(parsed) => argon2::Argon2::default().verify_password(password.as_bytes(), &parsed).is_ok(),
        Err(_) => false,
    }
}

/// sha2 `Sha256::digest` of the UTF-8 bytes of `s`: 32 bytes.
#[verifier::external_body]
fn sha256_digest(s: &str) -> (r: Vec<u8>)
    ensures
        r@ == sha256_text(s@),
        r@.len() == 32,
{
    sha2::Sha256::digest(s.as_bytes()).to_vec()
}

/// 32 random bytes from rand's thread generator (`RngCore::fill_bytes`).
/// Nothing is stated of the bytes.
#[verifier::external_body]
fn random_bytes() -> (r: Vec<u8>)
    ensures
        r@.len() == 32,
{
    let mut bytes = [0u8; 32];
    rand::thread_rng().fill_bytes(&mut bytes);
    bytes.to_vec()
}

/// Lower-case hexadecimal text of bytes, two digits per byte, high nibble
/// first.
pub open spec fn hex_text(bytes: Seq<u8>) -> Seq<char>
    decreases bytes.len(),
{
    if bytes.len() == 0 {
        Seq::empty()
    } else {
        hex_text(bytes.drop_last()) + seq![hex_char((bytes.last() / 16) as int), hex_char((bytes.last() % 16) as int)]
    }
}

/// hex `encode`: the lower-case hexadecimal text of the bytes.
#[verifier::external_body]
fn hex_encode(bytes: &[u8]) -> (r: String)
    ensures
        r@ == hex_text(bytes@),
{
    hex::encode(bytes)
}

proof fn lemma_hex_len(bytes: Seq<u8>)
    ensures
        hex_text(bytes).len() == 2 * bytes.len(),
    decreases bytes.len(),
{
    if bytes.len() > 0 {
        lemma_hex_len(bytes.drop_last());
    }
}

/// Hashes a password with Argon2id under a fresh random salt. The hash
/// verifies against the same password; hashing fails only for a password
/// longer than `u32::MAX` bytes.
pub fn hash_password(password: &str) -> (r: Result<String, DomainError>)
    ensures
        utf8_len(password@) <= 0xFFFF_FFFF ==> r is Ok,
        r matches Ok(h) ==> h@.len() >= 7 && h@.subrange(0, 7) == "$argon2"@ && argon2_accepts(h@, password@),
        r is Err ==> is_validation_err(r, "Şifre hash'lenemedi"@),
{
    let salt = new_salt();
    match argon2_hash(password, salt.as_str()) {
        Some(h) => Ok(h),
        None => Err(validation("Şifre hash'lenemedi")),
    }
}

/// Whether `password` matches the stored `hash`; a malformed hash matches
/// nothing.
pub fn verify_password(hash: &str, password: &str) -> (r: bool)
    ensures
        r == argon2_accepts(hash@, password@),
        hash@.len() == 0 || hash@[0] != '$' ==> !r,
{
    argon2_verify(hash, password)
}

/// A fresh session token: 32 random bytes as 64 lower-case hexadecimal
/// digits.
pub fn generate_token() -> (r: String)
    ensures
        exists|bytes: Seq<u8>| bytes.len() == 32 && r@ == hex_text(bytes),
        r@.len() == 64,
{
    let bytes = random_bytes();
    proof {
        lemma_hex_len(bytes@);
    }
    hex_encode(bytes.as_slice())
}

/// What is stored of a session token: its SHA-256 digest in hexadecimal.
pub fn hash_token(token: &str) -> (r: String)
    ensures
        r@ == hex_text(sha256_text(token@)),
        r@.len() == 64,
{
    let d = sha256_digest(token);
    proof {
        lemma_hex_len(d@);
    }
    hex_encode(d.as_slice())
}

/// A login succeeds for an active user whose stored hash accepts the
/// password; every refusal reads the same, so nothing tells which part
/// failed.
pub fn check_login(active: bool, password_hash: &str, password: &str) -> (r: Result<(), DomainError>)
    ensures
        r is Ok <==> (active && argon2_accepts(password_hash@, password@)),
        password_hash@.len() == 0 || password_hash@[0] != '$' ==> r is Err,
        r is Err ==> r == Err::<(), DomainError>(DomainError::InvalidCredentials),
{
    if !active {
        return Err(DomainError::InvalidCredentials);
    }
    if !verify_password(password_hash, password) {
        return Err(DomainError::InvalidCredentials);
    }
    Ok(())
}

/// A valid session authenticates its user only while the user is active.
pub fn check_session_user(active: bool) -> (r: Result<(), DomainError>)
    ensures
        r is Ok <==> active,
        r is Err ==> r == Err::<(), DomainError>(DomainError::SessionExpired),
{
    if !active {
        return Err(DomainError::SessionExpired);
    }
    Ok(())
}

/// The expiry of a session opened at `now` for `ttl_hours` hours.
pub fn session_expiry(now: Moment, ttl_hours: i64) -> (r: Moment)
    requires
        i64::MIN <= now.secs + ttl_hours * 3600 <= i64::MAX,
        -2562047788015215 <= ttl_hours <= 2562047788015215,
    ensures
        r.secs == now.secs + ttl_hours * 3600,
        r.nanos == now.nanos,
{
    Moment { secs: now.secs + ttl_hours * 3600, nanos: now.nanos }
}

} // verus!
