//! Password hashing and verification, through the pbkdf2 crate.
//!
//! A stored credential is a self-describing PHC string (algorithm tag,
//! parameters, salt and digest). Hashing salts the password with fresh
//! randomness, so its output cannot be predicted; verification, by contrast,
//! re-derives the digest from the supplied password and the parameters and
//! salt carried inside the PHC string, so it is a pure function of the two
//! texts. That pure function is named [`password_matches`], and both wrappers
//! speak of it.

use pbkdf2::password_hash::{PasswordHash, PasswordHasher, PasswordVerifier, SaltString};
use pbkdf2::Pbkdf2;
use rand_core::OsRng;
use vstd::prelude::*;

verus! {

/// Whether `password` matches the PHC-encoded credential `phc`: the digest
/// re-derived from `password` under the parameters and salt carried in `phc`
/// equals the digest stored in `phc`.
pub uninterp spec fn password_matches(password: Seq<char>, phc: Seq<char>) -> bool;

/// Relies on password-hash's `SaltString::generate` and pbkdf2's
/// `Pbkdf2::hash_password`: on success the returned PHC string carries the
/// algorithm, parameters, fresh salt and digest of `password`, so verifying
/// the same password against it succeeds. The salt is random, so nothing more
/// is promised of the returned text; failure is the hash primitive's own
/// error.
#[verifier::external_body]
pub(crate) fn hash_password(password: &str) -> (result: Result<String, ()>)
    ensures
        result matches Ok(phc) ==> password_matches(password@, phc@),
{
    let salt = SaltString::generate(&mut OsRng);
    match Pbkdf2.hash_password(password.as_bytes(), &salt) {
        Ok(hash) => Ok(hash.to_string()),
        Err(_) => Err(()),
    }
}

/// Relies on password-hash's `PasswordHash::new` and pbkdf2's
/// `Pbkdf2::verify_password`: parsing the PHC string and re-deriving the
/// digest from `password` is deterministic in the two arguments, and the
/// comparison against the stored digest is constant-time. A text that does
/// not parse as a PHC string matches no password.
#[verifier::external_body]
pub(crate) fn verify_password(password: &str, phc: &str) -> (matched: bool)
    ensures
        matched == password_matches(password@, phc@),
{
    match PasswordHash::new(phc) {
        Ok(parsed) => Pbkdf2.verify_password(password.as_bytes(), &parsed).is_ok(),
        Err(_) => false,
    }
}

} // verus!
