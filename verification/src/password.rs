//! Password hashing, done by bcrypt.

use vstd::prelude::*;

verus! {

/// `bcrypt::BcryptError`, handed on unopened.
#[verifier::external_type_specification]
#[verifier::external_body]
pub struct ExBcryptError(bcrypt::BcryptError);

/// What `bcrypt::verify` answers for a password and a stored hash: whether
/// they match, or nothing where the hash cannot be read.
pub uninterp spec fn bcrypt_verdict(password: Seq<char>, hash: Seq<char>) -> Option<bool>;

/// Hashes a password with `bcrypt::hash` at the default cost and a random salt.
///
/// Trusted: a hash that comes back has sixty characters, and `bcrypt::verify`
/// accepts the same password against it: verifying reads cost and salt out
/// of the hash and computes the hash again.
#[verifier::external_body]
pub(crate) fn bcrypt_hash(password: &str) -> (r: Result<String, bcrypt::BcryptError>)
    ensures
        r matches Ok(hash) ==> hash@.len() == 60 && bcrypt_verdict(password@, hash@) == Some(true),
{
    bcrypt::hash(password, bcrypt::DEFAULT_COST)
}

/// Checks a password against a stored hash with `bcrypt::verify`.
///
/// Trusted: the answer depends on the two texts alone.
#[verifier::external_body]
pub(crate) fn bcrypt_verify(password: &str, hash: &str) -> (r: Result<bool, bcrypt::BcryptError>)
    ensures
        match r {
            Ok(matches) => bcrypt_verdict(password@, hash@) == Some(matches),
            Err(_) => bcrypt_verdict(password@, hash@) is None,
        },
{
    bcrypt::verify(password, hash)
}

/// Hashes a password under a fresh salt; `None` where no hash could be made.
/// The hash accepts the password it was made from.
pub fn hash_password(password: &str) -> (hash: Option<String>)
    ensures
        hash matches Some(text) ==> text@.len() == 60 && bcrypt_verdict(password@, text@) == Some(
            true,
        ),
{
    match bcrypt_hash(password) {
        Ok(text) => Some(text),
        Err(_) => None,
    }
}

/// Checks a password against a stored hash; `None` where the hash cannot be read.
pub fn check_password(password: &str, hash: &str) -> (verdict: Option<bool>)
    ensures
        verdict == bcrypt_verdict(password@, hash@),
{
    match bcrypt_verify(password, hash) {
        Ok(matches) => Some(matches),
        Err(_) => None,
    }
}

/// A self-check of the hashing: whether a password, hashed now, is accepted
/// against its own hash; `None` where no hash could be made.
pub fn round_trip(password: &str) -> (accepted: Option<bool>)
    ensures
        accepted is Some ==> accepted == Some(true),
{
    match hash_password(password) {
        Some(hash) => check_password(password, hash.as_str()),
        None => None,
    }
}

} // verus!
