//! Password hashing, done by the `bcrypt` crate.

use vstd::prelude::*;

verus! {

/// `bcrypt::BcryptError`, the error of both calls: carried as it comes and
/// never looked into.
#[verifier::external_type_specification]
#[verifier::external_body]
pub struct ExBcryptError(bcrypt::BcryptError);

/// The answer of `bcrypt::verify` for a password and a stored hash:
/// `Some(b)` where it returns `Ok(b)`, `None` where it returns an error.
pub uninterp spec fn bcrypt_verdict(password: Seq<char>, hash: Seq<char>) -> Option<bool>;

/// A result of `bcrypt::verify` without its error value.
pub open spec fn verdict_of(r: Result<bool, bcrypt::BcryptError>) -> Option<bool> {
    match r {
        Ok(b) => Some(b),
        Err(_) => None,
    }
}

/// Calls `bcrypt::hash` with the crate's `DEFAULT_COST`. The salt is random,
/// so nothing is said of the text of the hash; what is assumed is that
/// `bcrypt::verify` accepts the same password against whatever hash comes
/// back, since it recomputes the digest from the salt and cost stored in it.
#[verifier::external_body]
pub(crate) fn bcrypt_hash(password: &str) -> (r: Result<String, bcrypt::BcryptError>)
    ensures
        r matches Ok(h) ==> bcrypt_verdict(password@, h@) == Some(true),
{
    bcrypt::hash(password, bcrypt::DEFAULT_COST)
}

/// Calls `bcrypt::verify`, which depends on its two arguments alone: the
/// contract gives its answer the name `bcrypt_verdict`.
#[verifier::external_body]
pub(crate) fn bcrypt_verify(password: &str, hash: &str) -> (r: Result<bool, bcrypt::BcryptError>)
    ensures
        verdict_of(r) == bcrypt_verdict(password@, hash@),
{
    bcrypt::verify(password, hash)
}

/// The `Display` text of a `bcrypt::BcryptError`. Nothing is assumed of it.
#[verifier::external_body]
pub(crate) fn bcrypt_error_text(err: &bcrypt::BcryptError) -> (text: String) {
    format!("{}", err)
}

} // verus!
