//! Password hashing: bcrypt at its default cost.

use vstd::prelude::*;
use crate::text::starts_with;

verus! {

/// The error of the `bcrypt` crate, carried through and never looked into.
#[verifier::external_type_specification]
#[verifier::external_body]
pub struct ExBcryptError(bcrypt::BcryptError);

/// What `bcrypt::verify(password, digest)` returns: whether the digest is one
/// of `password`, or `None` where the digest is malformed.
pub uninterp spec fn bcrypt_verdict(password: Seq<char>, digest: Seq<char>) -> Option<bool>;

/// How every digest made here begins: the version of the scheme and the
/// cost, 12, that the hashing was done at.
pub open spec fn cost_marker() -> Seq<char> {
    seq!['$', '2', 'b', '$', '1', '2', '$']
}

/// Calls `bcrypt::hash` with `bcrypt::DEFAULT_COST`, which is 12. The salt is
/// random, so the digest has no name. Whatever digest comes back, it begins
/// with the version `2b` and the cost, as `HashParts::format` writes them,
/// and `bcrypt::verify` accepts the same password against it, since it
/// repeats the hashing with the cost and salt that the digest carries.
#[verifier::external_body]
fn bcrypt_hash(password: &str) -> (digest: Result<String, bcrypt::BcryptError>)
    ensures
        digest matches Ok(d) ==> bcrypt_verdict(password@, d@) == Some(true),
        digest matches Ok(d) ==> starts_with(d@, cost_marker()),
{
    bcrypt::hash(password, bcrypt::DEFAULT_COST)
}

/// Calls `bcrypt::verify`, which hashes `password` again with the cost and
/// salt found in `digest` and compares in constant time. It depends on its
/// arguments alone and returns an error, without panicking, on a digest that
/// it cannot take apart.
#[verifier::external_body]
fn bcrypt_verify(password: &str, digest: &str) -> (verdict: Result<bool, bcrypt::BcryptError>)
    ensures
        match verdict {
            Ok(same) => bcrypt_verdict(password@, digest@) == Some(same),
            Err(_) => bcrypt_verdict(password@, digest@) is None,
        },
{
    bcrypt::verify(password, digest)
}

/// Whether `digest` is a well-formed digest of `password`.
pub open spec fn password_matches(password: Seq<char>, digest: Seq<char>) -> bool {
    granted_by(bcrypt_verdict(password, digest))
}

/// Whether a verdict of the hasher lets the password through: a malformed
/// digest counts as a mismatch.
pub open spec fn granted_by(verdict: Option<bool>) -> bool {
    verdict == Some(true)
}

/// Decides on a verdict of the hasher; `None` stands for a digest that it
/// could not read.
pub fn granted(verdict: Option<bool>) -> (ok: bool)
    ensures
        ok == granted_by(verdict),
{
    match verdict {
        Some(same) => same,
        None => false,
    }
}

/// Hashes `plaintext` at cost 12 with a fresh random salt. Returns `None`
/// where the hasher failed, which it does only where the system gave it no
/// random bytes for the salt; a digest that is returned matches `plaintext`.
pub fn hash(plaintext: &str) -> (digest: Option<String>)
    ensures
        digest matches Some(d) ==> password_matches(plaintext@, d@) && starts_with(
            d@,
            cost_marker(),
        ),
{
    digest_from(bcrypt_hash(plaintext))
}

/// The digest that an outcome of the hasher holds, if it holds one.
pub open spec fn digest_in(outcome: Result<String, bcrypt::BcryptError>) -> Option<String> {
    match outcome {
        Ok(digest) => Some(digest),
        Err(_) => None,
    }
}

/// Takes the digest out of an outcome of the hasher; its error, whatever it
/// is, leaves none.
pub fn digest_from(outcome: Result<String, bcrypt::BcryptError>) -> (digest: Option<String>)
    ensures
        digest == digest_in(outcome),
{
    match outcome {
        Ok(d) => Some(d),
        Err(_) => None,
    }
}

/// Checks `plaintext` against `digest`. A malformed digest gives `false`.
pub fn verify(plaintext: &str, digest: &str) -> (ok: bool)
    ensures
        ok == password_matches(plaintext@, digest@),
{
    let verdict = match bcrypt_verify(plaintext, digest) {
        Ok(same) => Some(same),
        Err(_) => None,
    };
    granted(verdict)
}

} // verus!
