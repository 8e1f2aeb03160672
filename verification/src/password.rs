//! Password hashing and checking, done by the `password_auth` crate.

use vstd::prelude::*;

use crate::text::byte_len;

verus! {

/// Whether `password_auth::verify_password` accepts a password against a
/// stored password hash (the hash parses and the password verifies).
pub uninterp spec fn password_matches_hash(password: Seq<char>, hash: Seq<char>) -> bool;

/// `password_auth::verify_password`: whether the password verifies against
/// the hash. The contract names the outcome `password_matches_hash`; how the
/// hash is parsed and checked is left unstated.
#[verifier::external_body]
pub(crate) fn verify_password(password: &str, hash: &str) -> (r: bool)
    ensures
        r == password_matches_hash(password@, hash@),
{
    password_auth::verify_password(password, hash).is_ok()
}

/// `password_auth::generate_hash`: a fresh hash of the password under a random
/// salt. The contract states that `verify_password` accepts the password
/// against the new hash; the hash text itself depends on the salt and is left
/// unstated. Passwords over 0xFFFF_FFFF bytes, which Argon2 refuses (the call
/// would panic), are excluded.
#[verifier::external_body]
pub(crate) fn generate_hash(password: &str) -> (r: String)
    requires
        byte_len(password@) <= 0xFFFF_FFFF,
    ensures
        password_matches_hash(password@, r@),
{
    password_auth::generate_hash(password)
}

} // verus!
