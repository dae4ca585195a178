//! Peppered Argon2 password hashes in PHC string format.

use argon2::password_hash::rand_core::OsRng;
use argon2::password_hash::{PasswordHash, PasswordHasher, PasswordVerifier, SaltString};
use vstd::prelude::*;
use vstd::string::StringSliceAdditionalSpecFns;

verus! {

/// Whether `PasswordHash::new` of the password-hash crate accepts `hash` as a PHC string.
pub uninterp spec fn phc_well_formed(hash: Seq<char>) -> bool;

/// Whether Argon2 (default algorithm, version and parameters) with secret
/// `pepper` accepts `password` against the PHC string `hash`, as
/// `verify_password` of the argon2 crate decides it.
pub uninterp spec fn argon2_accepts(pepper: Seq<u8>, password: Seq<u8>, hash: Seq<char>) -> bool;

/// How every hash that `hash` produces begins: Argon2id, version 19 and the
/// default parameters (19 MiB of memory, two passes, one lane).
pub const ARGON2_DEFAULT_PREFIX: &'static str = "$argon2id$v=19$m=19456,t=2,p=1$";

/// `hash` is a PHC string for Argon2id, version 19, default parameters.
pub open spec fn has_default_prefix(hash: Seq<char>) -> bool {
    &&& ARGON2_DEFAULT_PREFIX@.len() <= hash.len()
    &&& hash.subrange(0, ARGON2_DEFAULT_PREFIX@.len() as int) == ARGON2_DEFAULT_PREFIX@
}

/// The longest secret and password that Argon2 takes.
pub const MAX_INPUT_LEN: usize = 0xFFFF_FFFF;

/// Hashes `password` with `Argon2::new_with_secret(pepper, ..)` (default
/// algorithm, version and parameters) and a fresh salt from
/// `SaltString::generate(&mut OsRng)`, then formats it as a PHC string.
/// Trusted: whatever salt was drawn, the string begins with the algorithm,
/// version and default parameters, parses, and Argon2 with the same pepper
/// accepts the same password against it. The salt and hash parts depend on
/// the random salt and are left unsaid.
#[verifier::external_body]
fn argon2_hash_fresh_salt(pepper: &[u8], password: &[u8]) -> (hash: String)
    requires
        pepper@.len() <= MAX_INPUT_LEN,
        password@.len() <= MAX_INPUT_LEN,
    ensures
        has_default_prefix(hash@),
        phc_well_formed(hash@),
        argon2_accepts(pepper@, password@, hash@),
{
    let salt = SaltString::generate(&mut OsRng);
    let argon2 = argon2::Argon2::new_with_secret(pepper, Default::default(), Default::default(), Default::default()).unwrap();
    argon2.hash_password(password, &salt).unwrap().to_string()
}

/// Parses `hash` with `PasswordHash::new` of the password-hash crate.
/// Trusted: the answer is whether it parses.
#[verifier::external_body]
fn parses_as_phc(hash: &str) -> (ok: bool)
    ensures
        ok == phc_well_formed(hash@),
{
    PasswordHash::new(hash).is_ok()
}

/// Checks `password` against the PHC string `hash` with `verify_password` of
/// `Argon2::new_with_secret(pepper, ..)` (default algorithm, version and
/// parameters). Trusted: the answer is the named decision, and Argon2
/// refuses any password longer than it takes (its hashing reports
/// `PwdTooLong`, which `verify_password` turns into an error).
#[verifier::external_body]
fn argon2_check(pepper: &[u8], password: &[u8], hash: &str) -> (ok: bool)
    requires
        pepper@.len() <= MAX_INPUT_LEN,
        phc_well_formed(hash@),
    ensures
        ok == argon2_accepts(pepper@, password@, hash@),
        ok ==> password@.len() <= MAX_INPUT_LEN,
{
    let hash = PasswordHash::new(hash).unwrap();
    let argon2 = argon2::Argon2::new_with_secret(pepper, Default::default(), Default::default(), Default::default()).unwrap();
    argon2.verify_password(password, &hash).is_ok()
}

/// Hashes `password` with a fresh random salt and `pepper` as Argon2 secret.
/// Whatever the salt, `verify` with the same pepper accepts the password
/// against the result.
pub fn hash(password: &str, pepper: &str) -> (hash: String)
    requires
        pepper.spec_bytes().len() <= MAX_INPUT_LEN,
        password.spec_bytes().len() <= MAX_INPUT_LEN,
    ensures
        has_default_prefix(hash@),
        phc_well_formed(hash@),
        argon2_accepts(pepper.spec_bytes(), password.spec_bytes(), hash@),
{
    argon2_hash_fresh_salt(pepper.as_bytes(), password.as_bytes())
}

/// Whether `password` matches the PHC string `hash` under `pepper`; a
/// password longer than Argon2 takes never matches.
pub fn verify(password: &str, hash: &str, pepper: &str) -> (ok: bool)
    requires
        pepper.spec_bytes().len() <= MAX_INPUT_LEN,
        phc_well_formed(hash@),
    ensures
        ok == argon2_accepts(pepper.spec_bytes(), password.spec_bytes(), hash@),
        ok ==> password.spec_bytes().len() <= MAX_INPUT_LEN,
{
    argon2_check(pepper.as_bytes(), password.as_bytes(), hash)
}

/// Like `verify`, for a stored hash that may not be a PHC string at all:
/// `None` when it is not.
pub fn try_verify(password: &str, hash: &str, pepper: &str) -> (ok: Option<bool>)
    requires
        pepper.spec_bytes().len() <= MAX_INPUT_LEN,
    ensures
        ok is None <==> !phc_well_formed(hash@),
        ok matches Some(b) ==> b == argon2_accepts(pepper.spec_bytes(), password.spec_bytes(), hash@),
        ok == Some(true) ==> password.spec_bytes().len() <= MAX_INPUT_LEN,
{
    if parses_as_phc(hash) {
        Some(verify(password, hash, pepper))
    } else {
        None
    }
}

} // verus!
