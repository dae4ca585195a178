use vstd::prelude::*;
use vstd::string::StringSliceAdditionalSpecFns;

use crate::crypto::password::{self, argon2_accepts, has_default_prefix, phc_well_formed, MAX_INPUT_LEN};
use crate::entity::PasswordAuth;
use crate::error::ServiceError;

verus! {

/// The error for a failed insertion of a new user: the username is taken
/// where the database reports a unique-key violation, else a database error.
pub fn insert_user_error(unique_violation: bool) -> (e: ServiceError)
    ensures
        e == if unique_violation {
            ServiceError::UsernameTaken
        } else {
            ServiceError::Database
        },
{
    if unique_violation {
        ServiceError::UsernameTaken
    } else {
        ServiceError::Database
    }
}

/// The password credentials of a new user: the password hashed under the
/// current pepper, with no rehash queued.
pub fn new_password_auth(user_id: i32, password: &str, pepper: &str) -> (auth: PasswordAuth)
    requires
        pepper.spec_bytes().len() <= MAX_INPUT_LEN,
        password.spec_bytes().len() <= MAX_INPUT_LEN,
    ensures
        auth.user_id == user_id,
        !auth.queue_rehash,
        has_default_prefix(auth.hash@),
        phc_well_formed(auth.hash@),
        argon2_accepts(pepper.spec_bytes(), password.spec_bytes(), auth.hash@),
{
    PasswordAuth { user_id, hash: password::hash(password, pepper), queue_rehash: false }
}

/// The pepper that a stored hash is checked with: while a rehash is queued
/// the previous pepper (the current one where none is configured), else the
/// current one.
pub open spec fn spec_validation_pepper<'a>(queue_rehash: bool, pepper: &'a str, prev_pepper: Option<&'a str>) -> &'a str {
    if queue_rehash {
        match prev_pepper {
            Some(prev) => prev,
            None => pepper,
        }
    } else {
        pepper
    }
}

/// The pepper that a stored hash is checked with.
pub fn validation_pepper<'a>(queue_rehash: bool, pepper: &'a str, prev_pepper: Option<&'a str>) -> (p: &'a str)
    ensures
        p == spec_validation_pepper(queue_rehash, pepper, prev_pepper),
        queue_rehash && prev_pepper is Some ==> p == prev_pepper.unwrap(),
        !(queue_rehash && prev_pepper is Some) ==> p == pepper,
{
    if queue_rehash {
        match prev_pepper {
            Some(prev) => prev,
            None => pepper,
        }
    } else {
        pepper
    }
}

/// What a login check decides.
#[derive(Clone, Copy, Debug, PartialEq, Eq, Structural)]
pub enum PasswordCheck {
    /// The password matches; nothing to store.
    Accepted,
    /// The password matches; it must be hashed again with the current pepper
    /// and stored in place of the old hash.
    AcceptedNeedsRehash,
    /// The password does not match (Argon2 refuses it, also where it is
    /// longer than Argon2 takes).
    Rejected,
    /// The stored hash is not a PHC string.
    Unreadable,
}

/// The verdict on `password` against the stored credentials.
pub open spec fn login_verdict(password: Seq<u8>, auth: PasswordAuth, pepper: &str, prev_pepper: Option<&str>) -> PasswordCheck {
    if !phc_well_formed(auth.hash@) {
        PasswordCheck::Unreadable
    } else if !argon2_accepts(spec_validation_pepper(auth.queue_rehash, pepper, prev_pepper).spec_bytes(), password, auth.hash@) {
        PasswordCheck::Rejected
    } else if auth.queue_rehash {
        PasswordCheck::AcceptedNeedsRehash
    } else {
        PasswordCheck::Accepted
    }
}

/// The pepper that a stored hash is checked with is the previous pepper
/// exactly when a rehash is queued and a previous pepper is given, whatever it
/// holds; otherwise it is the current pepper.
pub proof fn lemma_validation_pepper(queue_rehash: bool, pepper: &str, prev_pepper: Option<&str>)
    ensures
        queue_rehash && prev_pepper is Some ==> spec_validation_pepper(queue_rehash, pepper, prev_pepper)
            == prev_pepper.unwrap(),
        !queue_rehash ==> spec_validation_pepper(queue_rehash, pepper, prev_pepper) == pepper,
        prev_pepper is None ==> spec_validation_pepper(queue_rehash, pepper, prev_pepper) == pepper,
{
}

/// How a login verdict follows from the stored credentials, with the
/// checking pepper chosen as a login chooses it (the previous pepper when a
/// rehash is queued and one is given, else the current one): unreadable
/// exactly for a hash that is not a PHC string; rejected exactly when Argon2
/// refuses the password; accepted otherwise, asking for a rehash exactly when
/// one is queued.
pub open spec fn verdict_explained(c: PasswordCheck, password: Seq<u8>, auth: PasswordAuth, pepper: &str, prev_pepper: Option<&str>) -> bool {
    let checked_with = if auth.queue_rehash && prev_pepper is Some {
        prev_pepper.unwrap()
    } else {
        pepper
    };
    let accepted = argon2_accepts(checked_with.spec_bytes(), password, auth.hash@);
    &&& (c is Unreadable <==> !phc_well_formed(auth.hash@))
    &&& (c is Rejected <==> phc_well_formed(auth.hash@) && !accepted)
    &&& (c is AcceptedNeedsRehash <==> phc_well_formed(auth.hash@) && accepted && auth.queue_rehash)
    &&& (c is Accepted <==> phc_well_formed(auth.hash@) && accepted && !auth.queue_rehash)
}

/// Every login verdict follows from the stored credentials as
/// `verdict_explained` says; in particular an accepted password with a
/// queued rehash always asks for the rehash.
pub proof fn lemma_login_verdict(password: Seq<u8>, auth: PasswordAuth, pepper: &str, prev_pepper: Option<&str>)
    ensures
        verdict_explained(login_verdict(password, auth, pepper, prev_pepper), password, auth, pepper, prev_pepper),
        auth.queue_rehash && phc_well_formed(auth.hash@) && argon2_accepts(
            spec_validation_pepper(auth.queue_rehash, pepper, prev_pepper).spec_bytes(),
            password,
            auth.hash@,
        ) ==> login_verdict(password, auth, pepper, prev_pepper) == PasswordCheck::AcceptedNeedsRehash,
{
}

/// Checks `password` against the stored credentials of a user, with the
/// pepper that `validation_pepper` picks; only that pepper is used. An
/// accepted password fits in what Argon2 takes, so it can be hashed again.
pub fn check_password(password: &str, auth: &PasswordAuth, pepper: &str, prev_pepper: Option<&str>) -> (c: PasswordCheck)
    requires
        spec_validation_pepper(auth.queue_rehash, pepper, prev_pepper).spec_bytes().len() <= MAX_INPUT_LEN,
    ensures
        c == login_verdict(password.spec_bytes(), *auth, pepper, prev_pepper),
        (c is Accepted || c is AcceptedNeedsRehash) ==> password.spec_bytes().len() <= MAX_INPUT_LEN,
        verdict_explained(c, password.spec_bytes(), *auth, pepper, prev_pepper),
{
    proof {
        lemma_login_verdict(password.spec_bytes(), *auth, pepper, prev_pepper);
    }
    let checked_with = validation_pepper(auth.queue_rehash, pepper, prev_pepper);
    match password::try_verify(password, auth.hash.as_str(), checked_with) {
        None => PasswordCheck::Unreadable,
        Some(false) => PasswordCheck::Rejected,
        Some(true) => {
            if auth.queue_rehash {
                PasswordCheck::AcceptedNeedsRehash
            } else {
                PasswordCheck::Accepted
            }
        },
    }
}

/// The user that a login names: an unknown username is an invalid login.
pub open spec fn spec_login_user<U>(found: Option<U>) -> Result<U, ServiceError> {
    match found {
        Some(user) => Ok(user),
        None => Err(ServiceError::InvalidLogin),
    }
}

/// The user that a login names: an unknown username is an invalid login.
pub fn login_user<U>(found: Option<U>) -> (r: Result<U, ServiceError>)
    ensures
        r == spec_login_user(found),
        found matches Some(u) ==> r == Ok::<U, ServiceError>(u),
        found is None ==> r == Err::<U, ServiceError>(ServiceError::InvalidLogin),
{
    match found {
        Some(user) => Ok(user),
        None => Err(ServiceError::InvalidLogin),
    }
}

/// The password credentials of that user: a user without them cannot log in
/// with a password.
pub fn login_credentials<A>(found: Option<A>) -> (r: Result<A, ServiceError>)
    ensures
        match found {
            Some(auth) => r == Ok::<A, ServiceError>(auth),
            None => r == Err::<A, ServiceError>(ServiceError::UnavailableLogin),
        },
{
    match found {
        Some(auth) => Ok(auth),
        None => Err(ServiceError::UnavailableLogin),
    }
}

/// What a readable login check means for the caller: success, telling
/// whether the password must be hashed again, or an invalid login.
pub open spec fn spec_login_outcome(check: PasswordCheck) -> Result<bool, ServiceError> {
    match check {
        PasswordCheck::Accepted => Ok(false),
        PasswordCheck::AcceptedNeedsRehash => Ok(true),
        _ => Err(ServiceError::InvalidLogin),
    }
}

/// What a readable login check means for the caller: success, telling
/// whether the password must be hashed again, or an invalid login.
pub fn login_outcome(check: PasswordCheck) -> (r: Result<bool, ServiceError>)
    requires
        !(check is Unreadable),
    ensures
        r == spec_login_outcome(check),
        check is Accepted ==> r == Ok::<bool, ServiceError>(false),
        check is AcceptedNeedsRehash ==> r == Ok::<bool, ServiceError>(true),
        check is Rejected ==> r == Err::<bool, ServiceError>(ServiceError::InvalidLogin),
{
    match check {
        PasswordCheck::Accepted => Ok(false),
        PasswordCheck::AcceptedNeedsRehash => Ok(true),
        PasswordCheck::Rejected => Err(ServiceError::InvalidLogin),
        PasswordCheck::Unreadable => Err(ServiceError::InvalidLogin),
    }
}

/// A login that names no user and a login whose password the stored hash
/// does not accept end in the same error: the answer does not tell whether
/// the username exists.
pub proof fn lemma_unknown_user_like_wrong_password<U>(password: Seq<u8>, auth: PasswordAuth, pepper: &str, prev_pepper: Option<&str>)
    requires
        phc_well_formed(auth.hash@),
        !argon2_accepts(spec_validation_pepper(auth.queue_rehash, pepper, prev_pepper).spec_bytes(), password, auth.hash@),
    ensures
        spec_login_outcome(login_verdict(password, auth, pepper, prev_pepper)) == Err::<bool, ServiceError>(ServiceError::InvalidLogin),
        spec_login_user::<U>(None) == Err::<U, ServiceError>(ServiceError::InvalidLogin),
{
}

/// Credentials stored at sign-up (or after a rehash) under the current
/// pepper pass the next login with that pepper, with nothing to store.
pub proof fn lemma_current_credentials_accepted(password: Seq<u8>, auth: PasswordAuth, pepper: &str, prev_pepper: Option<&str>)
    requires
        !auth.queue_rehash,
        phc_well_formed(auth.hash@),
        argon2_accepts(pepper.spec_bytes(), password, auth.hash@),
    ensures
        login_verdict(password, auth, pepper, prev_pepper) == PasswordCheck::Accepted,
{
}

/// Once a login that needs a rehash stores the password hashed again with
/// the current pepper (as `new_password_auth` makes it), the next login with
/// the same password and pepper is accepted with nothing more to store.
pub proof fn lemma_rehash_settles(
    password: Seq<u8>,
    auth: PasswordAuth,
    replacement: PasswordAuth,
    pepper: &str,
    prev_pepper: Option<&str>,
)
    requires
        login_verdict(password, auth, pepper, prev_pepper) == PasswordCheck::AcceptedNeedsRehash,
        replacement.user_id == auth.user_id,
        !replacement.queue_rehash,
        phc_well_formed(replacement.hash@),
        argon2_accepts(pepper.spec_bytes(), password, replacement.hash@),
    ensures
        login_verdict(password, replacement, pepper, prev_pepper) == PasswordCheck::Accepted,
{
}

} // verus!
