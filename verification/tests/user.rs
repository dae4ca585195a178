use service::action::user::{
    check_password, insert_user_error, login_credentials, login_outcome, login_user, new_password_auth,
    validation_pepper, PasswordCheck,
};
use service::crypto::password::verify;
use service::entity::PasswordAuth;
use service::error::ServiceError;

#[test]
fn insert_error_maps_unique_violation() {
    assert_eq!(insert_user_error(true), ServiceError::UsernameTaken);
    assert_eq!(insert_user_error(false), ServiceError::Database);
}

#[test]
fn new_credentials_hold_the_password() {
    let auth = new_password_auth(7, "correct horse", "pepper");
    assert_eq!(auth.user_id, 7);
    assert!(!auth.queue_rehash);
    assert!(verify("correct horse", &auth.hash, "pepper"));
}

#[test]
fn validation_pepper_choice() {
    assert_eq!(validation_pepper(false, "new", Some("old")), "new");
    assert_eq!(validation_pepper(true, "new", Some("old")), "old");
    assert_eq!(validation_pepper(true, "new", None), "new");
    assert_eq!(validation_pepper(false, "new", None), "new");
}

#[test]
fn login_with_current_credentials_is_accepted() {
    let auth = new_password_auth(1, "pw", "pepper");
    assert_eq!(check_password("pw", &auth, "pepper", None), PasswordCheck::Accepted);
    assert!(matches!(check_password("pw", &auth, "pepper", Some("old")), PasswordCheck::Accepted));
}

#[test]
fn login_with_wrong_password_is_rejected() {
    let auth = new_password_auth(1, "pw", "pepper");
    assert!(matches!(check_password("wrong", &auth, "pepper", None), PasswordCheck::Rejected));
}

#[test]
fn login_with_unreadable_hash() {
    let auth = PasswordAuth { user_id: 1, hash: "garbage".to_string(), queue_rehash: false };
    assert!(matches!(check_password("pw", &auth, "pepper", None), PasswordCheck::Unreadable));
}

#[test]
fn queued_rehash_checks_old_pepper_and_rehashes() {
    let mut auth = new_password_auth(3, "pw", "old");
    auth.queue_rehash = true;
    assert_eq!(check_password("pw", &auth, "new", Some("old")), PasswordCheck::AcceptedNeedsRehash);
    assert_eq!(check_password("wrong", &auth, "new", Some("old")), PasswordCheck::Rejected);
    assert_eq!(check_password("pw", &auth, "new", None), PasswordCheck::Rejected);
    let replacement = new_password_auth(auth.user_id, "pw", "new");
    assert_eq!(replacement.user_id, 3);
    assert!(!replacement.queue_rehash);
    assert_eq!(check_password("pw", &replacement, "new", Some("old")), PasswordCheck::Accepted);
}

#[test]
fn unknown_user_and_wrong_password_give_same_error() {
    let auth = new_password_auth(1, "pw", "pepper");
    let wrong = login_outcome(check_password("nope", &auth, "pepper", None));
    let unknown = login_user::<i32>(None);
    assert_eq!(wrong, Err(ServiceError::InvalidLogin));
    assert_eq!(unknown, Err(ServiceError::InvalidLogin));
}

#[test]
fn login_lookups_map_absence_to_errors() {
    assert_eq!(login_user(Some(5)), Ok(5));
    assert_eq!(login_user::<i32>(None), Err(ServiceError::InvalidLogin));
    assert_eq!(login_credentials(Some("auth")), Ok("auth"));
    assert_eq!(login_credentials::<&str>(None), Err(ServiceError::UnavailableLogin));
}

#[test]
fn login_outcome_maps_checks() {
    assert_eq!(login_outcome(PasswordCheck::Accepted), Ok(false));
    assert_eq!(login_outcome(PasswordCheck::AcceptedNeedsRehash), Ok(true));
    assert_eq!(login_outcome(PasswordCheck::Rejected), Err(ServiceError::InvalidLogin));
}
