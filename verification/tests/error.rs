use service::error::{ServiceError, SvcErr, SvcResult};

#[test]
fn status_codes() {
    assert_eq!(ServiceError::UsernameTaken.status_code(), 409);
    assert_eq!(ServiceError::InvalidLogin.status_code(), 401);
    assert_eq!(ServiceError::UnavailableLogin.status_code(), 400);
    assert_eq!(ServiceError::NoSession.status_code(), 401);
    assert_eq!(ServiceError::Database.status_code(), 500);
}

#[test]
fn aliases() {
    let r: SvcResult<u8> = Err(SvcErr::NoSession);
    assert_eq!(r, Err(ServiceError::NoSession));
}
