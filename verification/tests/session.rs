use service::action::session::{session_found, session_id, session_token};
use service::crypto::token::sign;
use service::error::ServiceError;

#[test]
fn session_token_matches_signed_id_bytes() {
    assert_eq!(session_token(1, "session-secret"), "QVFBQUFBLlhRWldhWEtmTXNOcHhIY0VQT0c3VDJvd3I2TXRVUkpjUGxvUWhuNlc2WUU");
    assert_eq!(session_token(-2, "k"), "X3ZfX193LkdYbktlRVg4S2h2aUFUNnVtSXdTMjhUdFdoZzNVdjJ0OFBoQUN3VWdFeGs");
}

#[test]
fn session_id_reads_back_the_id() {
    for id in [0, 1, 42, -2, i32::MAX, i32::MIN] {
        let token = session_token(id, "secret");
        assert_eq!(session_id(&token, "secret"), Ok(id));
    }
}

#[test]
fn session_id_rejects_bad_tokens() {
    let token = session_token(5, "secret");
    assert_eq!(session_id(&token, "other"), Err(ServiceError::NoSession));
    assert_eq!(session_id("garbage", "secret"), Err(ServiceError::NoSession));
    let three_bytes = sign(b"abc", "secret");
    assert_eq!(session_id(&three_bytes, "secret"), Err(ServiceError::NoSession));
}

#[test]
fn session_lookups_map_absence_to_no_session() {
    assert_eq!(session_found(Some(3)), Ok(3));
    assert_eq!(session_found::<i32>(None), Err(ServiceError::NoSession));
}
