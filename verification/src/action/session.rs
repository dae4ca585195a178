use vstd::bytes::{spec_u32_from_le_bytes, spec_u32_to_le_bytes, u32_from_le_bytes, u32_to_le_bytes};
use vstd::prelude::*;
use vstd::string::StringSliceAdditionalSpecFns;
use vstd::utf8::encode_utf8;

use crate::crypto::token::{self, spec_sign, spec_verify};
use crate::error::ServiceError;

verus! {

/// The little-endian bytes of a session id, as `i32::to_le_bytes` gives them.
pub open spec fn id_bytes(id: i32) -> Seq<u8> {
    spec_u32_to_le_bytes(id as u32)
}

/// The session id that a token (its UTF-8 bytes) carries under `secret`:
/// the signed data must verify and be exactly four bytes.
pub open spec fn spec_session_id(token: Seq<u8>, secret: Seq<u8>) -> Result<i32, ServiceError> {
    match spec_verify(token, secret) {
        Some(bytes) => if bytes.len() == 4 {
            Ok(spec_u32_from_le_bytes(bytes) as i32)
        } else {
            Err(ServiceError::NoSession)
        },
        None => Err(ServiceError::NoSession),
    }
}

/// The token that identifies session `id` to its holder.
pub fn session_token(id: i32, secret: &str) -> (t: String)
    ensures
        t@ == spec_sign(id_bytes(id), secret.spec_bytes()),
        spec_session_id(encode_utf8(t@), secret.spec_bytes()) == Ok::<i32, ServiceError>(id),
{
    proof {
        vstd::bytes::lemma_auto_spec_u32_to_from_le_bytes();
        assert((id as u32) as i32 == id) by (bit_vector);
    }
    let bytes = u32_to_le_bytes(id as u32);
    assert(token::token_len(4) <= usize::MAX);
    token::sign(bytes.as_slice(), secret)
}

/// The id of the session that a token stands for; no session where the token
/// does not verify or does not carry exactly four bytes.
pub fn session_id(token: &str, secret: &str) -> (r: Result<i32, ServiceError>)
    ensures
        r == spec_session_id(token.spec_bytes(), secret.spec_bytes()),
        r matches Ok(id) ==> spec_verify(token.spec_bytes(), secret.spec_bytes()) == Some(id_bytes(id)),
        r matches Err(e) ==> e == ServiceError::NoSession,
        (spec_verify(token.spec_bytes(), secret.spec_bytes()) matches Some(b) && b.len() == 4) ==> r is Ok,
{
    proof {
        vstd::bytes::lemma_auto_spec_u32_to_from_le_bytes();
        match spec_verify(token.spec_bytes(), secret.spec_bytes()) {
            Some(b) => {
                if b.len() == 4 {
                    let x = spec_u32_from_le_bytes(b);
                    assert(((x as i32) as u32) == x) by (bit_vector);
                }
            },
            None => {},
        }
    }
    match token::verify(token, secret) {
        None => Err(ServiceError::NoSession),
        Some(bytes) => {
            if bytes.len() == 4 {
                let id = u32_from_le_bytes(bytes.as_slice()) as i32;
                Ok(id)
            } else {
                Err(ServiceError::NoSession)
            }
        },
    }
}

/// A looked-up session, or the user it belongs to: absent means no session.
pub fn session_found<T>(found: Option<T>) -> (r: Result<T, ServiceError>)
    ensures
        match found {
            Some(x) => r == Ok::<T, ServiceError>(x),
            None => r == Err::<T, ServiceError>(ServiceError::NoSession),
        },
{
    match found {
        Some(x) => Ok(x),
        None => Err(ServiceError::NoSession),
    }
}

} // verus!
