use service::crypto::token::{hash, sign, verify, verify_decoded};

fn hex(bytes: &[u8]) -> String {
    bytes.iter().map(|b| format!("{:02x}", b)).collect()
}

#[test]
fn hash_is_hmac_sha256() {
    let tag = hash(b"The quick brown fox jumps over the lazy dog", "key");
    assert_eq!(hex(&tag), "f7bc83f430538424b13298e6aa6fb143ef4d59a14946175997479dbc2d1a3cd8");
}

#[test]
fn sign_produces_expected_token() {
    assert_eq!(sign(b"hello", "secret"), "YUdWc2JHOC5pS3F6N2VqVHJmbE5KcXVRMDdyOVNpQ0RCd3c3ek9uQUZPNEVwRU9FZkFz");
    assert_eq!(sign(b"abc", "s"), "WVdKai5SOWtnN1pCNFRjWHE1aldfMElKUFlTMEY4Si1hUl9ZRGtONkhPdE4tVkdz");
}

#[test]
fn verify_returns_signed_data() {
    let token = sign(b"hello", "secret");
    assert_eq!(verify(&token, "secret"), Some(b"hello".to_vec()));
    let token = sign(b"", "secret");
    assert_eq!(verify(&token, "secret"), Some(vec![]));
}

#[test]
fn verify_rejects_other_secret() {
    let token = sign(b"hello", "secret");
    assert_eq!(verify(&token, "other"), None);
}

#[test]
fn verify_rejects_tampered_token() {
    let token = sign(b"hello", "secret");
    let mut chars: Vec<char> = token.chars().collect();
    chars[2] = if chars[2] == 'A' { 'B' } else { 'A' };
    let tampered: String = chars.into_iter().collect();
    assert_eq!(verify(&tampered, "secret"), None);
}

#[test]
fn verify_rejects_malformed_tokens() {
    assert_eq!(verify("", "secret"), None);
    assert_eq!(verify("not base64!", "secret"), None);
    // "aGVsbG8" is base64 of "hello": no separator inside.
    assert_eq!(verify("aGVsbG8", "secret"), None);
    // base64 of [0xff, '.', 'A', 'A']: not UTF-8.
    assert_eq!(verify("_y5BQQ", "secret"), None);
}

#[test]
fn token_uses_url_safe_characters() {
    for (data, secret) in [(&b"hello"[..], "secret"), (&[0xff, 0xfe, 0x00][..], "k"), (&b""[..], "")] {
        let token = sign(data, secret);
        assert!(token.chars().all(|c| c.is_ascii_alphanumeric() || c == '-' || c == '_'));
    }
}

#[test]
fn only_the_canonical_token_verifies() {
    let token = sign(b"a", "secret");
    assert_eq!(token, "WVEuUUVqRVNSR1JZRVBfWW1pVl8zakZKaWRrYUZ0c3VhQTg0SGlHcWVfN2trdw");
    assert_eq!(verify(&token, "secret"), Some(b"a".to_vec()));
    // Same bits before the trailing ones, but a non-zero trailing bit.
    let mut other = token.clone();
    other.pop();
    other.push('x');
    assert_eq!(verify(&other, "secret"), None);
    // Padding is not accepted either.
    assert_eq!(verify(&format!("{}==", token), "secret"), None);
}

#[test]
fn verify_decoded_checks_joined_text() {
    // "aGVsbG8" is base64url of "hello"; the tag is that of sign(b"hello", "secret").
    let joined = b"aGVsbG8.iKqz7ejTrflNJquQ07r9SiCDBww7zOnAFO4EpEOEfAs";
    assert_eq!(verify_decoded(joined, "secret"), Some(b"hello".to_vec()));
    assert_eq!(verify_decoded(joined, "other"), None);
    assert_eq!(verify_decoded(b"aGVsbG8", "secret"), None);
    assert_eq!(verify_decoded(b"aGVsbG8.", "secret"), None);
    assert_eq!(verify_decoded(&[0xff, b'.', b'A', b'A'], "secret"), None);
}
