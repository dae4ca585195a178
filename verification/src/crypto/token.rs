//! Signed tokens: `base64url(base64url(data) "." base64url(hmac_sha256(secret, data)))`,
//! every base64 in the URL-safe alphabet without padding.

use base64::Engine;
use hmac::Mac;
use vstd::prelude::*;
use vstd::slice::slice_subrange;
use vstd::string::{StringExecFns, StringSliceAdditionalSpecFns};
use vstd::utf8::{
    decode_utf8, encode_utf8, encode_utf8_decode_utf8, encode_utf8_valid_utf8, is_ascii_chars,
    is_ascii_chars_encode_utf8, valid_utf8,
};

verus! {

/// The text that `URL_SAFE_NO_PAD.encode` of the base64 crate produces for `data`.
pub uninterp spec fn base64_url_encode(data: Seq<u8>) -> Seq<char>;

/// What `URL_SAFE_NO_PAD.decode` of the base64 crate gives back for `text`:
/// the decoded bytes, or `None` where it reports an error.
pub uninterp spec fn base64_url_decode(text: Seq<u8>) -> Option<Seq<u8>>;

/// The HMAC-SHA256 tag of `data` under `key`, as the hmac and sha2 crates compute it.
pub uninterp spec fn hmac_sha256(key: Seq<u8>, data: Seq<u8>) -> Seq<u8>;

/// The byte that separates the two parts of a decoded token (ASCII `.`).
pub const SEPARATOR: u8 = 46;

/// A character of the URL-safe base64 alphabet.
pub open spec fn is_url_safe_char(c: char) -> bool {
    ||| ('A' <= c && c <= 'Z')
    ||| ('a' <= c && c <= 'z')
    ||| ('0' <= c && c <= '9')
    ||| c == '-'
    ||| c == '_'
}

/// Text made of URL-safe base64 characters only.
pub open spec fn is_url_safe_text(s: Seq<char>) -> bool {
    forall|i: int| 0 <= i < s.len() ==> #[trigger] is_url_safe_char(s[i])
}

/// Length of the unpadded base64 text of `n` bytes.
pub open spec fn base64_len(n: nat) -> nat {
    4 * (n / 3) + if n % 3 == 0 {
        0nat
    } else if n % 3 == 1 {
        2nat
    } else {
        3nat
    }
}

/// Length of a token that signs `n` bytes.
pub open spec fn token_len(n: nat) -> nat {
    base64_len(base64_len(n) + 1 + base64_len(32))
}

/// The text that `sign` joins before its final encoding.
pub open spec fn signed_text(data: Seq<u8>, secret: Seq<u8>) -> Seq<char> {
    base64_url_encode(data) + seq!['.'] + base64_url_encode(hmac_sha256(secret, data))
}

/// The token that `sign` issues for `data` under `secret`.
pub open spec fn spec_sign(data: Seq<u8>, secret: Seq<u8>) -> Seq<char> {
    base64_url_encode(encode_utf8(signed_text(data, secret)))
}

/// `i` is the position of the first separator in `bytes`.
pub open spec fn is_first_separator(bytes: Seq<u8>, i: int) -> bool {
    &&& 0 <= i < bytes.len()
    &&& bytes[i] == SEPARATOR
    &&& forall|j: int| 0 <= j < i ==> bytes[j] != SEPARATOR
}

/// `bytes` holds a separator.
pub open spec fn has_separator(bytes: Seq<u8>) -> bool {
    exists|i: int| 0 <= i < bytes.len() && bytes[i] == SEPARATOR
}

/// The position of the first separator in `bytes`.
pub open spec fn first_separator(bytes: Seq<u8>) -> int {
    choose|i: int| is_first_separator(bytes, i)
}

/// What `verify_decoded` gives back for the decoded content of a token: the
/// signed data where `joined` is UTF-8 text `a.b` (split at the first `.`),
/// `a` and `b` decode, and `b` is the tag of `a` under `secret`.
pub open spec fn spec_verify_decoded(joined: Seq<u8>, secret: Seq<u8>) -> Option<Seq<u8>> {
    if !valid_utf8(joined) || !has_separator(joined) {
        None
    } else {
        let i = first_separator(joined);
        match base64_url_decode(joined.take(i)) {
            None => None,
            Some(data) => match base64_url_decode(joined.skip(i + 1)) {
                None => None,
                Some(signature) => if signature == hmac_sha256(secret, data) {
                    Some(data)
                } else {
                    None
                },
            },
        }
    }
}

/// What `verify` gives back for a token whose UTF-8 bytes are `token`: the
/// decoded token checked as by `verify_decoded`.
pub open spec fn spec_verify(token: Seq<u8>, secret: Seq<u8>) -> Option<Seq<u8>> {
    match base64_url_decode(token) {
        None => None,
        Some(joined) => spec_verify_decoded(joined, secret),
    }
}

/// Encodes `data` with `URL_SAFE_NO_PAD.encode` of the base64 crate.
/// Trusted: the text is the named encoding, has the unpadded base64 length,
/// uses only URL-safe characters, and decodes back to `data`.
#[verifier::external_body]
fn encode_url_safe(data: &[u8]) -> (text: String)
    requires
        base64_len(data@.len() as nat) <= usize::MAX,
    ensures
        text@ == base64_url_encode(data@),
        text@.len() == base64_len(data@.len() as nat),
        is_url_safe_text(text@),
        base64_url_decode(encode_utf8(text@)) == Some(data@),
{
    base64::engine::general_purpose::URL_SAFE_NO_PAD.encode(data)
}

/// Decodes `text` with `URL_SAFE_NO_PAD.decode` of the base64 crate.
/// Trusted: the result is the named decoding, `None` for an error; and the
/// decoding is strict (no padding, only alphabet bytes, no length of the
/// form 4k + 1, zero trailing bits), so text that decodes is exactly the
/// encoding of what it decodes to.
#[verifier::external_body]
fn decode_url_safe(text: &[u8]) -> (data: Option<Vec<u8>>)
    ensures
        match data {
            Some(d) => {
                &&& base64_url_decode(text@) == Some(d@)
                &&& text@ == encode_utf8(base64_url_encode(d@))
                &&& is_url_safe_text(base64_url_encode(d@))
            },
            None => base64_url_decode(text@) is None,
        },
{
    base64::engine::general_purpose::URL_SAFE_NO_PAD.decode(text).ok()
}

/// Computes HMAC-SHA256 with `Hmac::<Sha256>::new_from_slice`, `update` and
/// `finalize` of the hmac crate (`new_from_slice` accepts keys of any length).
/// Trusted: the tag is the named function of key and data, and is 32 bytes long.
#[verifier::external_body]
fn hmac_sha256_tag(key: &[u8], data: &[u8]) -> (tag: Vec<u8>)
    ensures
        tag@ == hmac_sha256(key@, data@),
        tag@.len() == 32,
{
    let mut mac = <hmac::Hmac<sha2::Sha256> as Mac>::new_from_slice(key).unwrap();
    mac.update(data);
    mac.finalize().into_bytes().to_vec()
}

/// Checks `bytes` with `std::str::from_utf8`. Trusted: the answer is whether
/// `bytes` is well-formed UTF-8.
#[verifier::external_body]
fn is_utf8(bytes: &[u8]) -> (valid: bool)
    ensures
        valid == valid_utf8(bytes@),
{
    std::str::from_utf8(bytes).is_ok()
}

/// The HMAC-SHA256 tag of `bytes` under the UTF-8 bytes of `secret`.
pub fn hash(bytes: &[u8], secret: &str) -> (tag: Vec<u8>)
    ensures
        tag@ == hmac_sha256(secret.spec_bytes(), bytes@),
        tag@.len() == 32,
{
    hmac_sha256_tag(secret.as_bytes(), bytes)
}

proof fn lemma_base64_len_grows(n: nat)
    ensures
        n <= base64_len(n),
{
}

/// The UTF-8 bytes of URL-safe text are its characters one by one.
proof fn lemma_url_safe_bytes(s: Seq<char>)
    requires
        is_url_safe_text(s),
    ensures
        is_ascii_chars(s),
        encode_utf8(s).len() == s.len(),
        forall|i: int| 0 <= i < s.len() ==> #[trigger] encode_utf8(s)[i] == s[i] as u8,
{
    assert forall|i: int| 0 <= i < s.len() implies '\0' <= #[trigger] s[i] <= '\u{7f}' by {
        assert(is_url_safe_char(s[i]));
    }
    is_ascii_chars_encode_utf8(s);
}

/// Signs `data` under `secret`; `verify` with the same secret gives `data` back.
pub fn sign(data: &[u8], secret: &str) -> (token: String)
    requires
        token_len(data@.len() as nat) <= usize::MAX,
    ensures
        token@ == spec_sign(data@, secret.spec_bytes()),
        is_url_safe_text(token@),
        base64_url_decode(encode_utf8(token@)) == Some(encode_utf8(signed_text(data@, secret.spec_bytes()))),
        base64_url_decode(encode_utf8(token@)) == Some(
            encode_utf8(base64_url_encode(data@)) + seq![46u8] + encode_utf8(
                base64_url_encode(hmac_sha256(secret.spec_bytes(), data@)),
            ),
        ),
        spec_verify(encode_utf8(token@), secret.spec_bytes()) == Some(data@),
{
    proof {
        lemma_base64_len_grows(data@.len() as nat);
        lemma_base64_len_grows(base64_len(data@.len() as nat) + 1 + base64_len(32));
    }
    let signature = hash(data, secret);
    let data_text = encode_url_safe(data);
    let signature_text = encode_url_safe(signature.as_slice());
    let mut joined = data_text.clone();
    joined.append(".");
    joined.append(signature_text.as_str());
    proof {
        reveal_strlit(".");
    }
    let ghost a = data_text@;
    let ghost b = signature_text@;
    let ghost j = joined@;
    assert(j =~= signed_text(data@, secret.spec_bytes()));
    let ghost jb = encode_utf8(j);
    proof {
        assert(is_url_safe_char('.') == false);
        assert forall|i: int| 0 <= i < j.len() implies '\0' <= #[trigger] j[i] <= '\u{7f}' by {
            if i < a.len() {
                assert(j[i] == a[i]);
                assert(is_url_safe_char(a[i]));
            } else if i > a.len() {
                assert(j[i] == b[i - a.len() - 1]);
                assert(is_url_safe_char(b[i - a.len() - 1]));
            }
        }
        is_ascii_chars_encode_utf8(j);
        lemma_url_safe_bytes(a);
        lemma_url_safe_bytes(b);
        encode_utf8_valid_utf8(j);
        let k = a.len() as int;
        assert(jb[k] == SEPARATOR);
        assert forall|x: int| 0 <= x < k implies jb[x] != SEPARATOR by {
            assert(j[x] == a[x]);
            assert(is_url_safe_char(a[x]));
        }
        assert(is_first_separator(jb, k));
        assert(has_separator(jb));
        assert(first_separator(jb) == k);
        assert(jb.take(k) =~= encode_utf8(a));
        assert(jb.skip(k + 1) =~= encode_utf8(b));
    }
    let token = encode_url_safe(joined.as_str().as_bytes());
    proof {
        lemma_signed_bytes(data@, secret.spec_bytes());
    }
    token
}

/// Compares two byte strings.
fn same_bytes(x: &[u8], y: &[u8]) -> (same: bool)
    ensures
        same == (x@ == y@),
{
    if x.len() != y.len() {
        return false;
    }
    let mut i: usize = 0;
    while i < x.len()
        invariant
            x@.len() == y@.len(),
            i <= x@.len(),
            forall|k: int| 0 <= k < i ==> x@[k] == y@[k],
        decreases x@.len() - i,
    {
        if x[i] != y[i] {
            return false;
        }
        i = i + 1;
    }
    assert(x@ =~= y@);
    true
}

/// Position of the first separator in `bytes`, if there is one.
fn find_separator(bytes: &[u8]) -> (found: Option<usize>)
    ensures
        match found {
            Some(i) => is_first_separator(bytes@, i as int),
            None => !has_separator(bytes@),
        },
{
    let mut i: usize = 0;
    while i < bytes.len()
        invariant
            i <= bytes@.len(),
            forall|j: int| 0 <= j < i ==> bytes@[j] != SEPARATOR,
        decreases bytes@.len() - i,
    {
        if bytes[i] == SEPARATOR {
            return Some(i);
        }
        i = i + 1;
    }
    None
}

/// The UTF-8 bytes of the text that `sign` joins: the two encodings around
/// the separator.
proof fn lemma_signed_bytes(data: Seq<u8>, secret: Seq<u8>)
    requires
        is_url_safe_text(base64_url_encode(data)),
        is_url_safe_text(base64_url_encode(hmac_sha256(secret, data))),
    ensures
        encode_utf8(signed_text(data, secret)) == encode_utf8(base64_url_encode(data)) + seq![SEPARATOR]
            + encode_utf8(base64_url_encode(hmac_sha256(secret, data))),
{
    let a = base64_url_encode(data);
    let b = base64_url_encode(hmac_sha256(secret, data));
    let j = signed_text(data, secret);
    assert forall|i: int| 0 <= i < j.len() implies '\0' <= #[trigger] j[i] <= '\u{7f}' by {
        if i < a.len() {
            assert(j[i] == a[i]);
            assert(is_url_safe_char(a[i]));
        } else if i > a.len() {
            assert(j[i] == b[i - a.len() - 1]);
            assert(is_url_safe_char(b[i - a.len() - 1]));
        }
    }
    is_ascii_chars_encode_utf8(j);
    lemma_url_safe_bytes(a);
    lemma_url_safe_bytes(b);
    assert(encode_utf8(j) =~= encode_utf8(a) + seq![SEPARATOR] + encode_utf8(b));
}

/// Checks the decoded content of a token: gives back the signed data where
/// `joined` is UTF-8 text `a.b` whose parts decode and whose second part is
/// the tag of the first under `secret`. What it accepts is exactly the
/// content that `sign` encodes for that data.
pub fn verify_decoded(joined: &[u8], secret: &str) -> (data: Option<Vec<u8>>)
    ensures
        match data {
            Some(d) => {
                &&& spec_verify_decoded(joined@, secret.spec_bytes()) == Some(d@)
                &&& joined@ == encode_utf8(signed_text(d@, secret.spec_bytes()))
            },
            None => spec_verify_decoded(joined@, secret.spec_bytes()) is None,
        },
{
    if !is_utf8(joined) {
        return None;
    }
    let i = match find_separator(joined) {
        Some(i) => i,
        None => return None,
    };
    proof {
        assert(first_separator(joined@) == i as int);
    }
    let left = slice_subrange(joined, 0, i);
    let n = joined.len();
    let right = slice_subrange(joined, i + 1, n);
    assert(left@ =~= joined@.take(i as int));
    assert(right@ =~= joined@.skip(i + 1));
    let data = match decode_url_safe(left) {
        Some(data) => data,
        None => return None,
    };
    let signature = match decode_url_safe(right) {
        Some(signature) => signature,
        None => return None,
    };
    let expected = hash(data.as_slice(), secret);
    if same_bytes(signature.as_slice(), expected.as_slice()) {
        proof {
            lemma_signed_bytes(data@, secret.spec_bytes());
            assert(joined@ =~= joined@.take(i as int) + seq![SEPARATOR] + joined@.skip(i + 1));
        }
        Some(data)
    } else {
        None
    }
}

/// Checks a token issued by `sign`; gives back the signed data where the
/// token is intact and was signed under `secret`. Only the token that `sign`
/// issues for that data is accepted.
pub fn verify(token: &str, secret: &str) -> (data: Option<Vec<u8>>)
    ensures
        match data {
            Some(d) => {
                &&& spec_verify(token.spec_bytes(), secret.spec_bytes()) == Some(d@)
                &&& token@ == spec_sign(d@, secret.spec_bytes())
            },
            None => spec_verify(token.spec_bytes(), secret.spec_bytes()) is None,
        },
{
    let joined = match decode_url_safe(token.as_bytes()) {
        Some(joined) => joined,
        None => return None,
    };
    let data = verify_decoded(joined.as_slice(), secret);
    proof {
        if data is Some {
            encode_utf8_decode_utf8(token@);
            encode_utf8_decode_utf8(base64_url_encode(joined@));
        }
    }
    data
}

} // verus!
