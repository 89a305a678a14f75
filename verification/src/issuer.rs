//! Issuing authorization codes: 24 cryptographically random bytes encoded
//! as a 32-character unpadded URL-safe base64 string, staged on the
//! request's transaction together with the optional PKCE challenge.

use vstd::prelude::*;

use crate::store::{AuthorizationCode, PkceRequest, Transaction};

verus! {

/// The unpadded URL-safe base64 alphabet: `A-Z`, `a-z`, `0-9`, `-`, `_`.
pub open spec fn is_base64url_char(c: char) -> bool {
    (65 <= c as int && c as int <= 90)  // 'A'..'Z'
    || (97 <= c as int && c as int <= 122)  // 'a'..'z'
    || (48 <= c as int && c as int <= 57)  // '0'..'9'
    || c == '-' || c == '_'
}

/// What `data_encoding::BASE64URL_NOPAD` encodes a byte sequence to.
pub uninterp spec fn base64url_nopad_of(bytes: Seq<u8>) -> Seq<char>;

/// Relies on `rand::random::<[u8; 24]>()`: 24 bytes from the thread-local
/// cryptographically secure generator. Nothing can be promised of the
/// values, only of the count.
#[verifier::external_body]
fn random_bytes_24() -> (r: Vec<u8>)
    ensures
        r@.len() == 24,
{
    rand::random::<[u8; 24]>().to_vec()
}

/// Relies on `data_encoding::BASE64URL_NOPAD.encode`: unpadded base64 over
/// the URL-safe alphabet, one character per six bits of input, hence
/// `ceil(4n/3)` characters for `n` bytes, and never a padding character.
/// The length bound keeps clear of the documented panic limit.
#[verifier::external_body]
fn base64url_nopad_encode(bytes: &Vec<u8>) -> (r: String)
    requires
        bytes@.len() <= 4096,
    ensures
        r@ == base64url_nopad_of(bytes@),
        r@.len() == (bytes@.len() * 4 + 2) / 3,
        forall|i: int| 0 <= i < r@.len() ==> is_base64url_char(#[trigger] r@[i]),
{
    data_encoding::BASE64URL_NOPAD.encode(bytes)
}

/// Clone an optional PKCE challenge.
fn clone_pkce(p: &Option<PkceRequest>) -> (r: Option<PkceRequest>)
    ensures
        r == *p,
{
    match p {
        None => None,
        Some(q) => Some(
            PkceRequest {
                code_challenge_method: q.code_challenge_method,
                code_challenge: q.code_challenge.clone(),
            },
        ),
    }
}

/// Generate and stage the authorization code for the transaction's pending
/// session. Callable only when the session asked for the `code` response
/// type, and at most once per session. The raw random bytes are never
/// returned separately from the encoded code.
pub fn issue(txn: &mut Transaction, pkce: Option<PkceRequest>) -> (r: AuthorizationCode)
    requires
        old(txn).pending_session matches Some(s) && s.response_type.code,
        old(txn).pending_code is None,
    ensures
        final(txn).session_id == old(txn).session_id,
        final(txn).pending_session == old(txn).pending_session,
        final(txn).pending_code == Some(r),
        r.session_id == old(txn).session_id,
        r.code@.len() == 32,
        forall|i: int| 0 <= i < r.code@.len() ==> is_base64url_char(#[trigger] r.code@[i]),
        r.pkce == pkce,
{
    let bytes = random_bytes_24();
    let code = base64url_nopad_encode(&bytes);
    let code_copy = code.clone();
    let pkce_copy = clone_pkce(&pkce);
    let staged = AuthorizationCode { session_id: txn.session_id, code, pkce };
    let returned = AuthorizationCode {
        session_id: txn.session_id,
        code: code_copy,
        pkce: pkce_copy,
    };
    txn.pending_code = Some(staged);
    returned
}

} // verus!
