//! Decisions of the authentication endpoints: the salt lookup, the checks
//! around the OPAQUE messages, login attempts and access-token claims.

use hmac::{Hmac, Mac};
use sha2::Sha256;
use vstd::prelude::*;
use vstd::string::StringSliceAdditionalSpecFns;

use crate::encoding::{base64_decode, base64_encode, base64_standard_decode, base64_standard_encode};
use crate::ids::{uuid_text, uuid_to_string};
use crate::server::status::HttpStatus;

verus! {

/// HMAC-SHA256 of `msg` under `key`.
pub uninterp spec fn hmac_sha256(key: Seq<u8>, msg: Seq<u8>) -> Seq<u8>;

/// Calls `Hmac::<Sha256>::new_from_slice`, `update` and `finalize`. HMAC
/// takes keys of any length, so the construction does not fail.
#[verifier::external_body]
fn hmac_sha256_tag(key: &[u8], msg: &[u8]) -> (tag: [u8; 32])
    ensures
        tag@ == hmac_sha256(key@, msg@),
{
    let mut mac = Hmac::<Sha256>::new_from_slice(key).unwrap();
    mac.update(msg);
    mac.finalize().into_bytes().into()
}

/// The label appended to the e-mail address when a salt is made up.
pub open spec fn fake_salt_label() -> Seq<u8> {
    "arcan-deterministic-salt-v1".spec_bytes()
}

/// The salt handed out for an unknown address: the first 16 bytes of an
/// HMAC over the address and a fixed label, keyed with the server secret,
/// in Base64. It is the same on every request, so an unknown address cannot
/// be told from a known one.
pub open spec fn fake_salt_spec(secret: Seq<char>, email: Seq<char>) -> Seq<char> {
    base64_standard_encode(
        hmac_sha256(
            vstd::utf8::encode_utf8(secret),
            vstd::utf8::encode_utf8(email) + fake_salt_label(),
        ).subrange(0, 16),
    )
}

fn append_bytes(dst: &mut Vec<u8>, src: &[u8])
    ensures
        final(dst)@ == old(dst)@ + src@,
{
    let n = src.len();
    for i in 0..n
        invariant
            n == src@.len(),
            dst@ == old(dst)@ + src@.subrange(0, i as int),
    {
        dst.push(src[i]);
    }
    assert(src@.subrange(0, n as int) == src@);
}

/// The salt the salt endpoint answers with for a normalised address: the
/// stored one, or for an unknown address the made-up one.
pub fn salt_for_email(stored_salt: Option<String>, jwt_secret: &str, email: &str) -> (salt: String)
    ensures
        match stored_salt {
            Some(s) => salt == s,
            None => salt@ == fake_salt_spec(jwt_secret@, email@),
        },
        stored_salt is None ==> salt@.len() == 24,
{
    match stored_salt {
        Some(s) => s,
        None => {
            let label = "arcan-deterministic-salt-v1";
            let mut msg: Vec<u8> = Vec::new();
            append_bytes(&mut msg, email.as_bytes());
            append_bytes(&mut msg, label.as_bytes());
            let tag = hmac_sha256_tag(jwt_secret.as_bytes(), msg.as_slice());
            let mut head: Vec<u8> = Vec::new();
            for i in 0..16
                invariant
                    head@ == tag@.subrange(0, i as int),
            {
                head.push(tag[i]);
            }
            proof {
                crate::encoding::lemma_encode_len(head@);
            }
            base64_encode(head.as_slice())
        },
    }
}

/// Decodes a Base64 field sent by the client; malformed input is a bad
/// request.
pub fn decode_client_field(text: &str) -> (res: Result<Vec<u8>, HttpStatus>)
    ensures
        match base64_standard_decode(text@) {
            Some(b) => res matches Ok(v) && v@ == b,
            None => res == Err::<Vec<u8>, HttpStatus>(HttpStatus::BadRequest),
        },
{
    match base64_decode(text) {
        Some(v) => Ok(v),
        None => Err(HttpStatus::BadRequest),
    }
}

/// Decodes a Base64 field the server stored itself; malformed input is a
/// server error.
pub fn decode_stored_field(text: &str) -> (res: Result<Vec<u8>, HttpStatus>)
    ensures
        match base64_standard_decode(text@) {
            Some(b) => res matches Ok(v) && v@ == b,
            None => res == Err::<Vec<u8>, HttpStatus>(HttpStatus::InternalServerError),
        },
{
    match base64_decode(text) {
        Some(v) => Ok(v),
        None => Err(HttpStatus::InternalServerError),
    }
}

/// The first check of a registration: an address that already has an
/// account is refused with 409 before anything else; then the client's
/// message must be valid Base64.
pub fn check_registration_start(user_exists: bool, client_start: &str) -> (res: Result<Vec<u8>, HttpStatus>)
    ensures
        user_exists ==> res == Err::<Vec<u8>, HttpStatus>(HttpStatus::Conflict),
        !user_exists ==> match base64_standard_decode(client_start@) {
            Some(b) => res matches Ok(v) && v@ == b,
            None => res == Err::<Vec<u8>, HttpStatus>(HttpStatus::BadRequest),
        },
{
    if user_exists {
        return Err(HttpStatus::Conflict);
    }
    decode_client_field(client_start)
}

/// The first check of a login: an unknown address is unauthorised; then
/// the client's message must be valid Base64.
pub fn check_login_start(user_found: bool, client_start: &str) -> (res: Result<Vec<u8>, HttpStatus>)
    ensures
        !user_found ==> res == Err::<Vec<u8>, HttpStatus>(HttpStatus::Unauthorized),
        user_found ==> match base64_standard_decode(client_start@) {
            Some(b) => res matches Ok(v) && v@ == b,
            None => res == Err::<Vec<u8>, HttpStatus>(HttpStatus::BadRequest),
        },
{
    if !user_found {
        return Err(HttpStatus::Unauthorized);
    }
    decode_client_field(client_start)
}

/// How long a login attempt stays open, in seconds.
pub const LOGIN_ATTEMPT_TTL_SECS: u64 = 120;

/// The key under which a login attempt is kept between its two steps.
pub open spec fn login_attempt_key_spec(attempt_id: u128) -> Seq<char> {
    "login_attempt_"@ + uuid_text(attempt_id)
}

/// The key under which a login attempt is kept between its two steps.
pub fn login_attempt_key(attempt_id: u128) -> (key: String)
    ensures
        key@ == login_attempt_key_spec(attempt_id),
{
    let mut key = String::from_str("login_attempt_");
    let id = uuid_to_string(attempt_id);
    key.append(id.as_str());
    key
}

/// The issuer and audience of access tokens.
pub open spec fn token_party() -> Seq<char> {
    "https://sanctum.lucalewin.dev"@
}

/// How long an access token is valid: seven days, in seconds.
pub const TOKEN_LIFETIME_SECS: i64 = 604800;

/// The claims of an access token.
pub struct Claims {
    pub sub: String,
    pub exp: u64,
    pub iat: u64,
    pub iss: String,
    pub nbf: u64,
    pub aud: String,
    pub jti: String,
}

/// The claims of the token issued at `now` (Unix seconds) to `user_id`,
/// identified by `jti`: valid from now for seven days.
pub fn issue_claims(user_id: u128, now: i64, jti: u128) -> (c: Claims)
    requires
        now <= i64::MAX - TOKEN_LIFETIME_SECS,
    ensures
        c.sub@ == uuid_text(user_id),
        c.exp == (now + TOKEN_LIFETIME_SECS) as u64,
        c.iat == now as u64,
        c.nbf == now as u64,
        c.iss@ == token_party(),
        c.aud@ == token_party(),
        c.jti@ == uuid_text(jti),
{
    Claims {
        sub: uuid_to_string(user_id),
        exp: (now + TOKEN_LIFETIME_SECS) as u64,
        iat: now as u64,
        iss: String::from_str("https://sanctum.lucalewin.dev"),
        nbf: now as u64,
        aud: String::from_str("https://sanctum.lucalewin.dev"),
        jti: uuid_to_string(jti),
    }
}

} // verus!
