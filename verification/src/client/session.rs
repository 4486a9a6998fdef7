//! The master password, the keys derived from it, and the session that
//! carries the unlocked keys between commands.

use argon2::password_hash::SaltString;
use chacha20poly1305::aead::OsRng;
use subtle::ConstantTimeEq;
use vstd::prelude::*;
use vstd::string::StringSliceAdditionalSpecFns;

use crate::crypto::{derive_master_key, derive_subkey, master_key_spec, subkey_spec, wipe_key};
use crate::encoding::{base64_decode, base64_encode, base64_standard_decode, base64_standard_encode};

verus! {

/// The purpose name of the key-encryption key.
pub open spec fn encryption_info() -> Seq<char> {
    "arcan-encryption"@
}

/// The purpose name of the key that authenticates to the server.
pub open spec fn authentication_info() -> Seq<char> {
    "arcan-authentication"@
}

/// The purpose name of the key stored locally to check the password.
pub open spec fn verification_info() -> Seq<char> {
    "arcan-verification"@
}

/// A character the salt format allows: `[a-zA-Z0-9/+.-]`.
pub open spec fn salt_char(c: char) -> bool {
    ||| ('a' <= c && c <= 'z')
    ||| ('A' <= c && c <= 'Z')
    ||| ('0' <= c && c <= '9')
    ||| c == '/'
    ||| c == '+'
    ||| c == '.'
    ||| c == '-'
}

/// Text that `SaltString::from_b64` accepts: 4 to 64 allowed characters.
pub open spec fn valid_salt_text(s: Seq<char>) -> bool {
    &&& 4 <= s.len() <= 64
    &&& forall|i: int| 0 <= i < s.len() ==> #[trigger] salt_char(s[i])
}

/// Calls `SaltString::from_b64` and reports whether it accepted the text.
/// Its source checks the byte length (4 to 64) and that every character is
/// one of `[a-zA-Z0-9/+.-]`; for such text bytes and characters coincide.
#[verifier::external_body]
fn salt_text_accepted(s: &str) -> (ok: bool)
    ensures
        ok == valid_salt_text(s@),
{
    SaltString::from_b64(s).is_ok()
}

/// Calls `SaltString::generate(&mut OsRng)`: 16 random bytes in the unpadded
/// B64 alphabet, which is 22 characters of `[A-Za-z0-9+/]`. Nothing else is
/// claimed of the value.
#[verifier::external_body]
fn generate_salt() -> (salt: String)
    ensures
        valid_salt_text(salt@),
        salt@.len() == 22,
{
    SaltString::generate(&mut OsRng).as_str().to_string()
}

/// Calls `ConstantTimeEq::ct_eq` on two byte slices (and converts the
/// `Choice`): true exactly when lengths and contents agree.
#[verifier::external_body]
fn bytes_ct_eq(a: &[u8], b: &[u8]) -> (eq: bool)
    ensures
        eq == (a@ == b@),
{
    bool::from(a.ct_eq(b))
}

/// Whether text is valid salt text (what the stored or received salt must
/// be before keys are derived from it).
pub fn salt_text_valid(salt: &str) -> (ok: bool)
    ensures
        ok == valid_salt_text(salt@),
{
    salt_text_accepted(salt)
}

proof fn lemma_salt_is_ascii(s: &str)
    requires
        valid_salt_text(s@),
    ensures
        s.spec_bytes().len() == s@.len(),
{
    assert(vstd::utf8::is_ascii_chars(s@)) by {
        assert forall|i: int| 0 <= i < s@.len() implies '\0' <= #[trigger] s@[i] <= '\u{7f}' by {
            assert(salt_char(s@[i]));
        }
    }
    vstd::string::is_ascii_spec_bytes(s);
}

/// The unlocked keys, each in standard Base64.
pub struct ArcanSession {
    /// The key-encryption key, which encrypts the vault keys.
    pub kek: String,
    /// The key that authenticates to the server.
    pub auth: String,
}

/// Why unlocking failed.
#[derive(Debug, PartialEq, Eq, Structural, Clone, Copy)]
pub enum UnlockError {
    /// The stored salt is not valid salt text.
    InvalidSalt,
    /// The password does not derive the stored verifier.
    InvalidPassword,
}

/// The key `encryption_key` or `authentication_key` gives for a Base64
/// field: the decoded bytes if they are exactly 32 of them.
pub open spec fn session_key_spec(field: Seq<char>) -> Option<Seq<u8>> {
    match base64_standard_decode(field) {
        Some(b) => if b.len() == 32 {
            Some(b)
        } else {
            None
        },
        None => None,
    }
}

fn decode_key(field: &str, decode_failed: &str, wrong_length: &str) -> (res: Result<[u8; 32], String>)
    ensures
        match base64_standard_decode(field@) {
            None => res matches Err(e) && e@ == decode_failed@,
            Some(b) => if b.len() == 32 {
                res matches Ok(k) && k@ == b
            } else {
                res matches Err(e) && e@ == wrong_length@
            },
        },
{
    let decoded = match base64_decode(field) {
        Some(d) => d,
        None => return Err(decode_failed.to_string()),
    };
    if decoded.len() != 32 {
        return Err(wrong_length.to_string());
    }
    let mut key = [0u8; 32];
    for i in 0..32
        invariant
            decoded@.len() == 32,
            forall|j: int| 0 <= j < i ==> key[j] == decoded@[j],
    {
        key[i] = decoded[i];
    }
    assert(key@ =~= decoded@);
    Ok(key)
}

impl ArcanSession {
    /// Decodes the KEK from the session and returns it as a 32-byte array.
    pub fn encryption_key(&self) -> (res: Result<[u8; 32], String>)
        ensures
            match session_key_spec(self.kek@) {
                Some(k) => res matches Ok(key) && key@ == k,
                None => res is Err,
            },
            base64_standard_decode(self.kek@) is None ==> (res matches Err(e) && e@
                == "Failed to decode KEK from session."@),
            base64_standard_decode(self.kek@) matches Some(b) && b.len() != 32 ==> (res matches Err(e)
                && e@ == "Invalid KEK length in session."@),
    {
        decode_key(self.kek.as_str(), "Failed to decode KEK from session.", "Invalid KEK length in session.")
    }

    /// Decodes the authentication key from the session and returns it as a
    /// 32-byte array.
    pub fn authentication_key(&self) -> (res: Result<[u8; 32], String>)
        ensures
            match session_key_spec(self.auth@) {
                Some(k) => res matches Ok(key) && key@ == k,
                None => res is Err,
            },
            base64_standard_decode(self.auth@) is None ==> (res matches Err(e) && e@
                == "Failed to decode auth key from session."@),
            base64_standard_decode(self.auth@) matches Some(b) && b.len() != 32 ==> (res matches Err(e)
                && e@ == "Invalid auth key length in session."@),
    {
        decode_key(
            self.auth.as_str(),
            "Failed to decode auth key from session.",
            "Invalid auth key length in session.",
        )
    }
}

/// The verifier stored at onboarding and checked at unlock.
pub open spec fn verifier_spec(password: Seq<char>, salt: Seq<char>) -> Seq<u8> {
    subkey_spec(master_key_spec(password, salt), verification_info())
}

/// The outcome of unlocking: for a valid salt and a password that derives
/// the stored verifier, the session's two keys (in Base64).
pub open spec fn unlock_spec(salt: Seq<char>, password: Seq<char>, verifier: Seq<u8>) -> Result<
    (Seq<char>, Seq<char>),
    UnlockError,
> {
    if !valid_salt_text(salt) {
        Err(UnlockError::InvalidSalt)
    } else if verifier != verifier_spec(password, salt) {
        Err(UnlockError::InvalidPassword)
    } else {
        let root = master_key_spec(password, salt);
        Ok(
            (
                base64_standard_encode(subkey_spec(root, encryption_info())),
                base64_standard_encode(subkey_spec(root, authentication_info())),
            ),
        )
    }
}

/// Unlocks the vault: checks the master password against the locally
/// stored verifier (in constant time) and, if it matches, derives the
/// session keys. Argon2 runs once.
pub fn unlock_session(master_salt: &str, password: &str, local_verifier: &[u8]) -> (res: Result<
    ArcanSession,
    UnlockError,
>)
    requires
        password.spec_bytes().len() <= 0xffff_ffff,
        valid_salt_text(master_salt@) ==> 8 <= master_salt@.len(),
    ensures
        match unlock_spec(master_salt@, password@, local_verifier@) {
            Ok((kek, auth)) => res matches Ok(s) && s.kek@ == kek && s.auth@ == auth,
            Err(e) => res matches Err(e2) && e2 == e,
        },
{
    if !salt_text_accepted(master_salt) {
        return Err(UnlockError::InvalidSalt);
    }
    proof {
        lemma_salt_is_ascii(master_salt);
    }
    let mut root_key = derive_master_key(password, master_salt);
    let attempt_verifier = derive_subkey(&root_key, "arcan-verification");
    if !bytes_ct_eq(attempt_verifier.as_slice(), local_verifier) {
        wipe_key(&mut root_key);
        return Err(UnlockError::InvalidPassword);
    }
    let kek = derive_subkey(&root_key, "arcan-encryption");
    let auth_key = derive_subkey(&root_key, "arcan-authentication");
    wipe_key(&mut root_key);
    Ok(ArcanSession { kek: base64_encode(kek.as_slice()), auth: base64_encode(auth_key.as_slice()) })
}

/// The keys onboarding needs: the one that registers (or logs in) with the
/// server, and the verifier stored locally.
pub struct OnboardKeys {
    pub auth_subkey: [u8; 32],
    pub verification_subkey: [u8; 32],
}

/// Derives the onboarding keys from the master password and the account
/// salt; salt text that is not valid is refused.
pub fn onboarding_keys(password: &str, salt: &str) -> (res: Result<OnboardKeys, UnlockError>)
    requires
        password.spec_bytes().len() <= 0xffff_ffff,
        valid_salt_text(salt@) ==> 8 <= salt@.len(),
    ensures
        !valid_salt_text(salt@) ==> res == Err::<OnboardKeys, UnlockError>(UnlockError::InvalidSalt),
        valid_salt_text(salt@) ==> (res matches Ok(k) && k.verification_subkey@ == verifier_spec(
            password@,
            salt@,
        ) && k.auth_subkey@ == subkey_spec(master_key_spec(password@, salt@), authentication_info())),
{
    if !salt_text_accepted(salt) {
        return Err(UnlockError::InvalidSalt);
    }
    proof {
        lemma_salt_is_ascii(salt);
    }
    let mut root_key = derive_master_key(password, salt);
    let auth_subkey = derive_subkey(&root_key, "arcan-authentication");
    let verification_subkey = derive_subkey(&root_key, "arcan-verification");
    wipe_key(&mut root_key);
    Ok(OnboardKeys { auth_subkey, verification_subkey })
}

/// A new account: its freshly generated salt and the keys derived from the
/// master password with it.
pub struct NewAccountKeys {
    pub salt: String,
    pub keys: OnboardKeys,
}

/// Onboards a new account: generates a random salt (22 characters of the
/// salt alphabet) and derives the registration key and the local verifier
/// from the master password with it.
pub fn new_account_keys(password: &str) -> (acct: NewAccountKeys)
    requires
        password.spec_bytes().len() <= 0xffff_ffff,
    ensures
        valid_salt_text(acct.salt@),
        acct.salt@.len() == 22,
        acct.keys.verification_subkey@ == verifier_spec(password@, acct.salt@),
        acct.keys.auth_subkey@ == subkey_spec(master_key_spec(password@, acct.salt@), authentication_info()),
{
    let salt = generate_salt();
    let salt_text = salt.as_str();
    proof {
        lemma_salt_is_ascii(salt_text);
    }
    let mut root_key = derive_master_key(password, salt_text);
    let auth_subkey = derive_subkey(&root_key, "arcan-authentication");
    let verification_subkey = derive_subkey(&root_key, "arcan-verification");
    wipe_key(&mut root_key);
    NewAccountKeys { salt, keys: OnboardKeys { auth_subkey, verification_subkey } }
}

/// The error `session_from_env_text` gives for text that is not Base64.
pub open spec fn session_env_error() -> Seq<char> {
    "Failed to decode session from environment variable."@
}

/// Frames a serialised session for the `ARCAN_SESSION` environment
/// variable: the serialised bytes in standard Base64.
pub fn session_env_text(serialized: &[u8]) -> (text: String)
    ensures
        text@ == base64_standard_encode(serialized@),
{
    base64_encode(serialized)
}

/// Reads the serialised session back from the environment variable's
/// text.
pub fn session_from_env_text(text: &str) -> (res: Result<Vec<u8>, String>)
    ensures
        match base64_standard_decode(text@) {
            Some(b) => res matches Ok(v) && v@ == b,
            None => res matches Err(e) && e@ == session_env_error(),
        },
{
    match base64_decode(text) {
        Some(v) => Ok(v),
        None => Err(String::from_str("Failed to decode session from environment variable.")),
    }
}

/// What the environment variable holds of a session reads back unchanged.
pub proof fn law_session_env_roundtrip(serialized: Seq<u8>)
    ensures
        base64_standard_decode(base64_standard_encode(serialized)) == Some(serialized),
{
    crate::encoding::lemma_decode_encode(serialized);
}

/// The keys of a session: what `encryption_key` and `authentication_key`
/// give back.
pub open spec fn session_keys_spec(kek: Seq<char>, auth: Seq<char>) -> (Option<Seq<u8>>, Option<Seq<u8>>) {
    (session_key_spec(kek), session_key_spec(auth))
}

/// Onboarding and unlocking agree: the verifier stored at onboarding lets
/// the same master password unlock, and the unlocked session decodes to
/// the encryption and authentication subkeys of the root key that password
/// and salt derive.
pub proof fn law_onboarded_password_unlocks(salt: Seq<char>, password: Seq<char>)
    requires
        valid_salt_text(salt),
    ensures
        unlock_spec(salt, password, verifier_spec(password, salt)) matches Ok((kek, auth)) && session_keys_spec(
            kek,
            auth,
        ) == (
            Some(subkey_spec(master_key_spec(password, salt), encryption_info())),
            Some(subkey_spec(master_key_spec(password, salt), authentication_info())),
        ),
{
    let root = master_key_spec(password, salt);
    crate::encoding::lemma_decode_encode(subkey_spec(root, encryption_info()));
    crate::encoding::lemma_decode_encode(subkey_spec(root, authentication_info()));
}

/// Unlocking refuses every verifier but the one the password and salt
/// derive.
pub proof fn law_unlock_checks_verifier(salt: Seq<char>, password: Seq<char>, verifier: Seq<u8>)
    requires
        valid_salt_text(salt),
    ensures
        unlock_spec(salt, password, verifier) is Ok <==> verifier == verifier_spec(password, salt),
{
}

} // verus!
