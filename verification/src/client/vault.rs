//! Vaults: each has a random vault sync key (VSK), stored encrypted under
//! the user's key-encryption key (KEK); the vault's name is encrypted under
//! its VSK. Both use the vault id as associated data.

use vstd::prelude::*;
use vstd::string::StringSliceAdditionalSpecFns;

use crate::crypto::{
    encrypt_payload, decrypt_payload, opened_payload, os_random_bytes, seal_accepts,
    unpacked_parts, CryptoError, EncryptedPayload,
};
use crate::ids::{is_version4, new_uuid_v4, uuid_parse, uuid_parse_spec, uuid_text, uuid_to_string};
use crate::text::{lemma_valid_up_to_unique, utf8_error_len, utf8_to_string, utf8_valid_up_to};

verus! {

/// Errors of the client's vault and item handling.
#[derive(Debug, PartialEq, Eq, Structural, Clone, Copy)]
pub enum ClientError {
    /// Stored ciphertext too short to hold a nonce and a tag.
    PayloadTooShort,
    /// The vault key did not decrypt under the KEK.
    VskDecryptFailed,
    /// The vault key decrypted to something other than 32 bytes.
    VskWrongLength,
    /// The vault name did not decrypt under the vault key.
    NameDecryptFailed,
    /// An item payload did not decrypt under the vault key.
    ItemDecryptFailed,
    /// Decrypted text that is not UTF-8: the length of its longest valid
    /// prefix, and the length of the invalid sequence after it (`None` where
    /// the text ends inside a sequence).
    InvalidUtf8 { valid_up_to: usize, error_len: Option<u8> },
    /// There is no vault at all.
    NoVaults,
    /// No vault has the given name.
    VaultNotFound,
    /// The vault holds no item.
    NoItems,
    /// No item of the vault has the given title.
    ItemNotFound,
}

/// The message the command line prints for an error.
pub open spec fn client_error_message(e: ClientError) -> Seq<char> {
    match e {
        ClientError::PayloadTooShort => "Payload too short to be valid XChaCha20Poly1305"@,
        ClientError::VskDecryptFailed => "Failed to decrypt VSK."@,
        ClientError::VskWrongLength => "Invalid VSK length after decryption"@,
        ClientError::NameDecryptFailed => "Failed to decrypt vault name."@,
        ClientError::ItemDecryptFailed => "Failed to decrypt item payload."@,
        ClientError::InvalidUtf8 { .. } => "invalid utf-8 sequence"@,
        ClientError::NoVaults => "No vaults found."@,
        ClientError::VaultNotFound => "No vault found with the given name"@,
        ClientError::NoItems => "No items found in this vault."@,
        ClientError::ItemNotFound => "No item found with the given title in this vault."@,
    }
}

impl ClientError {
    /// The message the command line prints (for `VaultNotFound` the caller
    /// adds the name that was looked for, and for `InvalidUtf8` where the
    /// text stops being UTF-8).
    pub fn message(&self) -> (m: &'static str)
        ensures
            m@ == client_error_message(*self),
    {
        match self {
            ClientError::PayloadTooShort => "Payload too short to be valid XChaCha20Poly1305",
            ClientError::VskDecryptFailed => "Failed to decrypt VSK.",
            ClientError::VskWrongLength => "Invalid VSK length after decryption",
            ClientError::NameDecryptFailed => "Failed to decrypt vault name.",
            ClientError::ItemDecryptFailed => "Failed to decrypt item payload.",
            ClientError::InvalidUtf8 { .. } => "invalid utf-8 sequence",
            ClientError::NoVaults => "No vaults found.",
            ClientError::VaultNotFound => "No vault found with the given name",
            ClientError::NoItems => "No items found in this vault.",
            ClientError::ItemNotFound => "No item found with the given title in this vault.",
        }
    }
}

/// The vault key stored as `encrypted_vsk` for vault `vault_id`, opened
/// with the KEK.
pub open spec fn vault_key_spec(kek: Seq<u8>, encrypted_vsk: Seq<u8>, vault_id: Seq<char>) -> Result<
    Seq<u8>,
    ClientError,
> {
    match unpacked_parts(encrypted_vsk) {
        None => Err(ClientError::PayloadTooShort),
        Some((nonce, ct)) => match opened_payload(kek, nonce, ct, vault_id) {
            None => Err(ClientError::VskDecryptFailed),
            Some(vsk) => if vsk.len() == 32 {
                Ok(vsk)
            } else {
                Err(ClientError::VskWrongLength)
            },
        },
    }
}

/// The name of a vault, opened with the KEK through the vault key.
pub open spec fn vault_name_spec(
    kek: Seq<u8>,
    vault_id: Seq<char>,
    encrypted_name: Seq<u8>,
    encrypted_vsk: Seq<u8>,
) -> Result<Seq<char>, ClientError> {
    match vault_key_spec(kek, encrypted_vsk, vault_id) {
        Err(e) => Err(e),
        Ok(vsk) => match unpacked_parts(encrypted_name) {
            None => Err(ClientError::PayloadTooShort),
            Some((nonce, ct)) => match opened_payload(vsk, nonce, ct, vault_id) {
                None => Err(ClientError::NameDecryptFailed),
                Some(bytes) => if vstd::utf8::valid_utf8(bytes) {
                    Ok(vstd::utf8::decode_utf8(bytes))
                } else {
                    Err(
                        ClientError::InvalidUtf8 {
                            valid_up_to: (choose|k: usize| utf8_valid_up_to(bytes, k as int)),
                            error_len: utf8_error_len(bytes),
                        },
                    )
                },
            },
        },
    }
}

fn array32_from(bytes: &Vec<u8>) -> (key: [u8; 32])
    requires
        bytes@.len() == 32,
    ensures
        key@ == bytes@,
{
    let mut key = [0u8; 32];
    for i in 0..32
        invariant
            bytes@.len() == 32,
            forall|j: int| 0 <= j < i ==> key[j] == bytes@[j],
    {
        key[i] = bytes[i];
    }
    assert(key@ =~= bytes@);
    key
}

/// Opens the vault key of a vault with the KEK.
pub fn decrypt_vsk(kek: &[u8; 32], encrypted_vsk: &[u8], vault_id: &str) -> (res: Result<[u8; 32], ClientError>)
    ensures
        match vault_key_spec(kek@, encrypted_vsk@, vault_id@) {
            Ok(vsk) => res matches Ok(k) && k@ == vsk,
            Err(e) => res == Err::<[u8; 32], ClientError>(e),
        },
{
    let payload = match EncryptedPayload::unpack(encrypted_vsk) {
        Ok(p) => p,
        Err(_) => return Err(ClientError::PayloadTooShort),
    };
    let vsk_bytes = match decrypt_payload(kek, &payload, vault_id) {
        Ok(b) => b,
        Err(_) => return Err(ClientError::VskDecryptFailed),
    };
    if vsk_bytes.len() != 32 {
        return Err(ClientError::VskWrongLength);
    }
    Ok(array32_from(&vsk_bytes))
}

/// Opens the name of a vault with the KEK.
pub fn open_vault_name(kek: &[u8; 32], vault_id: &str, encrypted_name: &[u8], encrypted_vsk: &[u8]) -> (res:
    Result<String, ClientError>)
    ensures
        match vault_name_spec(kek@, vault_id@, encrypted_name@, encrypted_vsk@) {
            Ok(name) => res matches Ok(s) && s@ == name,
            Err(e) => res matches Err(e2) && e2 == e,
        },
{
    let vsk = decrypt_vsk(kek, encrypted_vsk, vault_id)?;
    let payload = match EncryptedPayload::unpack(encrypted_name) {
        Ok(p) => p,
        Err(_) => return Err(ClientError::PayloadTooShort),
    };
    let name_bytes = match decrypt_payload(&vsk, &payload, vault_id) {
        Ok(b) => b,
        Err(_) => return Err(ClientError::NameDecryptFailed),
    };
    match utf8_to_string(name_bytes.as_slice()) {
        Ok(name) => Ok(name),
        Err((valid_up_to, error_len)) => {
            proof {
                let c = choose|k: usize| utf8_valid_up_to(name_bytes@, k as int);
                lemma_valid_up_to_unique(name_bytes@, c as int, valid_up_to as int);
            }
            Err(ClientError::InvalidUtf8 { valid_up_to, error_len })
        },
    }
}

/// The stored form of a new vault: its name and its key, each encrypted
/// and packed.
pub struct SealedVault {
    pub encrypted_name: Vec<u8>,
    pub encrypted_vsk: Vec<u8>,
}

/// Seals a vault: the vault key under the KEK, then the name under the vault
/// key, both bound to the vault id. What it returns opens back to the name.
pub fn seal_vault(kek: &[u8; 32], vsk: &[u8; 32], vault_id: &str, name: &str) -> (res: Result<
    SealedVault,
    CryptoError,
>)
    ensures
        res is Ok <==> seal_accepts(name.spec_bytes().len()),
        res matches Err(e) ==> e == CryptoError::EncryptionFailed,
        res matches Ok(s) ==> {
            &&& vault_key_spec(kek@, s.encrypted_vsk@, vault_id@) == Ok::<Seq<u8>, ClientError>(vsk@)
            &&& vault_name_spec(kek@, vault_id@, s.encrypted_name@, s.encrypted_vsk@) == Ok::<
                Seq<char>,
                ClientError,
            >(name@)
        },
{
    let vsk_payload = encrypt_payload(kek, vsk.as_slice(), vault_id)?;
    let encrypted_vsk = vsk_payload.pack();
    let name_payload = encrypt_payload(vsk, name.as_bytes(), vault_id)?;
    let encrypted_name = name_payload.pack();
    proof {
        crate::crypto::law_unpack_pack(vsk_payload.nonce@, vsk_payload.ciphertext@);
        crate::crypto::law_unpack_pack(name_payload.nonce@, name_payload.ciphertext@);
        vstd::utf8::encode_utf8_valid_utf8(name@);
        vstd::utf8::encode_utf8_decode_utf8(name@);
    }
    Ok(SealedVault { encrypted_name, encrypted_vsk })
}

/// A vault freshly created on this device.
pub struct NewVault {
    pub id: String,
    pub sealed: SealedVault,
}

/// Creates a vault: a random UUID as its id, a random vault key, and the
/// name and key sealed as `seal_vault` does.
pub fn create_vault(kek: &[u8; 32], name: &str) -> (res: Result<NewVault, CryptoError>)
    ensures
        res is Ok <==> seal_accepts(name.spec_bytes().len()),
        res matches Ok(v) ==> {
            &&& exists|u: u128| is_version4(u) && v.id@ == uuid_text(u)
            &&& vault_key_spec(kek@, v.sealed.encrypted_vsk@, v.id@) is Ok
            &&& vault_name_spec(kek@, v.id@, v.sealed.encrypted_name@, v.sealed.encrypted_vsk@) == Ok::<
                Seq<char>,
                ClientError,
            >(name@)
        },
{
    let uuid = new_uuid_v4();
    let id = uuid_to_string(uuid);
    let vsk: [u8; 32] = os_random_bytes();
    let sealed = seal_vault(kek, &vsk, id.as_str(), name)?;
    Ok(NewVault { id, sealed })
}

/// A stored vault as the resolver reads it.
pub struct VaultRecord {
    pub id: String,
    pub encrypted_name: Vec<u8>,
    pub encrypted_vsk: Vec<u8>,
}

/// Looks for the first vault, in order, whose name is `input`; a vault that
/// cannot be opened stops the search with its error.
pub open spec fn find_by_name_spec(kek: Seq<u8>, vaults: Seq<VaultRecord>, input: Seq<char>) -> Result<
    Seq<char>,
    ClientError,
>
    decreases vaults.len(),
{
    if vaults.len() == 0 {
        Err(ClientError::VaultNotFound)
    } else {
        let v = vaults[0];
        match vault_name_spec(kek, v.id@, v.encrypted_name@, v.encrypted_vsk@) {
            Err(e) => Err(e),
            Ok(n) => if n == input {
                Ok(v.id@)
            } else {
                find_by_name_spec(kek, vaults.drop_first(), input)
            },
        }
    }
}

/// The name of the `i`-th vault of `vaults`, opened with the KEK.
pub open spec fn vault_name_at(kek: Seq<u8>, vaults: Seq<VaultRecord>, i: int) -> Result<Seq<char>, ClientError> {
    vault_name_spec(kek, vaults[i].id@, vaults[i].encrypted_name@, vaults[i].encrypted_vsk@)
}

/// A vault name that opened and is not `input`.
pub open spec fn opens_to_other_name(r: Result<Seq<char>, ClientError>, input: Seq<char>) -> bool {
    r is Ok && r->Ok_0 != input
}

/// The search by name finds the first vault whose name is exactly the
/// input, all before it opening to other names; it fails with
/// `VaultNotFound` exactly when every vault opens to another name, and with
/// another error only when a vault before any match fails to open.
pub proof fn law_find_by_name(kek: Seq<u8>, vaults: Seq<VaultRecord>, input: Seq<char>)
    ensures
        match find_by_name_spec(kek, vaults, input) {
            Ok(id) => exists|i: int|
                0 <= i < vaults.len() && id == vaults[i].id@ && #[trigger] vault_name_at(kek, vaults, i) == Ok::<
                    Seq<char>,
                    ClientError,
                >(input) && forall|j: int| 0 <= j < i ==> opens_to_other_name(vault_name_at(kek, vaults, j), input),
            Err(e) => e != ClientError::VaultNotFound ==> exists|i: int|
                0 <= i < vaults.len() && #[trigger] vault_name_at(kek, vaults, i) == Err::<Seq<char>, ClientError>(e)
                    && forall|j: int| 0 <= j < i ==> opens_to_other_name(vault_name_at(kek, vaults, j), input),
        },
        find_by_name_spec(kek, vaults, input) == Err::<Seq<char>, ClientError>(ClientError::VaultNotFound)
            <==> forall|i: int|
            0 <= i < vaults.len() ==> opens_to_other_name(#[trigger] vault_name_at(kek, vaults, i), input),
    decreases vaults.len(),
{
    if vaults.len() > 0 {
        let rest = vaults.drop_first();
        law_find_by_name(kek, rest, input);
        assert forall|j: int| 0 <= j < rest.len() implies #[trigger] vault_name_at(kek, rest, j) == vault_name_at(
            kek,
            vaults,
            j + 1,
        ) by {
            assert(rest[j] == vaults[j + 1]);
        }
        let r = find_by_name_spec(kek, vaults, input);
        let first = vault_name_at(kek, vaults, 0);
        if first is Err || first->Ok_0 == input {
            assert(!opens_to_other_name(first, input));
        } else {
            assert(r == find_by_name_spec(kek, rest, input));
            match r {
                Ok(id) => {
                    let i = choose|i: int|
                        0 <= i < rest.len() && id == rest[i].id@ && #[trigger] vault_name_at(kek, rest, i) == Ok::<
                            Seq<char>,
                            ClientError,
                        >(input) && forall|j: int| 0 <= j < i ==> opens_to_other_name(vault_name_at(kek, rest, j), input);
                    assert(vault_name_at(kek, vaults, i + 1) == Ok::<Seq<char>, ClientError>(input));
                    assert forall|j: int| 0 <= j < i + 1 implies opens_to_other_name(vault_name_at(kek, vaults, j), input) by {
                        if j > 0 {
                            assert(vault_name_at(kek, rest, j - 1) == vault_name_at(kek, vaults, j));
                        }
                    }
                },
                Err(e) => {
                    if e != ClientError::VaultNotFound {
                        let i = choose|i: int|
                            0 <= i < rest.len() && #[trigger] vault_name_at(kek, rest, i) == Err::<Seq<char>, ClientError>(e)
                                && forall|j: int| 0 <= j < i ==> opens_to_other_name(vault_name_at(kek, rest, j), input);
                        assert(vault_name_at(kek, vaults, i + 1) == Err::<Seq<char>, ClientError>(e));
                        assert forall|j: int| 0 <= j < i + 1 implies opens_to_other_name(vault_name_at(kek, vaults, j), input) by {
                            if j > 0 {
                                assert(vault_name_at(kek, rest, j - 1) == vault_name_at(kek, vaults, j));
                            }
                        }
                    }
                },
            }
            if r == Err::<Seq<char>, ClientError>(ClientError::VaultNotFound) {
                assert forall|i: int| 0 <= i < vaults.len() implies opens_to_other_name(
                    #[trigger] vault_name_at(kek, vaults, i),
                    input,
                ) by {
                    if i > 0 {
                        assert(vault_name_at(kek, rest, i - 1) == vault_name_at(kek, vaults, i));
                    }
                }
            }
            if forall|i: int| 0 <= i < vaults.len() ==> opens_to_other_name(#[trigger] vault_name_at(kek, vaults, i), input) {
                assert forall|i: int| 0 <= i < rest.len() implies opens_to_other_name(
                    #[trigger] vault_name_at(kek, rest, i),
                    input,
                ) by {
                    assert(vault_name_at(kek, rest, i) == vault_name_at(kek, vaults, i + 1));
                }
            }
        }
    }
}

/// Finds the vault named `input`, opening the names one after another.
pub fn find_vault_by_name(kek: &[u8; 32], vaults: &Vec<VaultRecord>, input: &str) -> (res: Result<
    String,
    ClientError,
>)
    ensures
        match find_by_name_spec(kek@, vaults@, input@) {
            Ok(id) => res matches Ok(s) && s@ == id,
            Err(e) => res matches Err(e2) && e2 == e,
        },
        res matches Ok(id) ==> exists|i: int|
            0 <= i < vaults@.len() && id@ == vaults@[i].id@ && #[trigger] vault_name_at(kek@, vaults@, i) == Ok::<
                Seq<char>,
                ClientError,
            >(input@) && forall|j: int| 0 <= j < i ==> opens_to_other_name(vault_name_at(kek@, vaults@, j), input@),
        res == Err::<String, ClientError>(ClientError::VaultNotFound) <==> forall|i: int|
            0 <= i < vaults@.len() ==> opens_to_other_name(#[trigger] vault_name_at(kek@, vaults@, i), input@),
{
    let res = search_vaults_by_name(kek, vaults, input);
    proof {
        law_find_by_name(kek@, vaults@, input@);
    }
    res
}

fn search_vaults_by_name(kek: &[u8; 32], vaults: &Vec<VaultRecord>, input: &str) -> (res: Result<String, ClientError>)
    ensures
        match find_by_name_spec(kek@, vaults@, input@) {
            Ok(id) => res matches Ok(s) && s@ == id,
            Err(e) => res matches Err(e2) && e2 == e,
        },
{
    let n = vaults.len();
    let target = input.to_string();
    assert(vaults@.subrange(0, n as int) == vaults@);
    for i in 0..n
        invariant
            n == vaults@.len(),
            target@ == input@,
            find_by_name_spec(kek@, vaults@, input@) == find_by_name_spec(
                kek@,
                vaults@.subrange(i as int, n as int),
                input@,
            ),
    {
        let v = &vaults[i];
        let ghost rest = vaults@.subrange(i as int, n as int);
        assert(rest[0] == vaults@[i as int]);
        assert(rest.drop_first() == vaults@.subrange(i + 1, n as int));
        let name = open_vault_name(kek, v.id.as_str(), v.encrypted_name.as_slice(), v.encrypted_vsk.as_slice())?;
        if name == target {
            let id = v.id.clone();
            assert(id@ == vaults@[i as int].id@);
            return Ok(id);
        }
    }
    assert(vaults@.subrange(n as int, n as int).len() == 0);
    Err(ClientError::VaultNotFound)
}

/// How the vault argument of a command is resolved: with no vault at all it
/// fails; an argument that parses as a UUID is taken as the id; any other
/// argument is looked up by name; without an argument the user must choose
/// (`Ok(None)`).
pub open spec fn resolve_vault_spec(kek: Seq<u8>, vaults: Seq<VaultRecord>, provided: Option<Seq<char>>) -> Result<
    Option<Seq<char>>,
    ClientError,
> {
    if vaults.len() == 0 {
        Err(ClientError::NoVaults)
    } else {
        match provided {
            None => Ok(None),
            Some(input) => if uuid_parse_spec(input) is Some {
                Ok(Some(input))
            } else {
                match find_by_name_spec(kek, vaults, input) {
                    Ok(id) => Ok(Some(id)),
                    Err(e) => Err(e),
                }
            },
        }
    }
}

/// Resolves the vault argument of a command (see `resolve_vault_spec`).
pub fn resolve_vault(kek: &[u8; 32], vaults: &Vec<VaultRecord>, provided: Option<String>) -> (res: Result<
    Option<String>,
    ClientError,
>)
    ensures
        match resolve_vault_spec(kek@, vaults@, match provided { Some(p) => Some(p@), None => None }) {
            Ok(Some(id)) => res matches Ok(Some(s)) && s@ == id,
            Ok(None) => res matches Ok(None),
            Err(e) => res matches Err(e2) && e2 == e,
        },
        (provided matches Some(p) && uuid_parse_spec(p@) is None && res is Ok && res->Ok_0 is Some) ==> exists|i: int|
            0 <= i < vaults@.len() && res->Ok_0->0@ == vaults@[i].id@ && #[trigger] vault_name_at(kek@, vaults@, i) == Ok::<
                Seq<char>,
                ClientError,
            >(provided->0@),
{
    proof {
        if provided is Some {
            law_find_by_name(kek@, vaults@, provided->0@);
        }
    }
    if vaults.len() == 0 {
        return Err(ClientError::NoVaults);
    }
    match provided {
        None => Ok(None),
        Some(input) => {
            if uuid_parse(input.as_str()).is_some() {
                return Ok(Some(input));
            }
            let id = find_vault_by_name(kek, vaults, input.as_str())?;
            Ok(Some(id))
        },
    }
}

/// The names of all vaults, in order, each with its id, for the user to
/// choose from; the first vault that cannot be opened stops with its error.
pub fn vault_choices(kek: &[u8; 32], vaults: &Vec<VaultRecord>) -> (res: Result<Vec<(String, String)>, ClientError>)
    ensures
        res matches Ok(c) ==> c@.len() == vaults@.len() && forall|i: int|
            0 <= i < vaults@.len() ==> {
                &&& vault_name_spec(
                    kek@,
                    vaults@[i].id@,
                    vaults@[i].encrypted_name@,
                    vaults@[i].encrypted_vsk@,
                ) == Ok::<Seq<char>, ClientError>(#[trigger] c@[i].0@)
                &&& c@[i].1@ == vaults@[i].id@
            },
        res matches Err(e) ==> exists|i: int|
            0 <= i < vaults@.len() && vault_name_spec(
                kek@,
                vaults@[i].id@,
                vaults@[i].encrypted_name@,
                vaults@[i].encrypted_vsk@,
            ) == Err::<Seq<char>, ClientError>(e) && forall|j: int|
                0 <= j < i ==> (#[trigger] vault_name_spec(
                    kek@,
                    vaults@[j].id@,
                    vaults@[j].encrypted_name@,
                    vaults@[j].encrypted_vsk@,
                )) is Ok,
{
    let mut choices: Vec<(String, String)> = Vec::new();
    let n = vaults.len();
    for i in 0..n
        invariant
            n == vaults@.len(),
            choices@.len() == i,
            forall|k: int|
                0 <= k < i ==> vault_name_spec(
                    kek@,
                    vaults@[k].id@,
                    vaults@[k].encrypted_name@,
                    vaults@[k].encrypted_vsk@,
                ) == Ok::<Seq<char>, ClientError>(#[trigger] choices@[k].0@),
            forall|k: int| 0 <= k < i ==> (#[trigger] choices@[k]).1@ == vaults@[k].id@,
    {
        let v = &vaults[i];
        match open_vault_name(kek, v.id.as_str(), v.encrypted_name.as_slice(), v.encrypted_vsk.as_slice()) {
            Ok(name) => {
                let id = v.id.clone();
                choices.push((name, id));
                assert(choices@[i as int].1@ == vaults@[i as int].id@);
            },
            Err(e) => {
                assert forall|j: int| 0 <= j < i implies (#[trigger] vault_name_spec(
                    kek@,
                    vaults@[j].id@,
                    vaults@[j].encrypted_name@,
                    vaults@[j].encrypted_vsk@,
                )) is Ok by {
                    let name = choices@[j].0@;
                    assert(vault_name_spec(
                        kek@,
                        vaults@[j].id@,
                        vaults@[j].encrypted_name@,
                        vaults@[j].encrypted_vsk@,
                    ) == Ok::<Seq<char>, ClientError>(name));
                }
                return Err(e);
            },
        }
    }
    Ok(choices)
}

} // verus!
