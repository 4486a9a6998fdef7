//! Items: a titled envelope around one typed payload, serialised and
//! encrypted under the vault key with the item id as associated data.

use vstd::prelude::*;

use crate::client::vault::ClientError;
use crate::crypto::{
    encrypt_payload, decrypt_payload, opened_payload, seal_accepts, unpacked_parts,
    CryptoError, EncryptedPayload,
};
use crate::ids::{is_version4, new_uuid_v4, uuid_parse, uuid_parse_spec, uuid_text, uuid_to_string};

verus! {

/// The root wrapper stored (serialised, then encrypted) for every item.
pub struct ItemEnvelope {
    pub title: String,
    pub tags: Vec<String>,
    pub payload: ItemPayload,
}

/// The typed contents of an item.
pub enum ItemPayload {
    Login(LoginItem),
    SshKey(SshKeyItem),
    Totp(TotpItem),
    Note(NoteItem),
    Card(CardItem),
}

/// A website login.
pub struct LoginItem {
    pub username: String,
    pub password: String,
    pub url: Option<String>,
}

/// A TOTP secret.
pub struct TotpItem {
    pub secret: String,
    pub account_name: Option<String>,
    pub issuer: Option<String>,
}

/// An SSH key pair.
pub struct SshKeyItem {
    pub private_key: String,
    pub public_key: Option<String>,
    pub passphrase: Option<String>,
    pub hostname: Option<String>,
}

/// A free-text note.
pub struct NoteItem {
    pub content: String,
}

/// A payment card; the number is stored without spaces.
pub struct CardItem {
    pub cardholder_name: String,
    pub number: String,
    pub exp_month: u8,
    pub exp_year: u16,
    pub cvv: String,
}

/// The kinds of item the interactive creation offers, in menu order.
#[derive(Debug, PartialEq, Eq, Structural, Clone, Copy)]
pub enum ItemType {
    Login,
    TOTP,
    SshKey,
    Note,
    Card,
}

impl ItemType {
    /// How the menu shows a kind.
    pub fn label(&self) -> (s: &'static str)
        ensures
            s@ == item_type_label_spec(*self),
            *self == ItemType::Login ==> s@ == "Login"@,
            *self == ItemType::SshKey ==> s@ == "SSH Key"@,
            *self == ItemType::TOTP ==> s@ == "TOTP"@,
            *self == ItemType::Note ==> s@ == "Note"@,
            *self == ItemType::Card ==> s@ == "Card"@,
    {
        match self {
            ItemType::Note => "Note",
            ItemType::Login => "Login",
            ItemType::SshKey => "SSH Key",
            ItemType::Card => "Card",
            ItemType::TOTP => "TOTP",
        }
    }

    /// The kinds in menu order.
    pub fn menu() -> (kinds: Vec<ItemType>)
        ensures
            kinds@ == seq![ItemType::Login, ItemType::TOTP, ItemType::SshKey, ItemType::Note, ItemType::Card],
    {
        let mut kinds: Vec<ItemType> = Vec::new();
        kinds.push(ItemType::Login);
        kinds.push(ItemType::TOTP);
        kinds.push(ItemType::SshKey);
        kinds.push(ItemType::Note);
        kinds.push(ItemType::Card);
        kinds
    }
}

/// The label of a kind of item.
pub open spec fn item_type_label_spec(t: ItemType) -> Seq<char> {
    match t {
        ItemType::Note => "Note"@,
        ItemType::Login => "Login"@,
        ItemType::SshKey => "SSH Key"@,
        ItemType::Card => "Card"@,
        ItemType::TOTP => "TOTP"@,
    }
}

/// The kind of an item's payload.
pub open spec fn payload_type(p: ItemPayload) -> ItemType {
    match p {
        ItemPayload::Login(_) => ItemType::Login,
        ItemPayload::SshKey(_) => ItemType::SshKey,
        ItemPayload::Totp(_) => ItemType::TOTP,
        ItemPayload::Note(_) => ItemType::Note,
        ItemPayload::Card(_) => ItemType::Card,
    }
}

impl ItemPayload {
    /// The kind of this payload.
    pub fn item_type(&self) -> (t: ItemType)
        ensures
            t == payload_type(*self),
            *self is Login ==> t == ItemType::Login,
            *self is SshKey ==> t == ItemType::SshKey,
            *self is Totp ==> t == ItemType::TOTP,
            *self is Note ==> t == ItemType::Note,
            *self is Card ==> t == ItemType::Card,
    {
        match self {
            ItemPayload::Login(_) => ItemType::Login,
            ItemPayload::SshKey(_) => ItemType::SshKey,
            ItemPayload::Totp(_) => ItemType::TOTP,
            ItemPayload::Note(_) => ItemType::Note,
            ItemPayload::Card(_) => ItemType::Card,
        }
    }

    /// The type column of the item list.
    pub fn type_label(&self) -> (s: &'static str)
        ensures
            s@ == item_type_label_spec(payload_type(*self)),
            *self is Login ==> s@ == "Login"@,
            *self is SshKey ==> s@ == "SSH Key"@,
            *self is Totp ==> s@ == "TOTP"@,
            *self is Note ==> s@ == "Note"@,
            *self is Card ==> s@ == "Card"@,
    {
        self.item_type().label()
    }
}

/// An optional answer: an empty answer means none.
pub open spec fn optional_answer_spec(answer: Seq<char>) -> Option<Seq<char>> {
    if answer.len() == 0 {
        None
    } else {
        Some(answer)
    }
}

/// Turns an optional answer into an optional field: empty means absent.
pub fn optional_answer(answer: String) -> (field: Option<String>)
    ensures
        match optional_answer_spec(answer@) {
            None => field is None,
            Some(a) => field matches Some(f) && f@ == a,
        },
{
    if answer.as_str().is_empty() {
        None
    } else {
        Some(answer)
    }
}

/// The payload of a new login; an empty URL means none.
pub fn login_payload(username: String, password: String, url: String) -> (p: ItemPayload)
    ensures
        p matches ItemPayload::Login(l) && l.username == username && l.password == password && match optional_answer_spec(url@) {
            None => l.url is None,
            Some(u) => l.url matches Some(f) && f@ == u,
        },
{
    ItemPayload::Login(LoginItem { username, password, url: optional_answer(url) })
}

/// The payload of a new TOTP secret; an empty account name means none, and
/// no issuer is recorded.
pub fn totp_payload(secret: String, account_name: String) -> (p: ItemPayload)
    ensures
        p matches ItemPayload::Totp(t) && t.secret == secret && t.issuer is None && match optional_answer_spec(account_name@) {
            None => t.account_name is None,
            Some(a) => t.account_name matches Some(f) && f@ == a,
        },
{
    ItemPayload::Totp(TotpItem { secret, account_name: optional_answer(account_name), issuer: None })
}

/// The payload of a new SSH key; an empty public key means none, and no
/// passphrase or host is recorded.
pub fn ssh_key_payload(public_key: String, private_key: String) -> (p: ItemPayload)
    ensures
        p matches ItemPayload::SshKey(k) && k.private_key == private_key && k.passphrase is None
            && k.hostname is None && match optional_answer_spec(public_key@) {
            None => k.public_key is None,
            Some(a) => k.public_key matches Some(f) && f@ == a,
        },
{
    ItemPayload::SshKey(
        SshKeyItem { private_key, public_key: optional_answer(public_key), passphrase: None, hostname: None },
    )
}

/// The payload of a new note.
pub fn note_payload(content: String) -> (p: ItemPayload)
    ensures
        p matches ItemPayload::Note(n) && n.content == content,
{
    ItemPayload::Note(NoteItem { content })
}

/// The payload of a new card.
pub fn card_payload(cardholder_name: String, number: String, exp_month: u8, exp_year: u16, cvv: String) -> (p:
    ItemPayload)
    ensures
        p matches ItemPayload::Card(c) && c.cardholder_name == cardholder_name && c.number == number
            && c.exp_month == exp_month && c.exp_year == exp_year && c.cvv == cvv,
{
    ItemPayload::Card(CardItem { cardholder_name, number, exp_month, exp_year, cvv })
}

/// A new item's envelope: the title, no tags, the payload.
pub fn new_envelope(title: String, payload: ItemPayload) -> (e: ItemEnvelope)
    ensures
        e.title == title,
        e.tags@.len() == 0,
        e.payload == payload,
{
    ItemEnvelope { title, tags: Vec::new(), payload }
}

/// The plaintext of a stored item, opened with the vault key.
pub open spec fn item_plaintext_spec(vsk: Seq<u8>, item_id: Seq<char>, packed: Seq<u8>) -> Result<
    Seq<u8>,
    ClientError,
> {
    match unpacked_parts(packed) {
        None => Err(ClientError::PayloadTooShort),
        Some((nonce, ct)) => match opened_payload(vsk, nonce, ct, item_id) {
            None => Err(ClientError::ItemDecryptFailed),
            Some(p) => Ok(p),
        },
    }
}

/// Opens a stored item with the vault key.
pub fn open_item(vsk: &[u8; 32], item_id: &str, packed: &[u8]) -> (res: Result<Vec<u8>, ClientError>)
    ensures
        match item_plaintext_spec(vsk@, item_id@, packed@) {
            Ok(p) => res matches Ok(v) && v@ == p,
            Err(e) => res matches Err(e2) && e2 == e,
        },
{
    let payload = match EncryptedPayload::unpack(packed) {
        Ok(p) => p,
        Err(_) => return Err(ClientError::PayloadTooShort),
    };
    match decrypt_payload(vsk, &payload, item_id) {
        Ok(p) => Ok(p),
        Err(_) => Err(ClientError::ItemDecryptFailed),
    }
}

/// Seals an item's serialised envelope under the vault key, bound to the
/// item id; what it returns opens back to the same bytes.
pub fn seal_item(vsk: &[u8; 32], item_id: &str, plaintext: &[u8]) -> (res: Result<Vec<u8>, CryptoError>)
    ensures
        res is Ok <==> seal_accepts(plaintext@.len()),
        res matches Err(e) ==> e == CryptoError::EncryptionFailed,
        res matches Ok(packed) ==> item_plaintext_spec(vsk@, item_id@, packed@) == Ok::<
            Seq<u8>,
            ClientError,
        >(plaintext@),
{
    let payload = encrypt_payload(vsk, plaintext, item_id)?;
    let packed = payload.pack();
    proof {
        crate::crypto::law_unpack_pack(payload.nonce@, payload.ciphertext@);
    }
    Ok(packed)
}

/// A new item ready to store: its random id and its sealed envelope.
pub struct NewItem {
    pub id: String,
    pub encrypted_payload: Vec<u8>,
}

/// Seals a new item under a fresh random UUID.
pub fn seal_new_item(vsk: &[u8; 32], plaintext: &[u8]) -> (res: Result<NewItem, CryptoError>)
    ensures
        res is Ok <==> seal_accepts(plaintext@.len()),
        res matches Ok(it) ==> {
            &&& exists|u: u128| is_version4(u) && it.id@ == uuid_text(u)
            &&& item_plaintext_spec(vsk@, it.id@, it.encrypted_payload@) == Ok::<Seq<u8>, ClientError>(
                plaintext@,
            )
        },
{
    let id = uuid_to_string(new_uuid_v4());
    let encrypted_payload = seal_item(vsk, id.as_str(), plaintext)?;
    Ok(NewItem { id, encrypted_payload })
}

/// How the item argument of a command is taken.
pub enum ItemQuery {
    /// The argument is an item id.
    ById(String),
    /// The argument is looked up among the titles of the vault's items.
    ByTitle(String),
    /// No argument: the user chooses from the vault's items.
    Choose,
}

/// The abstract form of an item query.
pub ghost enum ItemQueryModel {
    ById(Seq<char>),
    ByTitle(Seq<char>),
    Choose,
}

impl View for ItemQuery {
    type V = ItemQueryModel;

    open spec fn view(&self) -> ItemQueryModel {
        match self {
            ItemQuery::ById(s) => ItemQueryModel::ById(s@),
            ItemQuery::ByTitle(s) => ItemQueryModel::ByTitle(s@),
            ItemQuery::Choose => ItemQueryModel::Choose,
        }
    }
}

/// How the item argument is resolved against a vault holding `item_count`
/// items: an empty vault fails; an argument that parses as a UUID is an id;
/// any other argument is a title; without an argument the user chooses.
pub open spec fn item_query_spec(item_count: nat, provided: Option<Seq<char>>) -> Result<
    ItemQueryModel,
    ClientError,
> {
    if item_count == 0 {
        Err(ClientError::NoItems)
    } else {
        match provided {
            None => Ok(ItemQueryModel::Choose),
            Some(input) => if uuid_parse_spec(input) is Some {
                Ok(ItemQueryModel::ById(input))
            } else {
                Ok(ItemQueryModel::ByTitle(input))
            },
        }
    }
}

/// Decides how the item argument of a command is resolved (see
/// `item_query_spec`).
pub fn item_query(item_count: usize, provided: Option<String>) -> (res: Result<ItemQuery, ClientError>)
    ensures
        match item_query_spec(item_count as nat, match provided { Some(p) => Some(p@), None => None }) {
            Ok(q) => res matches Ok(r) && r@ == q,
            Err(e) => res matches Err(e2) && e2 == e,
        },
        res is Err <==> item_count == 0,
        item_count == 0 ==> res == Err::<ItemQuery, ClientError>(ClientError::NoItems),
        item_count > 0 && provided is None ==> res matches Ok(ItemQuery::Choose),
        item_count > 0 && provided is Some ==> (res is Ok && res->Ok_0@ == (if uuid_parse_spec(provided->0@) is Some {
            ItemQueryModel::ById(provided->0@)
        } else {
            ItemQueryModel::ByTitle(provided->0@)
        })),
{
    proof {
        law_item_query_rules(item_count as nat, match provided { Some(ref p) => Some(p@), None => None });
    }
    if item_count == 0 {
        return Err(ClientError::NoItems);
    }
    match provided {
        None => Ok(ItemQuery::Choose),
        Some(input) => {
            if uuid_parse(input.as_str()).is_some() {
                Ok(ItemQuery::ById(input))
            } else {
                Ok(ItemQuery::ByTitle(input))
            }
        },
    }
}

/// How the item argument is resolved: it fails, with `NoItems`, exactly
/// when the vault holds no item; otherwise no argument means choosing, an
/// argument that parses as a UUID is an id, and any other argument is
/// looked up as a title.
pub proof fn law_item_query_rules(item_count: nat, provided: Option<Seq<char>>)
    ensures
        item_query_spec(item_count, provided) is Err <==> item_count == 0,
        item_count == 0 ==> item_query_spec(item_count, provided) == Err::<ItemQueryModel, ClientError>(
            ClientError::NoItems,
        ),
        item_count > 0 && provided is None ==> item_query_spec(item_count, provided) == Ok::<
            ItemQueryModel,
            ClientError,
        >(ItemQueryModel::Choose),
        item_count > 0 && provided is Some ==> item_query_spec(item_count, provided) == Ok::<
            ItemQueryModel,
            ClientError,
        >(
            if uuid_parse_spec(provided->0) is Some {
                ItemQueryModel::ById(provided->0)
            } else {
                ItemQueryModel::ByTitle(provided->0)
            },
        ),
{
}

/// Each payload has the kind of its variant, shown under that kind's
/// label: a login as "Login", an SSH key as "SSH Key", a TOTP secret as
/// "TOTP", a note as "Note", a card as "Card".
pub proof fn law_payload_kinds(p: ItemPayload)
    ensures
        p is Login ==> payload_type(p) == ItemType::Login && item_type_label_spec(payload_type(p)) == "Login"@,
        p is SshKey ==> payload_type(p) == ItemType::SshKey && item_type_label_spec(payload_type(p))
            == "SSH Key"@,
        p is Totp ==> payload_type(p) == ItemType::TOTP && item_type_label_spec(payload_type(p)) == "TOTP"@,
        p is Note ==> payload_type(p) == ItemType::Note && item_type_label_spec(payload_type(p)) == "Note"@,
        p is Card ==> payload_type(p) == ItemType::Card && item_type_label_spec(payload_type(p)) == "Card"@,
{
}

} // verus!
