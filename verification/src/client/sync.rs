//! The client's side of sync: local rows to push, pulled entries to store,
//! and the revisions the client already holds.

use std::collections::HashMap;
use vstd::prelude::*;

use crate::encoding::{
    base64_decode, base64_encode, base64_standard_decode, base64_standard_encode, lemma_decode_encode,
};
use crate::ids::{uuid_parse, uuid_parse_spec, uuid_text, uuid_to_string};
use crate::shared::{ItemPull, ItemPush, PushRequest, VaultPull, VaultPush};

verus! {

broadcast use vstd::std_specs::hash::group_hash_axioms;

/// A vault row of the local store.
pub struct LocalVault {
    pub id: String,
    pub encrypted_name: Vec<u8>,
    pub encrypted_vsk: Vec<u8>,
    pub server_revision: i64,
    pub is_deleted: i64,
    pub created_at: i64,
    pub updated_at: i64,
}

/// An item row of the local store.
pub struct LocalItem {
    pub id: String,
    pub vault_id: String,
    pub encrypted_payload: Vec<u8>,
    pub server_revision: i64,
    pub is_deleted: i64,
    pub created_at: i64,
    pub updated_at: i64,
}

/// Why a sync step failed.
#[derive(Debug, PartialEq, Eq, Structural, Clone, Copy)]
pub enum SyncError {
    /// A stored id is not a UUID.
    InvalidId,
    /// The server sent a field that is not valid Base64.
    InvalidBase64,
}

/// `p` is what the local vault `v` is pushed as, `v`'s id naming `id`.
pub open spec fn vault_pushed_as(v: LocalVault, p: VaultPush) -> bool {
    &&& uuid_parse_spec(v.id@) == Some(p.id)
    &&& p.base_revision == v.server_revision
    &&& p.is_deleted == (v.is_deleted != 0)
    &&& p.encrypted_name@ == base64_standard_encode(v.encrypted_name@)
    &&& p.encrypted_vsk@ == base64_standard_encode(v.encrypted_vsk@)
    &&& p.created_at == v.created_at
    &&& p.updated_at == v.updated_at
}

/// `p` is what the local item `i` is pushed as.
pub open spec fn item_pushed_as(i: LocalItem, p: ItemPush) -> bool {
    &&& uuid_parse_spec(i.id@) == Some(p.id)
    &&& uuid_parse_spec(i.vault_id@) == Some(p.vault_id)
    &&& p.base_revision == i.server_revision
    &&& p.is_deleted == (i.is_deleted != 0)
    &&& p.encrypted_payload matches Some(t) && t@ == base64_standard_encode(i.encrypted_payload@)
    &&& p.created_at == i.created_at
    &&& p.updated_at == i.updated_at
}

/// Whether a local vault row can be pushed (its id is a UUID).
pub open spec fn vault_pushable(v: LocalVault) -> bool {
    uuid_parse_spec(v.id@) is Some
}

/// Whether a local item row can be pushed (its ids are UUIDs).
pub open spec fn item_pushable(i: LocalItem) -> bool {
    uuid_parse_spec(i.id@) is Some && uuid_parse_spec(i.vault_id@) is Some
}

/// A local vault as it is pushed.
pub fn vault_push_from_local(v: &LocalVault) -> (res: Result<VaultPush, SyncError>)
    ensures
        vault_pushable(*v) <==> res is Ok,
        res matches Ok(p) ==> vault_pushed_as(*v, p),
        res matches Err(e) ==> e == SyncError::InvalidId,
{
    let id = match uuid_parse(v.id.as_str()) {
        Some(u) => u,
        None => return Err(SyncError::InvalidId),
    };
    Ok(VaultPush {
        id,
        base_revision: v.server_revision,
        is_deleted: v.is_deleted != 0,
        encrypted_name: base64_encode(v.encrypted_name.as_slice()),
        encrypted_vsk: base64_encode(v.encrypted_vsk.as_slice()),
        created_at: v.created_at,
        updated_at: v.updated_at,
    })
}

/// A local item as it is pushed; the payload is always sent.
pub fn item_push_from_local(i: &LocalItem) -> (res: Result<ItemPush, SyncError>)
    ensures
        item_pushable(*i) <==> res is Ok,
        res matches Ok(p) ==> item_pushed_as(*i, p),
        res matches Err(e) ==> e == SyncError::InvalidId,
{
    let id = match uuid_parse(i.id.as_str()) {
        Some(u) => u,
        None => return Err(SyncError::InvalidId),
    };
    let vault_id = match uuid_parse(i.vault_id.as_str()) {
        Some(u) => u,
        None => return Err(SyncError::InvalidId),
    };
    Ok(ItemPush {
        id,
        vault_id,
        base_revision: i.server_revision,
        is_deleted: i.is_deleted != 0,
        encrypted_payload: Some(base64_encode(i.encrypted_payload.as_slice())),
        created_at: i.created_at,
        updated_at: i.updated_at,
    })
}

/// The push request for the changed (dirty) local rows, or `None` when
/// nothing changed. Any row whose id is not a UUID fails the whole push.
pub fn build_push_request(vaults: &Vec<LocalVault>, items: &Vec<LocalItem>) -> (res: Result<
    Option<PushRequest>,
    SyncError,
>)
    ensures
        res is Err <==> (exists|i: int| 0 <= i < vaults@.len() && !vault_pushable(#[trigger] vaults@[i]))
            || (exists|j: int| 0 <= j < items@.len() && !item_pushable(#[trigger] items@[j])),
        res matches Err(e) ==> e == SyncError::InvalidId,
        res matches Ok(None) ==> vaults@.len() == 0 && items@.len() == 0,
        res matches Ok(Some(r)) ==> {
            &&& vaults@.len() + items@.len() > 0
            &&& r.vaults@.len() == vaults@.len()
            &&& r.items@.len() == items@.len()
            &&& forall|i: int| 0 <= i < vaults@.len() ==> vault_pushed_as(vaults@[i], #[trigger] r.vaults@[i])
            &&& forall|j: int| 0 <= j < items@.len() ==> item_pushed_as(items@[j], #[trigger] r.items@[j])
        },
        res is Ok && (vaults@.len() > 0 || items@.len() > 0) ==> res matches Ok(Some(_)),
{
    let mut push_vaults: Vec<VaultPush> = Vec::new();
    let nv = vaults.len();
    for i in 0..nv
        invariant
            nv == vaults@.len(),
            push_vaults@.len() == i,
            forall|k: int| 0 <= k < i ==> vault_pushable(#[trigger] vaults@[k]),
            forall|k: int| 0 <= k < i ==> vault_pushed_as(vaults@[k], #[trigger] push_vaults@[k]),
    {
        match vault_push_from_local(&vaults[i]) {
            Ok(p) => push_vaults.push(p),
            Err(e) => {
                assert(!vault_pushable(vaults@[i as int]));
                return Err(e);
            },
        }
    }
    let mut push_items: Vec<ItemPush> = Vec::new();
    let ni = items.len();
    for j in 0..ni
        invariant
            nv == vaults@.len(),
            ni == items@.len(),
            push_vaults@.len() == nv,
            forall|k: int| 0 <= k < nv ==> vault_pushable(#[trigger] vaults@[k]),
            forall|k: int| 0 <= k < nv ==> vault_pushed_as(vaults@[k], #[trigger] push_vaults@[k]),
            push_items@.len() == j,
            forall|k: int| 0 <= k < j ==> item_pushable(#[trigger] items@[k]),
            forall|k: int| 0 <= k < j ==> item_pushed_as(items@[k], #[trigger] push_items@[k]),
    {
        match item_push_from_local(&items[j]) {
            Ok(p) => push_items.push(p),
            Err(e) => {
                assert(!item_pushable(items@[j as int]));
                return Err(e);
            },
        }
    }
    if push_vaults.len() == 0 && push_items.len() == 0 {
        return Ok(None);
    }
    Ok(Some(PushRequest { vaults: push_vaults, items: push_items }))
}

/// A pulled vault as the local store keeps it: ids as text, binary fields
/// decoded, the deletion flag as 0 or 1.
pub fn local_vault_from_pull(v: &VaultPull) -> (res: Result<LocalVault, SyncError>)
    ensures
        (base64_standard_decode(v.encrypted_name@) is None || base64_standard_decode(v.encrypted_vsk@)
            is None) <==> res is Err,
        res matches Err(e) ==> e == SyncError::InvalidBase64,
        res matches Ok(l) ==> {
            &&& l.id@ == uuid_text(v.id)
            &&& base64_standard_decode(v.encrypted_name@) == Some(l.encrypted_name@)
            &&& base64_standard_decode(v.encrypted_vsk@) == Some(l.encrypted_vsk@)
            &&& l.server_revision == v.server_revision
            &&& l.is_deleted == (if v.is_deleted { 1i64 } else { 0i64 })
            &&& l.created_at == v.created_at
            &&& l.updated_at == v.updated_at
        },
{
    let encrypted_name = match base64_decode(v.encrypted_name.as_str()) {
        Some(b) => b,
        None => return Err(SyncError::InvalidBase64),
    };
    let encrypted_vsk = match base64_decode(v.encrypted_vsk.as_str()) {
        Some(b) => b,
        None => return Err(SyncError::InvalidBase64),
    };
    Ok(LocalVault {
        id: uuid_to_string(v.id),
        encrypted_name,
        encrypted_vsk,
        server_revision: v.server_revision,
        is_deleted: if v.is_deleted { 1 } else { 0 },
        created_at: v.created_at,
        updated_at: v.updated_at,
    })
}

/// A pulled item as the local store keeps it; an item sent without payload
/// (a deleted one) is stored with an empty payload.
pub fn local_item_from_pull(i: &ItemPull) -> (res: Result<LocalItem, SyncError>)
    ensures
        (i.encrypted_payload matches Some(p) && base64_standard_decode(p@) is None) <==> res is Err,
        res matches Err(e) ==> e == SyncError::InvalidBase64,
        res matches Ok(l) ==> {
            &&& l.id@ == uuid_text(i.id)
            &&& l.vault_id@ == uuid_text(i.vault_id)
            &&& match i.encrypted_payload {
                Some(p) => base64_standard_decode(p@) == Some(l.encrypted_payload@),
                None => l.encrypted_payload@ == Seq::<u8>::empty(),
            }
            &&& l.server_revision == i.server_revision
            &&& l.is_deleted == (if i.is_deleted { 1i64 } else { 0i64 })
            &&& l.created_at == i.created_at
            &&& l.updated_at == i.updated_at
        },
{
    let encrypted_payload = match &i.encrypted_payload {
        Some(p) => match base64_decode(p.as_str()) {
            Some(b) => b,
            None => return Err(SyncError::InvalidBase64),
        },
        None => Vec::new(),
    };
    Ok(LocalItem {
        id: uuid_to_string(i.id),
        vault_id: uuid_to_string(i.vault_id),
        encrypted_payload,
        server_revision: i.server_revision,
        is_deleted: if i.is_deleted { 1 } else { 0 },
        created_at: i.created_at,
        updated_at: i.updated_at,
    })
}

/// The highest revision held locally of each vault whose id is a UUID,
/// from the per-vault maxima of the local store (rows with an id that does
/// not parse are skipped; a later row for the same vault wins).
pub open spec fn high_water_spec(rows: Seq<(Option<String>, i64)>) -> Map<u128, i64>
    decreases rows.len(),
{
    if rows.len() == 0 {
        Map::empty()
    } else {
        let prev = high_water_spec(rows.drop_last());
        let (id, rev) = rows.last();
        match uuid_parse_spec(id->0@) {
            Some(u) => prev.insert(u, rev),
            None => prev,
        }
    }
}

/// The revisions the client reports in a pull request.
pub fn high_water_marks(rows: &Vec<(Option<String>, i64)>) -> (marks: HashMap<u128, i64>)
    requires
        forall|i: int| 0 <= i < rows@.len() ==> (#[trigger] rows@[i]).0 is Some,
    ensures
        marks@ == high_water_spec(rows@),
{
    let mut marks: HashMap<u128, i64> = HashMap::new();
    let n = rows.len();
    for i in 0..n
        invariant
            n == rows@.len(),
            forall|k: int| 0 <= k < rows@.len() ==> (#[trigger] rows@[k]).0 is Some,
            marks@ == high_water_spec(rows@.subrange(0, i as int)),
    {
        let row = &rows[i];
        assert(rows@.subrange(0, i + 1).drop_last() == rows@.subrange(0, i as int));
        assert(rows@[i as int].0 is Some);
        match &row.0 {
            Some(id) => {
                if let Some(u) = uuid_parse(id.as_str()) {
                    marks.insert(u, row.1);
                }
            },
            None => {},
        }
    }
    assert(rows@.subrange(0, n as int) == rows@);
    marks
}

/// Every vault the client pushes gets through the server's decoding: its
/// Base64 fields decode to the bytes of the local row.
pub proof fn law_pushed_vault_decodes(v: LocalVault, p: VaultPush)
    requires
        vault_pushed_as(v, p),
    ensures
        base64_standard_decode(p.encrypted_name@) == Some(v.encrypted_name@),
        base64_standard_decode(p.encrypted_vsk@) == Some(v.encrypted_vsk@),
{
    lemma_decode_encode(v.encrypted_name@);
    lemma_decode_encode(v.encrypted_vsk@);
}

/// Every item the client pushes gets through the server's decoding: its
/// payload decodes to the bytes of the local row.
pub proof fn law_pushed_item_decodes(i: LocalItem, p: ItemPush)
    requires
        item_pushed_as(i, p),
    ensures
        p.encrypted_payload matches Some(t) && base64_standard_decode(t@) == Some(i.encrypted_payload@),
{
    lemma_decode_encode(i.encrypted_payload@);
}

/// A vault survives a sync unchanged: the bytes the server stores from a
/// push (its decoding of the pushed fields) and sends back in a pull (their
/// encoding) decode on the other device to the bytes of the local row it
/// started from.
pub proof fn law_vault_survives_sync(
    v: LocalVault,
    p: VaultPush,
    stored_name: Seq<u8>,
    stored_vsk: Seq<u8>,
    pulled: VaultPull,
)
    requires
        vault_pushed_as(v, p),
        base64_standard_decode(p.encrypted_name@) == Some(stored_name),
        base64_standard_decode(p.encrypted_vsk@) == Some(stored_vsk),
        pulled.encrypted_name@ == base64_standard_encode(stored_name),
        pulled.encrypted_vsk@ == base64_standard_encode(stored_vsk),
    ensures
        base64_standard_decode(pulled.encrypted_name@) == Some(v.encrypted_name@),
        base64_standard_decode(pulled.encrypted_vsk@) == Some(v.encrypted_vsk@),
{
    law_pushed_vault_decodes(v, p);
    lemma_decode_encode(stored_name);
    lemma_decode_encode(stored_vsk);
}

/// An item that is not deleted survives a sync unchanged: its payload, as
/// the server stores it from the push and sends it back in a pull, decodes
/// on the other device to the payload of the local row it started from.
pub proof fn law_item_survives_sync(i: LocalItem, p: ItemPush, stored_payload: Seq<u8>, pulled: ItemPull)
    requires
        item_pushed_as(i, p),
        p.encrypted_payload matches Some(t) && base64_standard_decode(t@) == Some(stored_payload),
        pulled.encrypted_payload matches Some(t) && t@ == base64_standard_encode(stored_payload),
    ensures
        pulled.encrypted_payload matches Some(t) && base64_standard_decode(t@) == Some(i.encrypted_payload@),
{
    law_pushed_item_decodes(i, p);
    lemma_decode_encode(stored_payload);
}

} // verus!
