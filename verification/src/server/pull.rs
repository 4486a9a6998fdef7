//! The pull side of sync: which revisions the client asks about, and how
//! stored rows are sent back.

use std::collections::HashMap;
use vstd::prelude::*;

use crate::encoding::{base64_encode, base64_standard_encode};
use crate::shared::{ItemPull, PullRequest, PullResponse, VaultPull};

verus! {

broadcast use vstd::std_specs::hash::group_hash_axioms;

/// A vault the requesting user owns, with its next revision.
#[derive(Debug, PartialEq, Eq, Structural, Clone, Copy)]
pub struct OwnedVault {
    pub id: u128,
    pub next_revision: i64,
}

/// The parameters of the change queries: parallel lists of vault ids and
/// the revision the client already holds of each, and the current revision
/// of every owned vault.
pub struct PullPlan {
    pub vault_ids: Vec<u128>,
    pub requested_revs: Vec<i64>,
    pub current_revisions: HashMap<u128, i64>,
}

/// The revision the client holds of a vault; a vault it does not know is
/// asked about from revision 0.
pub open spec fn requested_revision(request: Map<u128, i64>, id: u128) -> i64 {
    if request.contains_key(id) {
        request[id]
    } else {
        0
    }
}

/// The highest revision each owned vault's entries can have: its next
/// revision minus one (a later row for the same vault wins).
pub open spec fn current_revisions_spec(owned: Seq<OwnedVault>) -> Map<u128, i64>
    decreases owned.len(),
{
    if owned.len() == 0 {
        Map::empty()
    } else {
        current_revisions_spec(owned.drop_last()).insert(
            owned.last().id,
            (owned.last().next_revision - 1) as i64,
        )
    }
}

/// The answer when the user owns no vault.
pub fn empty_pull_response() -> (res: PullResponse)
    ensures
        res.current_revisions@ == Map::<u128, i64>::empty(),
        res.vaults@.len() == 0,
        res.items@.len() == 0,
{
    PullResponse { current_revisions: HashMap::new(), vaults: Vec::new(), items: Vec::new() }
}

/// Builds the query parameters of a pull from the vaults the user owns and
/// the revisions the client reported.
pub fn plan_pull(owned: &Vec<OwnedVault>, request: &PullRequest) -> (plan: PullPlan)
    requires
        forall|i: int| 0 <= i < owned@.len() ==> #[trigger] owned@[i].next_revision > i64::MIN,
    ensures
        plan.vault_ids@.len() == owned@.len(),
        plan.requested_revs@.len() == owned@.len(),
        forall|i: int|
            0 <= i < owned@.len() ==> {
                &&& #[trigger] plan.vault_ids@[i] == owned@[i].id
                &&& plan.requested_revs@[i] == requested_revision(request.vault_revisions@, owned@[i].id)
            },
        plan.current_revisions@ == current_revisions_spec(owned@),
{
    let mut vault_ids: Vec<u128> = Vec::new();
    let mut requested_revs: Vec<i64> = Vec::new();
    let mut current_revisions: HashMap<u128, i64> = HashMap::new();
    let n = owned.len();
    for i in 0..n
        invariant
            n == owned@.len(),
            forall|k: int| 0 <= k < owned@.len() ==> #[trigger] owned@[k].next_revision > i64::MIN,
            vault_ids@.len() == i,
            requested_revs@.len() == i,
            forall|k: int| 0 <= k < i ==> #[trigger] vault_ids@[k] == owned@[k].id,
            forall|k: int|
                0 <= k < i ==> #[trigger] requested_revs@[k] == requested_revision(
                    request.vault_revisions@,
                    owned@[k].id,
                ),
            current_revisions@ == current_revisions_spec(owned@.subrange(0, i as int)),
    {
        let v = owned[i];
        let req_rev = match request.vault_revisions.get(&v.id) {
            Some(r) => *r,
            None => 0,
        };
        assert(req_rev == requested_revision(request.vault_revisions@, v.id));
        vault_ids.push(v.id);
        requested_revs.push(req_rev);
        assert(vault_ids@[i as int] == owned@[i as int].id);
        current_revisions.insert(v.id, v.next_revision - 1);
        assert(owned@.subrange(0, i + 1).drop_last() == owned@.subrange(0, i as int));
    }
    assert(owned@.subrange(0, n as int) == owned@);
    PullPlan { vault_ids, requested_revs, current_revisions }
}

/// A changed vault as the store holds it.
pub struct StoredVault {
    pub id: u128,
    pub server_revision: i64,
    pub is_deleted: bool,
    pub encrypted_name: Vec<u8>,
    pub encrypted_vsk: Vec<u8>,
    pub created_at: i64,
    pub updated_at: i64,
}

/// A changed item as the store holds it.
pub struct StoredItem {
    pub id: u128,
    pub vault_id: u128,
    pub server_revision: i64,
    pub is_deleted: bool,
    pub encrypted_payload: Vec<u8>,
    pub created_at: i64,
    pub updated_at: i64,
}

/// A stored vault as it is sent: binary fields in Base64.
pub fn vault_pull_from_row(row: &StoredVault) -> (v: VaultPull)
    ensures
        v.id == row.id,
        v.server_revision == row.server_revision,
        v.is_deleted == row.is_deleted,
        v.encrypted_name@ == base64_standard_encode(row.encrypted_name@),
        v.encrypted_vsk@ == base64_standard_encode(row.encrypted_vsk@),
        v.created_at == row.created_at,
        v.updated_at == row.updated_at,
{
    VaultPull {
        id: row.id,
        server_revision: row.server_revision,
        is_deleted: row.is_deleted,
        encrypted_name: base64_encode(row.encrypted_name.as_slice()),
        encrypted_vsk: base64_encode(row.encrypted_vsk.as_slice()),
        created_at: row.created_at,
        updated_at: row.updated_at,
    }
}

/// A stored item as it is sent: the payload in Base64, or none at all for a
/// deleted item.
pub fn item_pull_from_row(row: &StoredItem) -> (it: ItemPull)
    ensures
        it.id == row.id,
        it.vault_id == row.vault_id,
        it.server_revision == row.server_revision,
        it.is_deleted == row.is_deleted,
        row.is_deleted ==> it.encrypted_payload is None,
        !row.is_deleted ==> (it.encrypted_payload matches Some(p) && p@ == base64_standard_encode(
            row.encrypted_payload@,
        )),
        it.created_at == row.created_at,
        it.updated_at == row.updated_at,
{
    let encrypted_payload = if row.is_deleted {
        None
    } else {
        Some(base64_encode(row.encrypted_payload.as_slice()))
    };
    ItemPull {
        id: row.id,
        vault_id: row.vault_id,
        server_revision: row.server_revision,
        is_deleted: row.is_deleted,
        encrypted_payload,
        created_at: row.created_at,
        updated_at: row.updated_at,
    }
}

} // verus!
