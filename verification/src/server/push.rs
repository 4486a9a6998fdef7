//! The push side of sync. Vault timelines are guarded by optimistic
//! concurrency: a change is accepted only if it was based on the latest
//! server revision, and every accepted change receives the next revision of
//! its vault. The handler runs the database work; the decisions are here.

use std::collections::HashMap;
use time::OffsetDateTime;
use vstd::prelude::*;

use crate::encoding::{base64_decode, base64_standard_decode};
use crate::server::status::HttpStatus;
use crate::shared::{ItemPush, PushRequest, PushResponse, VaultPush};

verus! {

broadcast use vstd::std_specs::hash::group_hash_axioms;

/// Whether `OffsetDateTime::from_unix_timestamp` accepts a timestamp: it
/// accepts exactly the seconds inside the crate's supported date range, whose
/// bounds depend on the crate's `large-dates` feature, so they are not
/// written out here.
pub uninterp spec fn unix_timestamp_representable(ts: i64) -> bool;

/// Calls `OffsetDateTime::from_unix_timestamp` and reports whether it
/// succeeded; the answer is named.
#[verifier::external_body]
fn timestamp_representable(ts: i64) -> (ok: bool)
    ensures
        ok == unix_timestamp_representable(ts),
{
    OffsetDateTime::from_unix_timestamp(ts).is_ok()
}

/// A timestamp as the server stores it: the client's value where the date
/// library can represent it, otherwise `None`, which stands for the current
/// time.
pub open spec fn stored_timestamp(ts: i64) -> Option<i64> {
    if unix_timestamp_representable(ts) {
        Some(ts)
    } else {
        None
    }
}

fn checked_timestamp(ts: i64) -> (res: Option<i64>)
    ensures
        res == stored_timestamp(ts),
{
    if timestamp_representable(ts) {
        Some(ts)
    } else {
        None
    }
}

/// The binary fields of a pushed vault.
pub struct DecodedVault {
    pub name: Vec<u8>,
    pub vsk: Vec<u8>,
    pub created_at: Option<i64>,
    pub updated_at: Option<i64>,
}

/// The binary fields of a pushed item.
pub struct DecodedItem {
    pub payload: Vec<u8>,
    pub created_at: Option<i64>,
    pub updated_at: Option<i64>,
}

impl VaultPush {
    /// Decodes the Base64 fields; malformed Base64 is a bad request.
    pub fn decode(&self) -> (res: Result<DecodedVault, HttpStatus>)
        ensures
            (base64_standard_decode(self.encrypted_name@) is None || base64_standard_decode(
                self.encrypted_vsk@,
            ) is None) <==> res is Err,
            res matches Err(e) ==> e == HttpStatus::BadRequest,
            res matches Ok(d) ==> {
                &&& base64_standard_decode(self.encrypted_name@) == Some(d.name@)
                &&& base64_standard_decode(self.encrypted_vsk@) == Some(d.vsk@)
                &&& d.created_at == stored_timestamp(self.created_at)
                &&& d.updated_at == stored_timestamp(self.updated_at)
            },
    {
        let name = match base64_decode(self.encrypted_name.as_str()) {
            Some(n) => n,
            None => return Err(HttpStatus::BadRequest),
        };
        let vsk = match base64_decode(self.encrypted_vsk.as_str()) {
            Some(v) => v,
            None => return Err(HttpStatus::BadRequest),
        };
        let created_at = checked_timestamp(self.created_at);
        let updated_at = checked_timestamp(self.updated_at);
        Ok(DecodedVault { name, vsk, created_at, updated_at })
    }
}

impl ItemPush {
    /// Decodes the Base64 payload (an absent payload is empty); malformed
    /// Base64 is a bad request.
    pub fn decode(&self) -> (res: Result<DecodedItem, HttpStatus>)
        ensures
            (self.encrypted_payload matches Some(p) && base64_standard_decode(p@) is None) <==> res is Err,
            res matches Err(e) ==> e == HttpStatus::BadRequest,
            res matches Ok(d) ==> {
                &&& match self.encrypted_payload {
                    Some(p) => base64_standard_decode(p@) == Some(d.payload@),
                    None => d.payload@ == Seq::<u8>::empty(),
                }
                &&& d.created_at == stored_timestamp(self.created_at)
                &&& d.updated_at == stored_timestamp(self.updated_at)
            },
    {
        let payload = match &self.encrypted_payload {
            Some(p) => match base64_decode(p.as_str()) {
                Some(b) => b,
                None => return Err(HttpStatus::BadRequest),
            },
            None => Vec::new(),
        };
        let created_at = checked_timestamp(self.created_at);
        let updated_at = checked_timestamp(self.updated_at);
        Ok(DecodedItem { payload, created_at, updated_at })
    }
}

/// Whether `id` is named by the request: as a vault, or as the vault of an item.
pub open spec fn involved_in(payload: PushRequest, id: u128) -> bool {
    ||| exists|i: int| 0 <= i < payload.vaults@.len() && #[trigger] payload.vaults@[i].id == id
    ||| exists|j: int| 0 <= j < payload.items@.len() && #[trigger] payload.items@[j].vault_id == id
}

/// Strictly increasing: sorted, without repetition.
pub open spec fn strictly_increasing(s: Seq<u128>) -> bool {
    forall|i: int, j: int| 0 <= i < j < s.len() ==> s[i] < s[j]
}

/// Inserts `x` into a strictly increasing vector, keeping it so.
fn insert_sorted(v: &mut Vec<u128>, x: u128)
    requires
        strictly_increasing(old(v)@),
    ensures
        strictly_increasing(final(v)@),
        forall|y: u128| final(v)@.contains(y) <==> (old(v)@.contains(y) || y == x),
{
    let n = v.len();
    let mut k: usize = 0;
    while k < n && v[k] < x
        invariant
            n == v@.len(),
            k <= n,
            strictly_increasing(v@),
            forall|i: int| 0 <= i < k ==> v@[i] < x,
        decreases n - k,
    {
        k = k + 1;
    }
    if k < n && v[k] == x {
        assert(v@[k as int] == x);
        return;
    }
    let ghost before = v@;
    assert(before == old(v)@);
    v.insert(k, x);
    assert forall|i: int, j: int| 0 <= i < j < v@.len() implies v@[i] < v@[j] by {
        if j < k {
        } else if j == k {
        } else if i < k {
            assert(before[i] < x);
            assert(x <= before[j - 1]) by {
                if k < n {
                    assert(before[k as int] >= x);
                    if j - 1 > k {
                        assert(before[k as int] < before[j - 1]);
                    }
                }
            }
        } else if i == k {
            assert(before[k as int] >= x && before[k as int] != x);
            if j - 1 > k {
                assert(before[k as int] < before[j - 1]);
            }
        } else {
        }
    }
    assert forall|y: u128| v@.contains(y) <==> (before.contains(y) || y == x) by {
        if v@.contains(y) {
            let i = choose|i: int| 0 <= i < v@.len() && v@[i] == y;
            if i < k {
                assert(before[i] == y);
            } else if i > k {
                assert(before[i - 1] == y);
            }
        }
        if before.contains(y) {
            let i = choose|i: int| 0 <= i < before.len() && before[i] == y;
            if i < k {
                assert(v@[i] == y);
            } else {
                assert(v@[i + 1] == y);
            }
        }
        if y == x {
            assert(v@[k as int] == x);
        }
    }
    assert(forall|y: u128| v@.contains(y) <==> (old(v)@.contains(y) || y == x));
}

/// The vaults a push touches, in ascending order and each once; the
/// handler locks them in this order, which keeps concurrent pushes from
/// deadlocking.
pub fn involved_vaults(payload: &PushRequest) -> (ids: Vec<u128>)
    ensures
        strictly_increasing(ids@),
        forall|id: u128| ids@.contains(id) <==> involved_in(*payload, id),
{
    let mut ids: Vec<u128> = Vec::new();
    let nv = payload.vaults.len();
    for i in 0..nv
        invariant
            nv == payload.vaults@.len(),
            strictly_increasing(ids@),
            forall|id: u128|
                ids@.contains(id) <==> exists|k: int| 0 <= k < i && #[trigger] payload.vaults@[k].id == id,
    {
        insert_sorted(&mut ids, payload.vaults[i].id);
        assert forall|id: u128|
            ids@.contains(id) <==> exists|k: int| 0 <= k < i + 1 && #[trigger] payload.vaults@[k].id == id by {
            if id == payload.vaults@[i as int].id {
                assert(payload.vaults@[i as int].id == id);
            }
        }
    }
    let ni = payload.items.len();
    for j in 0..ni
        invariant
            nv == payload.vaults@.len(),
            ni == payload.items@.len(),
            strictly_increasing(ids@),
            forall|id: u128|
                ids@.contains(id) <==> ((exists|k: int| 0 <= k < nv && #[trigger] payload.vaults@[k].id == id)
                    || (exists|k: int| 0 <= k < j && #[trigger] payload.items@[k].vault_id == id)),
    {
        insert_sorted(&mut ids, payload.items[j].vault_id);
        assert forall|id: u128|
            ids@.contains(id) <==> ((exists|k: int| 0 <= k < nv && #[trigger] payload.vaults@[k].id == id)
                || (exists|k: int| 0 <= k < j + 1 && #[trigger] payload.items@[k].vault_id == id)) by {
            if id == payload.items@[j as int].vault_id {
                assert(payload.items@[j as int].vault_id == id);
            }
        }
    }
    ids
}

/// The next revision of each locked vault, as the locking queries
/// returned them (a later row for the same vault wins).
pub open spec fn locked_map(locked: Seq<(u128, i64)>) -> Map<u128, i64>
    decreases locked.len(),
{
    if locked.len() == 0 {
        Map::empty()
    } else {
        locked_map(locked.drop_last()).insert(locked.last().0, locked.last().1)
    }
}

/// A change is stale when the server holds no revision of it, or a newer
/// one than the change was based on.
pub open spec fn stale(base_revision: i64, current_revision: Option<i64>) -> bool {
    match current_revision {
        None => true,
        Some(c) => base_revision < c,
    }
}

/// What to do with one pushed vault or item.
#[derive(Debug, PartialEq, Eq, Structural, Clone, Copy)]
pub enum EntryDecision {
    /// Record a conflict and skip the change.
    Conflict,
    /// Insert the entry with this server revision.
    Insert { revision: i64 },
    /// Overwrite the entry, giving it this server revision.
    Update { revision: i64 },
}

/// The bookkeeping of one push: the next revision of each vault, the
/// revisions given so far, and the conflicts found so far.
pub struct PushState {
    pub vault_state: HashMap<u128, i64>,
    pub accepted: HashMap<u128, i64>,
    pub conflicts: Vec<u128>,
}

/// What the handler answers once every change has been looked at, and
/// whether it commits the transaction.
pub struct PushOutcome {
    pub status: HttpStatus,
    pub response: PushResponse,
    pub commit: bool,
}

/// The abstract state of a push.
pub struct PushModel {
    pub vault_state: Map<u128, i64>,
    pub accepted: Map<u128, i64>,
    pub conflicts: Seq<u128>,
}

impl View for PushState {
    type V = PushModel;

    open spec fn view(&self) -> PushModel {
        PushModel {
            vault_state: self.vault_state@,
            accepted: self.accepted@,
            conflicts: self.conflicts@,
        }
    }
}

/// The state a push starts from: the locked timelines, nothing accepted,
/// no conflict.
pub open spec fn initial_push(locked: Seq<(u128, i64)>) -> PushModel {
    PushModel { vault_state: locked_map(locked), accepted: Map::empty(), conflicts: Seq::empty() }
}

/// Gives `id` revision `r` in the timeline of `vault`, whose next revision
/// becomes `r + 1`.
pub open spec fn accept_at(m: PushModel, id: u128, vault: u128, r: i64) -> PushModel {
    PushModel {
        vault_state: m.vault_state.insert(vault, (r + 1) as i64),
        accepted: m.accepted.insert(id, r),
        conflicts: m.conflicts,
    }
}

/// Records a conflict for `id`.
pub open spec fn refuse(m: PushModel, id: u128) -> PushModel {
    PushModel { vault_state: m.vault_state, accepted: m.accepted, conflicts: m.conflicts.push(id) }
}

/// The decision on a pushed vault and the state after it. A new vault
/// (base revision 0) gets revision 1 and next revision 2; a stale change is
/// a conflict; a current one takes the vault's next revision.
pub open spec fn vault_step(m: PushModel, vault: VaultPush, current_revision: Option<i64>) -> (PushModel, EntryDecision) {
    if vault.base_revision == 0 {
        (accept_at(m, vault.id, vault.id, 1), EntryDecision::Insert { revision: 1 })
    } else if stale(vault.base_revision, current_revision) {
        (refuse(m, vault.id), EntryDecision::Conflict)
    } else {
        let r = m.vault_state[vault.id];
        (accept_at(m, vault.id, vault.id, r), EntryDecision::Update { revision: r })
    }
}

/// The decision on a pushed item and the state after it. An item of a
/// vault without a timeline in this push is a conflict; so is a stale
/// change to a known item. Otherwise the item takes its vault's next
/// revision.
pub open spec fn item_step(m: PushModel, item: ItemPush, current_revision: Option<i64>) -> (PushModel, EntryDecision) {
    if !m.vault_state.contains_key(item.vault_id) {
        (refuse(m, item.id), EntryDecision::Conflict)
    } else if item.base_revision != 0 && stale(item.base_revision, current_revision) {
        (refuse(m, item.id), EntryDecision::Conflict)
    } else {
        let r = m.vault_state[item.vault_id];
        (
            accept_at(m, item.id, item.vault_id, r),
            if item.base_revision == 0 {
                EntryDecision::Insert { revision: r }
            } else {
                EntryDecision::Update { revision: r }
            },
        )
    }
}

impl PushState {
    /// Starts a push from the vaults that were locked, each with its next
    /// revision.
    pub fn new(locked: &Vec<(u128, i64)>) -> (st: Self)
        ensures
            st@ == initial_push(locked@),
    {
        let mut vault_state: HashMap<u128, i64> = HashMap::new();
        let n = locked.len();
        for i in 0..n
            invariant
                n == locked@.len(),
                vault_state@ == locked_map(locked@.subrange(0, i as int)),
        {
            let (id, next) = locked[i];
            vault_state.insert(id, next);
            assert(locked@.subrange(0, i + 1).drop_last() == locked@.subrange(0, i as int));
        }
        assert(locked@.subrange(0, n as int) == locked@);
        PushState { vault_state, accepted: HashMap::new(), conflicts: Vec::new() }
    }

    /// Whether the push holds a timeline for this vault (it was locked, or
    /// created by this push).
    pub fn knows_vault(&self, vault_id: u128) -> (b: bool)
        ensures
            b == self@.vault_state.contains_key(vault_id),
    {
        self.vault_state.get(&vault_id).is_some()
    }

    /// Decides a pushed vault. A vault with base revision 0 is new: it
    /// gets revision 1 and next revision 2. Otherwise `current_revision` is
    /// the vault's revision in the store (owned by the user), and a stale
    /// change is a conflict; a current one takes the vault's next revision.
    pub fn vault_decision(&mut self, vault: &VaultPush, current_revision: Option<i64>) -> (d: EntryDecision)
        requires
            vault.base_revision != 0 && !stale(vault.base_revision, current_revision) ==> {
                &&& old(self)@.vault_state.contains_key(vault.id)
                &&& old(self)@.vault_state[vault.id] < i64::MAX
            },
        ensures
            (final(self)@, d) == vault_step(old(self)@, *vault, current_revision),
            vault.base_revision == 0 ==> {
                &&& d == EntryDecision::Insert { revision: 1 }
                &&& final(self)@.accepted == old(self)@.accepted.insert(vault.id, 1)
                &&& final(self)@.vault_state == old(self)@.vault_state.insert(vault.id, 2)
                &&& final(self)@.conflicts == old(self)@.conflicts
            },
            vault.base_revision != 0 && (current_revision is None || (current_revision matches Some(c)
                && vault.base_revision < c)) ==> {
                &&& d == EntryDecision::Conflict
                &&& final(self)@.conflicts == old(self)@.conflicts.push(vault.id)
                &&& final(self)@.accepted == old(self)@.accepted
                &&& final(self)@.vault_state == old(self)@.vault_state
            },
            vault.base_revision != 0 && (current_revision matches Some(c) && vault.base_revision >= c) ==> {
                let r = old(self)@.vault_state[vault.id];
                &&& d == EntryDecision::Update { revision: r }
                &&& final(self)@.accepted == old(self)@.accepted.insert(vault.id, r)
                &&& final(self)@.vault_state == old(self)@.vault_state.insert(vault.id, (r + 1) as i64)
                &&& final(self)@.conflicts == old(self)@.conflicts
            },
    {
        proof {
            law_vault_step_rules(self@, *vault, current_revision);
        }
        if vault.base_revision == 0 {
            self.vault_state.insert(vault.id, 2);
            self.accepted.insert(vault.id, 1);
            return EntryDecision::Insert { revision: 1 };
        }
        let is_stale = match current_revision {
            None => true,
            Some(c) => vault.base_revision < c,
        };
        if is_stale {
            self.conflicts.push(vault.id);
            return EntryDecision::Conflict;
        }
        let new_rev = *self.vault_state.get(&vault.id).unwrap();
        self.vault_state.insert(vault.id, new_rev + 1);
        self.accepted.insert(vault.id, new_rev);
        EntryDecision::Update { revision: new_rev }
    }

    /// Decides a pushed item. An item of a vault the push holds no timeline
    /// for is a conflict. Otherwise an item with base revision 0 is new;
    /// for any other, `current_revision` is its revision in the store, and
    /// a stale change is a conflict. Accepted items take their vault's next
    /// revision, which then moves on by one.
    pub fn item_decision(&mut self, item: &ItemPush, current_revision: Option<i64>) -> (d: EntryDecision)
        requires
            old(self)@.vault_state.contains_key(item.vault_id) && (item.base_revision == 0 || !stale(
                item.base_revision,
                current_revision,
            )) ==> old(self)@.vault_state[item.vault_id] < i64::MAX,
        ensures
            (final(self)@, d) == item_step(old(self)@, *item, current_revision),
            !old(self)@.vault_state.contains_key(item.vault_id) || (item.base_revision != 0 && (
            current_revision is None || (current_revision matches Some(c) && item.base_revision < c))) ==> {
                &&& d == EntryDecision::Conflict
                &&& final(self)@.conflicts == old(self)@.conflicts.push(item.id)
                &&& final(self)@.accepted == old(self)@.accepted
                &&& final(self)@.vault_state == old(self)@.vault_state
            },
            old(self)@.vault_state.contains_key(item.vault_id) && (item.base_revision == 0 || (
            current_revision matches Some(c) && item.base_revision >= c)) ==> {
                let r = old(self)@.vault_state[item.vault_id];
                &&& d == (if item.base_revision == 0 {
                    EntryDecision::Insert { revision: r }
                } else {
                    EntryDecision::Update { revision: r }
                })
                &&& final(self)@.accepted == old(self)@.accepted.insert(item.id, r)
                &&& final(self)@.vault_state == old(self)@.vault_state.insert(item.vault_id, (r + 1) as i64)
                &&& final(self)@.conflicts == old(self)@.conflicts
            },
    {
        proof {
            law_item_step_rules(self@, *item, current_revision);
        }
        let vault_next_rev = match self.vault_state.get(&item.vault_id) {
            Some(r) => *r,
            None => {
                self.conflicts.push(item.id);
                return EntryDecision::Conflict;
            },
        };
        if item.base_revision != 0 {
            let is_stale = match current_revision {
                None => true,
                Some(c) => item.base_revision < c,
            };
            if is_stale {
                self.conflicts.push(item.id);
                return EntryDecision::Conflict;
            }
        }
        self.accepted.insert(item.id, vault_next_rev);
        self.vault_state.insert(item.vault_id, vault_next_rev + 1);
        if item.base_revision == 0 {
            EntryDecision::Insert { revision: vault_next_rev }
        } else {
            EntryDecision::Update { revision: vault_next_rev }
        }
    }

    /// Ends a push. Any conflict refuses the whole push: the transaction is
    /// rolled back and the answer is 409 with the conflicting ids and no
    /// accepted revisions. Otherwise it commits and answers 200 with every
    /// revision given.
    pub fn finish(self) -> (out: PushOutcome)
        ensures
            self.conflicts@.len() > 0 ==> {
                &&& out.status == HttpStatus::Conflict
                &&& !out.commit
                &&& out.response.accepted_revisions@ == Map::<u128, i64>::empty()
                &&& out.response.conflicts@ == self.conflicts@
            },
            self.conflicts@.len() == 0 ==> {
                &&& out.status == HttpStatus::Success
                &&& out.commit
                &&& out.response.accepted_revisions@ == self.accepted@
                &&& out.response.conflicts@ == Seq::<u128>::empty()
            },
    {
        if self.conflicts.len() > 0 {
            PushOutcome {
                status: HttpStatus::Conflict,
                response: PushResponse { accepted_revisions: HashMap::new(), conflicts: self.conflicts },
                commit: false,
            }
        } else {
            PushOutcome {
                status: HttpStatus::Success,
                response: PushResponse { accepted_revisions: self.accepted, conflicts: Vec::new() },
                commit: true,
            }
        }
    }
}

/// The timelines of a push are consistent when every accepted revision lies
/// below the next revision of the vault it was taken from (`owner`), and
/// no two accepted changes of one vault share a revision.
pub open spec fn timelines_consistent(m: PushModel, owner: Map<u128, u128>) -> bool {
    &&& forall|a: u128|
        #[trigger] m.accepted.contains_key(a) ==> {
            &&& owner.contains_key(a)
            &&& m.vault_state.contains_key(owner[a])
            &&& m.accepted[a] < m.vault_state[owner[a]]
        }
    &&& forall|a: u128, b: u128|
        #![trigger m.accepted[a], m.accepted[b]]
        m.accepted.contains_key(a) && m.accepted.contains_key(b) && a != b && owner[a] == owner[b]
            ==> m.accepted[a] != m.accepted[b]
}

/// No next revision went down from `m` to `m2`.
pub open spec fn timelines_advance(m: PushModel, m2: PushModel) -> bool {
    forall|v: u128|
        #[trigger] m.vault_state.contains_key(v) ==> m2.vault_state.contains_key(v) && m.vault_state[v]
            <= m2.vault_state[v]
}

/// A push starts with consistent timelines.
pub proof fn law_push_starts_consistent(locked: Seq<(u128, i64)>)
    ensures
        timelines_consistent(initial_push(locked), Map::empty()),
{
}

/// Deciding a vault keeps the timelines consistent and never moves a next
/// revision back. (A vault pushed as new whose id already has a timeline is
/// left out: the store refuses to insert it twice, and the push fails.)
pub proof fn law_vault_step_keeps_timelines(
    m: PushModel,
    owner: Map<u128, u128>,
    vault: VaultPush,
    current_revision: Option<i64>,
)
    requires
        timelines_consistent(m, owner),
        !(vault.base_revision == 0 && m.vault_state.contains_key(vault.id)),
        vault.base_revision != 0 && !stale(vault.base_revision, current_revision) ==> {
            &&& m.vault_state.contains_key(vault.id)
            &&& m.vault_state[vault.id] < i64::MAX
        },
    ensures
        ({
            let (m2, d) = vault_step(m, vault, current_revision);
            let owner2 = if d == EntryDecision::Conflict { owner } else { owner.insert(vault.id, vault.id) };
            &&& timelines_consistent(m2, owner2)
            &&& timelines_advance(m, m2)
        }),
{
    let (m2, d) = vault_step(m, vault, current_revision);
    let owner2 = if d == EntryDecision::Conflict { owner } else { owner.insert(vault.id, vault.id) };
    if d != EntryDecision::Conflict {
        assert forall|a: u128, b: u128|
            #![trigger m2.accepted[a], m2.accepted[b]]
            m2.accepted.contains_key(a) && m2.accepted.contains_key(b) && a != b && owner2[a] == owner2[b]
                implies m2.accepted[a] != m2.accepted[b] by {
            if a == vault.id {
                assert(m.accepted.contains_key(b));
            } else if b == vault.id {
                assert(m.accepted.contains_key(a));
            } else {
                assert(m.accepted[a] == m2.accepted[a] && m.accepted[b] == m2.accepted[b]);
            }
        }
        assert forall|a: u128| #[trigger] m2.accepted.contains_key(a) implies {
            &&& owner2.contains_key(a)
            &&& m2.vault_state.contains_key(owner2[a])
            &&& m2.accepted[a] < m2.vault_state[owner2[a]]
        } by {
            if a != vault.id {
                assert(m.accepted.contains_key(a));
            }
        }
    }
}

/// Deciding an item keeps the timelines consistent and never moves a next
/// revision back.
pub proof fn law_item_step_keeps_timelines(
    m: PushModel,
    owner: Map<u128, u128>,
    item: ItemPush,
    current_revision: Option<i64>,
)
    requires
        timelines_consistent(m, owner),
        m.vault_state.contains_key(item.vault_id) && (item.base_revision == 0 || !stale(
            item.base_revision,
            current_revision,
        )) ==> m.vault_state[item.vault_id] < i64::MAX,
    ensures
        ({
            let (m2, d) = item_step(m, item, current_revision);
            let owner2 = if d == EntryDecision::Conflict { owner } else { owner.insert(item.id, item.vault_id) };
            &&& timelines_consistent(m2, owner2)
            &&& timelines_advance(m, m2)
        }),
{
    let (m2, d) = item_step(m, item, current_revision);
    let owner2 = if d == EntryDecision::Conflict { owner } else { owner.insert(item.id, item.vault_id) };
    if d != EntryDecision::Conflict {
        assert forall|a: u128, b: u128|
            #![trigger m2.accepted[a], m2.accepted[b]]
            m2.accepted.contains_key(a) && m2.accepted.contains_key(b) && a != b && owner2[a] == owner2[b]
                implies m2.accepted[a] != m2.accepted[b] by {
            if a == item.id {
                assert(m.accepted.contains_key(b));
            } else if b == item.id {
                assert(m.accepted.contains_key(a));
            } else {
                assert(m.accepted[a] == m2.accepted[a] && m.accepted[b] == m2.accepted[b]);
            }
        }
        assert forall|a: u128| #[trigger] m2.accepted.contains_key(a) implies {
            &&& owner2.contains_key(a)
            &&& m2.vault_state.contains_key(owner2[a])
            &&& m2.accepted[a] < m2.vault_state[owner2[a]]
        } by {
            if a != item.id {
                assert(m.accepted.contains_key(a));
            }
        }
    }
}

/// The rows a push reads and writes: for each vault its server revision and
/// next revision, for each item its vault and server revision.
pub struct StoreModel {
    pub vaults: Map<u128, (i64, i64)>,
    pub items: Map<u128, (u128, i64)>,
}

/// The store's invariant: every vault's revision lies below its next
/// revision, and every item belongs to a stored vault and lies below that
/// vault's next revision.
pub open spec fn store_inv(s: StoreModel) -> bool {
    &&& forall|v: u128| #[trigger] s.vaults.contains_key(v) ==> s.vaults[v].0 < s.vaults[v].1
    &&& forall|i: u128|
        #[trigger] s.items.contains_key(i) ==> {
            &&& s.vaults.contains_key(s.items[i].0)
            &&& s.items[i].1 < s.vaults[s.items[i].0].1
        }
}

/// The next revision a vault will have once the push commits: the push's
/// own timeline for a vault it holds one for, the stored one otherwise.
pub open spec fn pending_next(m: PushModel, s: StoreModel, v: u128) -> i64 {
    if m.vault_state.contains_key(v) {
        m.vault_state[v]
    } else {
        s.vaults[v].1
    }
}

/// During a push the store and the push agree: every vault with a timeline
/// is stored, and every stored revision lies below the next revision its
/// vault will have on commit.
pub open spec fn push_store_consistent(m: PushModel, s: StoreModel) -> bool {
    &&& forall|v: u128| #[trigger] m.vault_state.contains_key(v) ==> s.vaults.contains_key(v)
    &&& forall|v: u128| #[trigger] s.vaults.contains_key(v) ==> s.vaults[v].0 < pending_next(m, s, v)
    &&& forall|i: u128|
        #[trigger] s.items.contains_key(i) ==> {
            &&& s.vaults.contains_key(s.items[i].0)
            &&& s.items[i].1 < pending_next(m, s, s.items[i].0)
        }
}

/// The rows after the write for a vault decision: an inserted or updated
/// vault gets the revision decided and the next one after it.
pub open spec fn store_after_vault(s: StoreModel, vault: VaultPush, d: EntryDecision) -> StoreModel {
    match d {
        EntryDecision::Conflict => s,
        EntryDecision::Insert { revision } | EntryDecision::Update { revision } => StoreModel {
            vaults: s.vaults.insert(vault.id, (revision, (revision + 1) as i64)),
            items: s.items,
        },
    }
}

/// The rows after the write for an item decision: an inserted or updated
/// item lies in its vault with the revision decided.
pub open spec fn store_after_item(s: StoreModel, item: ItemPush, d: EntryDecision) -> StoreModel {
    match d {
        EntryDecision::Conflict => s,
        EntryDecision::Insert { revision } | EntryDecision::Update { revision } => StoreModel {
            vaults: s.vaults,
            items: s.items.insert(item.id, (item.vault_id, revision)),
        },
    }
}

/// The rows after the commit: every vault with a timeline in the push gets
/// the push's next revision.
pub open spec fn store_commit(m: PushModel, s: StoreModel) -> StoreModel {
    StoreModel {
        vaults: Map::new(|v: u128| s.vaults.contains_key(v), |v: u128| (s.vaults[v].0, pending_next(m, s, v))),
        items: s.items,
    }
}

proof fn lemma_locked_map_from_store(locked: Seq<(u128, i64)>, s: StoreModel)
    requires
        forall|k: int|
            0 <= k < locked.len() ==> s.vaults.contains_key(#[trigger] locked[k].0) && s.vaults[locked[k].0].1
                == locked[k].1,
    ensures
        forall|v: u128|
            #[trigger] locked_map(locked).contains_key(v) ==> s.vaults.contains_key(v) && locked_map(locked)[v]
                == s.vaults[v].1,
    decreases locked.len(),
{
    if locked.len() > 0 {
        let k = locked.len() - 1;
        assert(s.vaults.contains_key(locked[k].0));
        let prev = locked.drop_last();
        assert forall|j: int| 0 <= j < prev.len() implies s.vaults.contains_key(#[trigger] prev[j].0)
            && s.vaults[prev[j].0].1 == prev[j].1 by {
            assert(prev[j] == locked[j]);
        }
        lemma_locked_map_from_store(prev, s);
        assert forall|v: u128| #[trigger] locked_map(locked).contains_key(v) implies s.vaults.contains_key(v)
            && locked_map(locked)[v] == s.vaults[v].1 by {
            if v != locked.last().0 {
                assert(locked_map(prev).contains_key(v));
            }
        }
    }
}

/// A push that starts on a store keeping its invariant, from the next
/// revisions it read while locking, agrees with the store.
pub proof fn law_store_push_starts_consistent(locked: Seq<(u128, i64)>, s: StoreModel)
    requires
        store_inv(s),
        forall|k: int|
            0 <= k < locked.len() ==> s.vaults.contains_key(#[trigger] locked[k].0) && s.vaults[locked[k].0].1
                == locked[k].1,
    ensures
        push_store_consistent(initial_push(locked), s),
{
    lemma_locked_map_from_store(locked, s);
}

/// Writing a vault decision keeps the store and the push in agreement. (A
/// vault pushed as new whose id is already stored is left out: the store
/// refuses the insert and the push fails and rolls back.)
pub proof fn law_store_vault_step(m: PushModel, s: StoreModel, vault: VaultPush, current_revision: Option<i64>)
    requires
        push_store_consistent(m, s),
        vault.base_revision == 0 ==> !s.vaults.contains_key(vault.id),
        vault.base_revision != 0 && !stale(vault.base_revision, current_revision) ==> {
            &&& m.vault_state.contains_key(vault.id)
            &&& m.vault_state[vault.id] < i64::MAX
        },
    ensures
        ({
            let (m2, d) = vault_step(m, vault, current_revision);
            push_store_consistent(m2, store_after_vault(s, vault, d))
        }),
{
    let (m2, d) = vault_step(m, vault, current_revision);
    let s2 = store_after_vault(s, vault, d);
    if d != EntryDecision::Conflict {
        assert forall|v: u128| #[trigger] s2.vaults.contains_key(v) implies s2.vaults[v].0 < pending_next(
            m2,
            s2,
            v,
        ) by {
            if v != vault.id {
                assert(s.vaults.contains_key(v));
            }
        }
        assert forall|i: u128| #[trigger] s2.items.contains_key(i) implies {
            &&& s2.vaults.contains_key(s2.items[i].0)
            &&& s2.items[i].1 < pending_next(m2, s2, s2.items[i].0)
        } by {
            assert(s.items.contains_key(i));
            let w = s.items[i].0;
            assert(s.vaults.contains_key(w));
            if w == vault.id {
                assert(vault.base_revision != 0);
            }
        }
        assert forall|v: u128| #[trigger] m2.vault_state.contains_key(v) implies s2.vaults.contains_key(v) by {
            if v != vault.id {
                assert(m.vault_state.contains_key(v));
            }
        }
    }
}

/// Writing an item decision keeps the store and the push in agreement.
pub proof fn law_store_item_step(m: PushModel, s: StoreModel, item: ItemPush, current_revision: Option<i64>)
    requires
        push_store_consistent(m, s),
        m.vault_state.contains_key(item.vault_id) && (item.base_revision == 0 || !stale(
            item.base_revision,
            current_revision,
        )) ==> m.vault_state[item.vault_id] < i64::MAX,
    ensures
        ({
            let (m2, d) = item_step(m, item, current_revision);
            push_store_consistent(m2, store_after_item(s, item, d))
        }),
{
    let (m2, d) = item_step(m, item, current_revision);
    let s2 = store_after_item(s, item, d);
    if d != EntryDecision::Conflict {
        let w = item.vault_id;
        assert(s.vaults.contains_key(w));
        assert forall|v: u128| #[trigger] s2.vaults.contains_key(v) implies s2.vaults[v].0 < pending_next(
            m2,
            s2,
            v,
        ) by {
            assert(s.vaults.contains_key(v));
        }
        assert forall|i: u128| #[trigger] s2.items.contains_key(i) implies {
            &&& s2.vaults.contains_key(s2.items[i].0)
            &&& s2.items[i].1 < pending_next(m2, s2, s2.items[i].0)
        } by {
            if i != item.id {
                assert(s.items.contains_key(i));
                assert(s.vaults.contains_key(s.items[i].0));
            }
        }
        assert forall|v: u128| #[trigger] m2.vault_state.contains_key(v) implies s2.vaults.contains_key(v) by {
            if v != w {
                assert(m.vault_state.contains_key(v));
            }
        }
    }
}

/// Committing a push that agrees with the store leaves the store keeping
/// its invariant. (A push that is refused or fails rolls back, which leaves
/// the store as it was.)
pub proof fn law_store_commit_keeps_invariant(m: PushModel, s: StoreModel)
    requires
        push_store_consistent(m, s),
    ensures
        store_inv(store_commit(m, s)),
{
    let c = store_commit(m, s);
    assert forall|v: u128| #[trigger] c.vaults.contains_key(v) implies c.vaults[v].0 < c.vaults[v].1 by {
        assert(s.vaults.contains_key(v));
    }
    assert forall|i: u128| #[trigger] c.items.contains_key(i) implies {
        &&& c.vaults.contains_key(c.items[i].0)
        &&& c.items[i].1 < c.vaults[c.items[i].0].1
    } by {
        assert(s.items.contains_key(i));
        assert(s.vaults.contains_key(s.items[i].0));
    }
}

/// One change of a push, with the revision the store held of it when it
/// was looked at.
pub ghost enum PushStep {
    Vault(VaultPush, Option<i64>),
    Item(ItemPush, Option<i64>),
}

/// The push model and the store after the changes of `steps`, in order.
pub open spec fn run_push(m: PushModel, s: StoreModel, steps: Seq<PushStep>) -> (PushModel, StoreModel)
    decreases steps.len(),
{
    if steps.len() == 0 {
        (m, s)
    } else {
        match steps[0] {
            PushStep::Vault(vault, cur) => {
                let (m2, d) = vault_step(m, vault, cur);
                run_push(m2, store_after_vault(s, vault, d), steps.drop_first())
            },
            PushStep::Item(item, cur) => {
                let (m2, d) = item_step(m, item, cur);
                run_push(m2, store_after_item(s, item, d), steps.drop_first())
            },
        }
    }
}

/// The changes of `steps` can run to the end from `m` and `s`: no step
/// inserts a vault whose id is stored (the store would refuse it and the
/// push would fail), and no accepted step takes a next revision of
/// `i64::MAX` (the handler would overflow).
pub open spec fn push_runs(m: PushModel, s: StoreModel, steps: Seq<PushStep>) -> bool
    decreases steps.len(),
{
    if steps.len() == 0 {
        true
    } else {
        match steps[0] {
            PushStep::Vault(vault, cur) => {
                &&& vault.base_revision == 0 ==> !s.vaults.contains_key(vault.id)
                &&& vault.base_revision != 0 && !stale(vault.base_revision, cur) ==> {
                    &&& m.vault_state.contains_key(vault.id)
                    &&& m.vault_state[vault.id] < i64::MAX
                }
                &&& {
                    let (m2, d) = vault_step(m, vault, cur);
                    push_runs(m2, store_after_vault(s, vault, d), steps.drop_first())
                }
            },
            PushStep::Item(item, cur) => {
                &&& m.vault_state.contains_key(item.vault_id) && (item.base_revision == 0 || !stale(
                    item.base_revision,
                    cur,
                )) ==> m.vault_state[item.vault_id] < i64::MAX
                &&& {
                    let (m2, d) = item_step(m, item, cur);
                    push_runs(m2, store_after_item(s, item, d), steps.drop_first())
                }
            },
        }
    }
}

/// The store after a push that ran to the end: committed when no change
/// conflicted, rolled back (unchanged) otherwise.
pub open spec fn store_after_push(s0: StoreModel, m: PushModel, s: StoreModel) -> StoreModel {
    if m.conflicts.len() > 0 {
        s0
    } else {
        store_commit(m, s)
    }
}

proof fn lemma_run_push_consistent(m: PushModel, s: StoreModel, steps: Seq<PushStep>)
    requires
        push_store_consistent(m, s),
        push_runs(m, s, steps),
    ensures
        push_store_consistent(run_push(m, s, steps).0, run_push(m, s, steps).1),
    decreases steps.len(),
{
    if steps.len() > 0 {
        match steps[0] {
            PushStep::Vault(vault, cur) => {
                law_store_vault_step(m, s, vault, cur);
                let (m2, d) = vault_step(m, vault, cur);
                lemma_run_push_consistent(m2, store_after_vault(s, vault, d), steps.drop_first());
            },
            PushStep::Item(item, cur) => {
                law_store_item_step(m, s, item, cur);
                let (m2, d) = item_step(m, item, cur);
                lemma_run_push_consistent(m2, store_after_item(s, item, d), steps.drop_first());
            },
        }
    }
}

/// A whole push keeps the store's invariant, whatever its outcome. From a
/// store that keeps it, with the next revisions read while locking, after
/// any sequence of changes that runs to the end, the store that is left
/// (committed, or rolled back after a conflict) keeps it. A push that
/// fails before its end rolls back and leaves the starting store.
pub proof fn law_push_keeps_store_invariant(locked: Seq<(u128, i64)>, s: StoreModel, steps: Seq<PushStep>)
    requires
        store_inv(s),
        forall|k: int|
            0 <= k < locked.len() ==> s.vaults.contains_key(#[trigger] locked[k].0) && s.vaults[locked[k].0].1
                == locked[k].1,
        push_runs(initial_push(locked), s, steps),
    ensures
        ({
            let (m, s2) = run_push(initial_push(locked), s, steps);
            store_inv(store_after_push(s, m, s2))
        }),
{
    law_store_push_starts_consistent(locked, s);
    lemma_run_push_consistent(initial_push(locked), s, steps);
    let (m, s2) = run_push(initial_push(locked), s, steps);
    law_store_commit_keeps_invariant(m, s2);
}

/// How a pushed vault is decided: a new vault (base revision 0) is
/// inserted at revision 1 with next revision 2; a change based on a
/// revision older than the stored one, or on a vault that is not stored,
/// is a conflict and changes nothing but the conflict list; any other
/// change takes the vault's next revision, which moves on by one.
pub proof fn law_vault_step_rules(m: PushModel, vault: VaultPush, current_revision: Option<i64>)
    ensures
        ({
            let (m2, d) = vault_step(m, vault, current_revision);
            &&& vault.base_revision == 0 ==> {
                &&& d == EntryDecision::Insert { revision: 1 }
                &&& m2.accepted == m.accepted.insert(vault.id, 1)
                &&& m2.vault_state == m.vault_state.insert(vault.id, 2)
                &&& m2.conflicts == m.conflicts
            }
            &&& vault.base_revision != 0 && (current_revision is None || (current_revision matches Some(c)
                && vault.base_revision < c)) ==> {
                &&& d == EntryDecision::Conflict
                &&& m2.conflicts == m.conflicts.push(vault.id)
                &&& m2.accepted == m.accepted
                &&& m2.vault_state == m.vault_state
            }
            &&& vault.base_revision != 0 && (current_revision matches Some(c) && vault.base_revision >= c) ==> {
                let r = m.vault_state[vault.id];
                &&& d == EntryDecision::Update { revision: r }
                &&& m2.accepted == m.accepted.insert(vault.id, r)
                &&& m2.vault_state == m.vault_state.insert(vault.id, (r + 1) as i64)
                &&& m2.conflicts == m.conflicts
            }
        }),
{
}

/// How a pushed item is decided: an item of a vault without a timeline in
/// the push, or a change based on a revision older than the stored one (or
/// on an item that is not stored), is a conflict and changes nothing but
/// the conflict list; otherwise the item takes its vault's next revision
/// (inserted when new, updated otherwise), which moves on by one.
pub proof fn law_item_step_rules(m: PushModel, item: ItemPush, current_revision: Option<i64>)
    ensures
        ({
            let (m2, d) = item_step(m, item, current_revision);
            &&& !m.vault_state.contains_key(item.vault_id) || (item.base_revision != 0 && (current_revision is None
                || (current_revision matches Some(c) && item.base_revision < c))) ==> {
                &&& d == EntryDecision::Conflict
                &&& m2.conflicts == m.conflicts.push(item.id)
                &&& m2.accepted == m.accepted
                &&& m2.vault_state == m.vault_state
            }
            &&& m.vault_state.contains_key(item.vault_id) && (item.base_revision == 0 || (current_revision matches Some(
                c,
            ) && item.base_revision >= c)) ==> {
                let r = m.vault_state[item.vault_id];
                &&& d == (if item.base_revision == 0 {
                    EntryDecision::Insert { revision: r }
                } else {
                    EntryDecision::Update { revision: r }
                })
                &&& m2.accepted == m.accepted.insert(item.id, r)
                &&& m2.vault_state == m.vault_state.insert(item.vault_id, (r + 1) as i64)
                &&& m2.conflicts == m.conflicts
            }
        }),
{
}

} // verus!
