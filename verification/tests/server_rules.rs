use std::collections::HashMap;

use arcan::server::auth::{
    check_login_start, check_registration_start, decode_client_field, decode_stored_field, issue_claims,
    login_attempt_key, salt_for_email, LOGIN_ATTEMPT_TTL_SECS, TOKEN_LIFETIME_SECS,
};
use arcan::server::pull::{
    empty_pull_response, item_pull_from_row, plan_pull, vault_pull_from_row, OwnedVault, StoredItem, StoredVault,
};
use arcan::server::push::{involved_vaults, EntryDecision, PushState};
use arcan::server::status::HttpStatus;
use arcan::shared::{ItemPush, PullRequest, PushRequest, VaultPush};
use arcan::text::normalize_email;
use base64::Engine;
use hmac::Mac;

const V1: u128 = 0x1111_1111_1111_1111_1111_1111_1111_1111;
const V2: u128 = 0x2222_2222_2222_2222_2222_2222_2222_2222;
const I1: u128 = 0xaaaa_aaaa_aaaa_aaaa_aaaa_aaaa_aaaa_aaaa;
const I2: u128 = 0xbbbb_bbbb_bbbb_bbbb_bbbb_bbbb_bbbb_bbbb;

fn vault(id: u128, base: i64) -> VaultPush {
    VaultPush {
        id,
        base_revision: base,
        is_deleted: false,
        encrypted_name: "bmFtZQ==".to_string(),
        encrypted_vsk: "a2V5".to_string(),
        created_at: 0,
        updated_at: 0,
    }
}

fn item(id: u128, vault_id: u128, base: i64) -> ItemPush {
    ItemPush {
        id,
        vault_id,
        base_revision: base,
        is_deleted: false,
        encrypted_payload: Some("cGF5".to_string()),
        created_at: 0,
        updated_at: 0,
    }
}

#[test]
fn normalize_email_trims_and_lowercases() {
    assert_eq!(normalize_email("  Alice@Example.COM \n"), "alice@example.com");
    assert_eq!(normalize_email("bob@x.io"), "bob@x.io");
}

#[test]
fn status_codes() {
    assert_eq!(HttpStatus::Success.code(), 200);
    assert_eq!(HttpStatus::Created.code(), 201);
    assert_eq!(HttpStatus::BadRequest.code(), 400);
    assert_eq!(HttpStatus::Unauthorized.code(), 401);
    assert_eq!(HttpStatus::Conflict.code(), 409);
    assert_eq!(HttpStatus::InternalServerError.code(), 500);
}

#[test]
fn stored_salt_is_returned_as_is() {
    assert_eq!(salt_for_email(Some("c2FsdHNhbHQ".to_string()), "secret", "a@b.c"), "c2FsdHNhbHQ");
}

#[test]
fn unknown_email_gets_hmac_derived_salt() {
    let s1 = salt_for_email(None, "server-secret", "nobody@example.com");
    let s2 = salt_for_email(None, "server-secret", "nobody@example.com");
    assert_eq!(s1, s2);
    let mut mac = hmac::Hmac::<sha2::Sha256>::new_from_slice(b"server-secret").unwrap();
    mac.update(b"nobody@example.com");
    mac.update(b"arcan-deterministic-salt-v1");
    let tag = mac.finalize().into_bytes();
    let expected = base64::engine::general_purpose::STANDARD.encode(&tag[..16]);
    assert_eq!(s1, expected);
    assert_eq!(s1.len(), 24);
    assert_ne!(s1, salt_for_email(None, "server-secret", "other@example.com"));
    assert_ne!(s1, salt_for_email(None, "another-secret", "nobody@example.com"));
}

#[test]
fn client_fields_decode_or_bad_request() {
    assert_eq!(decode_client_field("aGk="), Ok(b"hi".to_vec()));
    assert_eq!(decode_client_field("aGk"), Err(HttpStatus::BadRequest));
    assert_eq!(decode_client_field("!!!!"), Err(HttpStatus::BadRequest));
    assert_eq!(decode_client_field(""), Ok(Vec::new()));
}

#[test]
fn stored_fields_decode_or_server_error() {
    assert_eq!(decode_stored_field("AAEC"), Ok(vec![0u8, 1, 2]));
    assert_eq!(decode_stored_field("AAE="), Ok(vec![0u8, 1]));
    assert_eq!(decode_stored_field("AAF="), Err(HttpStatus::InternalServerError));
}

#[test]
fn registration_of_existing_address_conflicts_first() {
    assert_eq!(check_registration_start(true, "not base64!"), Err(HttpStatus::Conflict));
    assert_eq!(check_registration_start(false, "not base64!"), Err(HttpStatus::BadRequest));
    assert_eq!(check_registration_start(false, "aGk="), Ok(b"hi".to_vec()));
}

#[test]
fn login_of_unknown_address_is_unauthorized() {
    assert_eq!(check_login_start(false, "aGk="), Err(HttpStatus::Unauthorized));
    assert_eq!(check_login_start(true, "%%"), Err(HttpStatus::BadRequest));
    assert_eq!(check_login_start(true, "aGk="), Ok(b"hi".to_vec()));
}

#[test]
fn login_attempt_key_names_the_uuid() {
    let id: u128 = 0x0123_4567_89ab_cdef_0123_4567_89ab_cdef;
    assert_eq!(login_attempt_key(id), "login_attempt_01234567-89ab-cdef-0123-456789abcdef");
    assert_eq!(LOGIN_ATTEMPT_TTL_SECS, 120);
}

#[test]
fn claims_last_seven_days() {
    let c = issue_claims(V1, 1_700_000_000, I1);
    assert_eq!(c.sub, "11111111-1111-1111-1111-111111111111");
    assert_eq!(c.jti, "aaaaaaaa-aaaa-aaaa-aaaa-aaaaaaaaaaaa");
    assert_eq!(c.iat, 1_700_000_000);
    assert_eq!(c.nbf, 1_700_000_000);
    assert_eq!(c.exp, 1_700_000_000 + 7 * 24 * 3600);
    assert_eq!(TOKEN_LIFETIME_SECS, 604800);
    assert_eq!(c.iss, "https://sanctum.lucalewin.dev");
    assert_eq!(c.aud, "https://sanctum.lucalewin.dev");
}

#[test]
fn involved_vaults_sorted_once() {
    let req = PushRequest {
        vaults: vec![vault(V2, 1), vault(V1, 0)],
        items: vec![item(I1, V2, 0), item(I2, V1, 0), item(I2, V2, 3)],
    };
    assert_eq!(involved_vaults(&req), vec![V1, V2]);
    let empty = PushRequest { vaults: vec![], items: vec![] };
    assert!(involved_vaults(&empty).is_empty());
}

#[test]
fn new_vault_gets_revision_one() {
    let mut st = PushState::new(&vec![]);
    assert_eq!(st.vault_decision(&vault(V1, 0), None), EntryDecision::Insert { revision: 1 });
    assert!(st.knows_vault(V1));
    assert_eq!(st.item_decision(&item(I1, V1, 0), None), EntryDecision::Insert { revision: 2 });
    assert_eq!(st.item_decision(&item(I2, V1, 0), None), EntryDecision::Insert { revision: 3 });
    let out = st.finish();
    assert_eq!(out.status, HttpStatus::Success);
    assert!(out.commit);
    let mut expected = HashMap::new();
    expected.insert(V1, 1);
    expected.insert(I1, 2);
    expected.insert(I2, 3);
    assert_eq!(out.response.accepted_revisions, expected);
    assert!(out.response.conflicts.is_empty());
}

#[test]
fn current_change_takes_next_revision() {
    let mut st = PushState::new(&vec![(V1, 6)]);
    assert_eq!(st.vault_decision(&vault(V1, 5), Some(5)), EntryDecision::Update { revision: 6 });
    assert_eq!(st.item_decision(&item(I1, V1, 4), Some(4)), EntryDecision::Update { revision: 7 });
    let out = st.finish();
    assert_eq!(out.status.code(), 200);
    assert_eq!(out.response.accepted_revisions.get(&V1), Some(&6));
    assert_eq!(out.response.accepted_revisions.get(&I1), Some(&7));
}

#[test]
fn stale_change_conflicts_and_push_is_refused() {
    let mut st = PushState::new(&vec![(V1, 10)]);
    assert_eq!(st.vault_decision(&vault(V1, 7), Some(9)), EntryDecision::Conflict);
    assert_eq!(st.item_decision(&item(I1, V1, 0), None), EntryDecision::Insert { revision: 10 });
    assert_eq!(st.item_decision(&item(I2, V1, 2), None), EntryDecision::Conflict);
    let out = st.finish();
    assert_eq!(out.status, HttpStatus::Conflict);
    assert!(!out.commit);
    assert!(out.response.accepted_revisions.is_empty());
    assert_eq!(out.response.conflicts, vec![V1, I2]);
}

#[test]
fn item_of_unlocked_vault_conflicts() {
    let mut st = PushState::new(&vec![(V1, 3)]);
    assert!(!st.knows_vault(V2));
    assert_eq!(st.item_decision(&item(I1, V2, 0), None), EntryDecision::Conflict);
    assert_eq!(st.vault_decision(&vault(V2, 4), None), EntryDecision::Conflict);
    assert_eq!(st.finish().response.conflicts, vec![I1, V2]);
}

#[test]
fn pushed_vault_decodes_fields() {
    let d = vault(V1, 0).decode().unwrap();
    assert_eq!(d.name, b"name".to_vec());
    assert_eq!(d.vsk, b"key".to_vec());
    assert_eq!(d.created_at, Some(0));
    let mut bad = vault(V1, 0);
    bad.encrypted_vsk = "k".to_string();
    assert!(matches!(bad.decode(), Err(HttpStatus::BadRequest)));
}

#[test]
fn out_of_range_timestamp_stands_for_now() {
    let mut v = vault(V1, 0);
    v.created_at = 1_700_000_000;
    v.updated_at = i64::MAX;
    let d = v.decode().unwrap();
    assert_eq!(d.created_at, Some(1_700_000_000));
    assert_eq!(d.updated_at, None);
}

#[test]
fn pushed_item_decodes_payload() {
    let d = item(I1, V1, 0).decode().unwrap();
    assert_eq!(d.payload, b"pay".to_vec());
    let mut none = item(I1, V1, 0);
    none.encrypted_payload = None;
    assert!(none.decode().unwrap().payload.is_empty());
    let mut bad = item(I1, V1, 0);
    bad.encrypted_payload = Some("@".to_string());
    assert!(matches!(bad.decode(), Err(HttpStatus::BadRequest)));
}

#[test]
fn pull_plan_from_owned_vaults() {
    let owned = vec![OwnedVault { id: V1, next_revision: 5 }, OwnedVault { id: V2, next_revision: 1 }];
    let mut revs = HashMap::new();
    revs.insert(V1, 3);
    let plan = plan_pull(&owned, &PullRequest { vault_revisions: revs });
    assert_eq!(plan.vault_ids, vec![V1, V2]);
    assert_eq!(plan.requested_revs, vec![3, 0]);
    assert_eq!(plan.current_revisions.get(&V1), Some(&4));
    assert_eq!(plan.current_revisions.get(&V2), Some(&0));
    assert_eq!(plan.current_revisions.len(), 2);
}

#[test]
fn empty_pull_has_nothing() {
    let r = empty_pull_response();
    assert!(r.current_revisions.is_empty() && r.vaults.is_empty() && r.items.is_empty());
}

#[test]
fn stored_rows_are_sent_in_base64() {
    let row = StoredVault {
        id: V1,
        server_revision: 4,
        is_deleted: false,
        encrypted_name: b"name".to_vec(),
        encrypted_vsk: b"key".to_vec(),
        created_at: 1,
        updated_at: 2,
    };
    let v = vault_pull_from_row(&row);
    assert_eq!(v.encrypted_name, "bmFtZQ==");
    assert_eq!(v.encrypted_vsk, "a2V5");
    assert_eq!((v.id, v.server_revision, v.created_at, v.updated_at), (V1, 4, 1, 2));
    let mut irow = StoredItem {
        id: I1,
        vault_id: V1,
        server_revision: 5,
        is_deleted: false,
        encrypted_payload: b"pay".to_vec(),
        created_at: 1,
        updated_at: 2,
    };
    assert_eq!(item_pull_from_row(&irow).encrypted_payload, Some("cGF5".to_string()));
    irow.is_deleted = true;
    let deleted = item_pull_from_row(&irow);
    assert!(deleted.is_deleted);
    assert_eq!(deleted.encrypted_payload, None);
}

#[test]
fn normalize_email_is_idempotent_and_ignores_case_and_space() {
    let once = normalize_email(" Carol.Smith@Example.ORG\t");
    assert_eq!(once, "carol.smith@example.org");
    assert_eq!(normalize_email(&once), once);
    assert_eq!(normalize_email(&format!(" {}\t", "carol.smith@example.org".to_ascii_uppercase())), once);
}

#[test]
fn committed_revisions_stay_below_next_revision() {
    let mut st = PushState::new(&vec![(V1, 4)]);
    st.vault_decision(&vault(V1, 3), Some(3));
    st.item_decision(&item(I1, V1, 0), None);
    st.item_decision(&item(I2, V1, 2), Some(2));
    let next = *st.vault_state.get(&V1).unwrap();
    assert_eq!(next, 7);
    for rev in st.accepted.values() {
        assert!(*rev < next);
    }
    assert!(st.finish().commit);
}
