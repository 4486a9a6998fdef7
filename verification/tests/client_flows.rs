use arcan::client::config::ArcanConfig;
use arcan::client::items::{
    card_payload, item_query, login_payload, new_envelope, note_payload, open_item, optional_answer, seal_item,
    seal_new_item, ssh_key_payload, totp_payload, ItemPayload, ItemQuery, ItemType,
};
use arcan::client::session::{
    new_account_keys, onboarding_keys, salt_text_valid, session_env_text, session_from_env_text, unlock_session, ArcanSession,
    UnlockError,
};
use arcan::client::sync::{
    build_push_request, high_water_marks, item_push_from_local, local_item_from_pull, local_vault_from_pull,
    vault_push_from_local, LocalItem, LocalVault, SyncError,
};
use arcan::client::vault::{
    create_vault, decrypt_vsk, find_vault_by_name, open_vault_name, resolve_vault, seal_vault, vault_choices,
    ClientError, VaultRecord,
};
use arcan::crypto::derive_subkey;
use arcan::shared::{ItemPull, VaultPull};
use base64::Engine;

const VID: &str = "0b5e7c2a-4d1f-4c3e-9a8b-112233445566";
const VID_U: u128 = 0x0b5e7c2a_4d1f_4c3e_9a8b_112233445566;
const IID: &str = "7f000000-0000-4000-8000-00000000abcd";
const IID_U: u128 = 0x7f000000_0000_4000_8000_00000000abcd;

fn b64(bytes: &[u8]) -> String {
    base64::engine::general_purpose::STANDARD.encode(bytes)
}

fn record(kek: &[u8; 32], id: &str, name: &str, vsk: &[u8; 32]) -> VaultRecord {
    let sealed = seal_vault(kek, vsk, id, name).unwrap();
    VaultRecord { id: id.to_string(), encrypted_name: sealed.encrypted_name, encrypted_vsk: sealed.encrypted_vsk }
}

#[test]
fn default_config_points_at_local_server() {
    let c = ArcanConfig::default();
    assert_eq!(c.api_url, "http://127.0.0.1:3000");
    assert_eq!(c.sync_timeout_secs, 30);
}

#[test]
fn session_keys_decode_from_base64() {
    let s = ArcanSession { kek: b64(&[0u8; 32]), auth: b64(&[1u8; 32]) };
    assert_eq!(s.encryption_key().unwrap(), [0u8; 32]);
    assert_eq!(s.authentication_key().unwrap(), [1u8; 32]);
}

#[test]
fn session_key_errors_name_the_problem() {
    let s = ArcanSession { kek: "###".to_string(), auth: b64(&[1u8; 31]) };
    assert_eq!(s.encryption_key(), Err("Failed to decode KEK from session.".to_string()));
    assert_eq!(s.authentication_key(), Err("Invalid auth key length in session.".to_string()));
    let s2 = ArcanSession { kek: b64(&[0u8; 33]), auth: "@@".to_string() };
    assert_eq!(s2.encryption_key(), Err("Invalid KEK length in session.".to_string()));
    assert_eq!(s2.authentication_key(), Err("Failed to decode auth key from session.".to_string()));
}

#[test]
fn session_env_text_roundtrip() {
    let json = br#"{"kek":"AAAA","auth":"AQEB"}"#;
    let text = session_env_text(json);
    assert_eq!(text, b64(json));
    assert_eq!(session_from_env_text(&text), Ok(json.to_vec()));
    assert_eq!(
        session_from_env_text("not base64"),
        Err("Failed to decode session from environment variable.".to_string())
    );
}

#[test]
fn onboarded_password_unlocks() {
    let salt = "c29tZXNhbHRzb21lc2FsdA";
    let keys = onboarding_keys("correct horse", salt).unwrap();
    let s = unlock_session(salt, "correct horse", &keys.verification_subkey).unwrap();
    assert_eq!(s.authentication_key().unwrap(), keys.auth_subkey);
    assert_eq!(s.encryption_key().unwrap().len(), 32);
    assert_ne!(s.encryption_key().unwrap(), keys.auth_subkey);
    assert!(matches!(
        unlock_session(salt, "wrong horse", &keys.verification_subkey),
        Err(UnlockError::InvalidPassword)
    ));
}

#[test]
fn invalid_salt_is_refused() {
    assert!(matches!(unlock_session("bad salt!", "pw", &[0u8; 32]), Err(UnlockError::InvalidSalt)));
    assert!(matches!(onboarding_keys("pw", "no"), Err(UnlockError::InvalidSalt)));
}

#[test]
fn new_account_salt_is_fresh() {
    let a = new_account_keys("hunter2");
    assert_eq!(a.salt.len(), 22);
    let again = onboarding_keys("hunter2", &a.salt).unwrap();
    assert_eq!(again.verification_subkey, a.keys.verification_subkey);
    assert_eq!(again.auth_subkey, a.keys.auth_subkey);
}

#[test]
fn created_vault_opens_to_its_name() {
    let kek = [3u8; 32];
    let v = create_vault(&kek, "Personal").unwrap();
    assert_eq!(v.id.len(), 36);
    let name = open_vault_name(&kek, &v.id, &v.sealed.encrypted_name, &v.sealed.encrypted_vsk);
    assert_eq!(name, Ok("Personal".to_string()));
    assert_eq!(
        open_vault_name(&[4u8; 32], &v.id, &v.sealed.encrypted_name, &v.sealed.encrypted_vsk),
        Err(ClientError::VskDecryptFailed)
    );
    assert_eq!(
        open_vault_name(&kek, VID, &v.sealed.encrypted_name, &v.sealed.encrypted_vsk),
        Err(ClientError::VskDecryptFailed)
    );
}

#[test]
fn vault_key_errors() {
    let kek = [5u8; 32];
    assert_eq!(decrypt_vsk(&kek, &[0u8; 10], VID), Err(ClientError::PayloadTooShort));
    let r = record(&kek, VID, "Work", &[9u8; 32]);
    assert_eq!(decrypt_vsk(&kek, &r.encrypted_vsk, VID), Ok([9u8; 32]));
    assert_eq!(open_vault_name(&kek, VID, &[1u8; 39], &r.encrypted_vsk), Err(ClientError::PayloadTooShort));
    let other = record(&kek, VID, "Other", &[8u8; 32]);
    assert_eq!(
        open_vault_name(&kek, VID, &other.encrypted_name, &r.encrypted_vsk),
        Err(ClientError::NameDecryptFailed)
    );
}

#[test]
fn vault_resolution() {
    let kek = [6u8; 32];
    let second = "22222222-2222-4222-8222-222222222222";
    let vaults = vec![record(&kek, VID, "Personal", &[1u8; 32]), record(&kek, second, "Work", &[2u8; 32])];
    assert_eq!(resolve_vault(&kek, &vaults, Some("Work".to_string())), Ok(Some(second.to_string())));
    assert_eq!(resolve_vault(&kek, &vaults, Some(IID.to_string())), Ok(Some(IID.to_string())));
    assert_eq!(resolve_vault(&kek, &vaults, None), Ok(None));
    assert_eq!(resolve_vault(&kek, &vaults, Some("Missing".to_string())), Err(ClientError::VaultNotFound));
    assert_eq!(resolve_vault(&kek, &Vec::new(), Some("Work".to_string())), Err(ClientError::NoVaults));
    assert_eq!(find_vault_by_name(&kek, &vaults, "Personal"), Ok(VID.to_string()));
    assert_eq!(find_vault_by_name(&[7u8; 32], &vaults, "Work"), Err(ClientError::VskDecryptFailed));
    let choices = vault_choices(&kek, &vaults).unwrap();
    assert_eq!(
        choices,
        vec![("Personal".to_string(), VID.to_string()), ("Work".to_string(), second.to_string())]
    );
}

#[test]
fn error_messages() {
    assert_eq!(ClientError::NoVaults.message(), "No vaults found.");
    assert_eq!(ClientError::VskDecryptFailed.message(), "Failed to decrypt VSK.");
    assert_eq!(ClientError::NoItems.message(), "No items found in this vault.");
    assert_eq!(ClientError::PayloadTooShort.message(), "Payload too short to be valid XChaCha20Poly1305");
}

#[test]
fn sealed_item_opens_to_plaintext() {
    let vsk = [12u8; 32];
    let packed = seal_item(&vsk, IID, b"{\"title\":\"t\"}").unwrap();
    assert_eq!(packed.len(), 24 + 13 + 16);
    assert_eq!(open_item(&vsk, IID, &packed), Ok(b"{\"title\":\"t\"}".to_vec()));
    assert_eq!(open_item(&vsk, VID, &packed), Err(ClientError::ItemDecryptFailed));
    assert_eq!(open_item(&vsk, IID, &packed[..30]), Err(ClientError::PayloadTooShort));
    let it = seal_new_item(&vsk, b"abc").unwrap();
    assert_eq!(open_item(&vsk, &it.id, &it.encrypted_payload), Ok(b"abc".to_vec()));
}

#[test]
fn item_payload_builders() {
    match login_payload("u".to_string(), "p".to_string(), String::new()) {
        ItemPayload::Login(l) => {
            assert_eq!((l.username.as_str(), l.password.as_str(), l.url), ("u", "p", None));
        }
        _ => panic!("not a login"),
    }
    match totp_payload("S".to_string(), "acct".to_string()) {
        ItemPayload::Totp(t) => {
            assert_eq!(t.account_name, Some("acct".to_string()));
            assert_eq!(t.issuer, None);
        }
        _ => panic!("not a totp"),
    }
    match ssh_key_payload(String::new(), "PRIV".to_string()) {
        ItemPayload::SshKey(k) => {
            assert_eq!(k.private_key, "PRIV");
            assert_eq!(k.public_key, None);
        }
        _ => panic!("not a key"),
    }
    let card = card_payload("A B".to_string(), "4111111111111111".to_string(), 12, 2030, "123".to_string());
    assert_eq!(card.type_label(), "Card");
    assert_eq!(note_payload("n".to_string()).item_type(), ItemType::Note);
    let env = new_envelope("Title".to_string(), note_payload("hello".to_string()));
    assert_eq!(env.title, "Title");
    assert!(env.tags.is_empty());
    assert_eq!(optional_answer(String::new()), None);
    assert_eq!(optional_answer("x".to_string()), Some("x".to_string()));
}

#[test]
fn item_type_menu_and_labels() {
    let menu = ItemType::menu();
    assert_eq!(menu, vec![ItemType::Login, ItemType::TOTP, ItemType::SshKey, ItemType::Note, ItemType::Card]);
    let labels: Vec<&str> = menu.iter().map(|t| t.label()).collect();
    assert_eq!(labels, vec!["Login", "TOTP", "SSH Key", "Note", "Card"]);
}

#[test]
fn item_argument_resolution() {
    assert!(matches!(item_query(0, Some("x".to_string())), Err(ClientError::NoItems)));
    assert!(matches!(item_query(2, None), Ok(ItemQuery::Choose)));
    assert!(matches!(item_query(2, Some(IID.to_string())), Ok(ItemQuery::ById(s)) if s == IID));
    assert!(matches!(item_query(2, Some("GitHub".to_string())), Ok(ItemQuery::ByTitle(s)) if s == "GitHub"));
}

fn local_vault(id: &str) -> LocalVault {
    LocalVault {
        id: id.to_string(),
        encrypted_name: b"name".to_vec(),
        encrypted_vsk: b"key".to_vec(),
        server_revision: 3,
        is_deleted: 1,
        created_at: 10,
        updated_at: 11,
    }
}

fn local_item(id: &str, vault_id: &str) -> LocalItem {
    LocalItem {
        id: id.to_string(),
        vault_id: vault_id.to_string(),
        encrypted_payload: b"pay".to_vec(),
        server_revision: 0,
        is_deleted: 0,
        created_at: 1,
        updated_at: 2,
    }
}

#[test]
fn local_rows_become_push_entries() {
    let p = vault_push_from_local(&local_vault(VID)).unwrap();
    assert_eq!(p.id, VID_U);
    assert_eq!((p.base_revision, p.is_deleted), (3, true));
    assert_eq!(p.encrypted_name, "bmFtZQ==");
    assert_eq!(p.encrypted_vsk, "a2V5");
    let i = item_push_from_local(&local_item(IID, VID)).unwrap();
    assert_eq!((i.id, i.vault_id), (IID_U, VID_U));
    assert_eq!(i.encrypted_payload, Some("cGF5".to_string()));
    assert!(!i.is_deleted);
    assert!(matches!(vault_push_from_local(&local_vault("vault-1")), Err(SyncError::InvalidId)));
}

#[test]
fn push_request_only_when_something_changed() {
    assert!(matches!(build_push_request(&vec![], &vec![]), Ok(None)));
    let req = build_push_request(&vec![local_vault(VID)], &vec![local_item(IID, VID)]).unwrap().unwrap();
    assert_eq!(req.vaults.len(), 1);
    assert_eq!(req.items.len(), 1);
    assert!(matches!(
        build_push_request(&vec![], &vec![local_item(IID, "nope")]),
        Err(SyncError::InvalidId)
    ));
}

#[test]
fn pulled_entries_become_local_rows() {
    let v = VaultPull {
        id: VID_U,
        server_revision: 8,
        is_deleted: false,
        encrypted_name: "bmFtZQ==".to_string(),
        encrypted_vsk: "a2V5".to_string(),
        created_at: 1,
        updated_at: 2,
    };
    let l = local_vault_from_pull(&v).unwrap();
    assert_eq!(l.id, VID);
    assert_eq!((l.encrypted_name, l.encrypted_vsk), (b"name".to_vec(), b"key".to_vec()));
    assert_eq!((l.server_revision, l.is_deleted), (8, 0));
    let bad = VaultPull { encrypted_vsk: "?".to_string(), ..v };
    assert!(matches!(local_vault_from_pull(&bad), Err(SyncError::InvalidBase64)));
    let i = ItemPull {
        id: IID_U,
        vault_id: VID_U,
        server_revision: 9,
        is_deleted: true,
        encrypted_payload: None,
        created_at: 1,
        updated_at: 2,
    };
    let li = local_item_from_pull(&i).unwrap();
    assert_eq!((li.id.as_str(), li.vault_id.as_str()), (IID, VID));
    assert!(li.encrypted_payload.is_empty());
    assert_eq!(li.is_deleted, 1);
}

#[test]
fn high_water_marks_skip_non_uuids() {
    let rows = vec![(Some(VID.to_string()), 4), (Some("garbage".to_string()), 9), (Some(IID.to_string()), 2)];
    let marks = high_water_marks(&rows);
    assert_eq!(marks.len(), 2);
    assert_eq!(marks.get(&VID_U), Some(&4));
    assert_eq!(marks.get(&IID_U), Some(&2));
}

#[test]
fn subkeys_of_one_root_differ_by_purpose() {
    let root = [1u8; 32];
    assert_ne!(derive_subkey(&root, "arcan-encryption"), derive_subkey(&root, "arcan-authentication"));
}

#[test]
fn vault_survives_push_and_pull() {
    let kek = [21u8; 32];
    let created = create_vault(&kek, "Travel").unwrap();
    let local = LocalVault {
        id: created.id.clone(),
        encrypted_name: created.sealed.encrypted_name.clone(),
        encrypted_vsk: created.sealed.encrypted_vsk.clone(),
        server_revision: 0,
        is_deleted: 0,
        created_at: 100,
        updated_at: 100,
    };
    let pushed = vault_push_from_local(&local).unwrap();
    let decoded = pushed.decode().unwrap();
    let stored = arcan::server::pull::StoredVault {
        id: pushed.id,
        server_revision: 1,
        is_deleted: false,
        encrypted_name: decoded.name,
        encrypted_vsk: decoded.vsk,
        created_at: 100,
        updated_at: 100,
    };
    let pulled = arcan::server::pull::vault_pull_from_row(&stored);
    let back = local_vault_from_pull(&pulled).unwrap();
    assert_eq!(back.id, created.id);
    assert_eq!(back.encrypted_name, local.encrypted_name);
    assert_eq!(back.encrypted_vsk, local.encrypted_vsk);
    assert_eq!(open_vault_name(&kek, &back.id, &back.encrypted_name, &back.encrypted_vsk), Ok("Travel".to_string()));
}

#[test]
fn salt_text_rules() {
    assert!(salt_text_valid("abcd"));
    assert!(salt_text_valid("a-b.c/d+E9"));
    assert!(!salt_text_valid("abc"));
    assert!(!salt_text_valid("ab;d"));
    assert!(!salt_text_valid("abcdé"));
    assert!(salt_text_valid(&"x".repeat(64)));
    assert!(!salt_text_valid(&"x".repeat(65)));
}

#[test]
fn item_survives_push_and_pull() {
    let vsk = [22u8; 32];
    let sealed = seal_new_item(&vsk, b"{\"title\":\"bank\"}").unwrap();
    let local = LocalItem {
        id: sealed.id.clone(),
        vault_id: VID.to_string(),
        encrypted_payload: sealed.encrypted_payload.clone(),
        server_revision: 0,
        is_deleted: 0,
        created_at: 5,
        updated_at: 6,
    };
    let pushed = item_push_from_local(&local).unwrap();
    let decoded = pushed.decode().unwrap();
    let stored = arcan::server::pull::StoredItem {
        id: pushed.id,
        vault_id: pushed.vault_id,
        server_revision: 2,
        is_deleted: false,
        encrypted_payload: decoded.payload,
        created_at: 5,
        updated_at: 6,
    };
    let back = local_item_from_pull(&arcan::server::pull::item_pull_from_row(&stored)).unwrap();
    assert_eq!(back.encrypted_payload, local.encrypted_payload);
    assert_eq!((back.id.as_str(), back.vault_id.as_str()), (local.id.as_str(), VID));
    assert_eq!(open_item(&vsk, &back.id, &back.encrypted_payload), Ok(b"{\"title\":\"bank\"}".to_vec()));
}

fn vault_with_raw_name(kek: &[u8; 32], id: &str, name: &[u8]) -> VaultRecord {
    let vsk = [31u8; 32];
    let base = record(kek, id, "x", &vsk);
    let enc = arcan::crypto::encrypt_payload(&vsk, name, id).unwrap();
    VaultRecord { id: id.to_string(), encrypted_name: enc.pack(), encrypted_vsk: base.encrypted_vsk }
}

#[test]
fn non_utf8_vault_name_reports_position() {
    let kek = [30u8; 32];
    let bad = vault_with_raw_name(&kek, VID, &[0x61, 0xff, 0x62]);
    assert_eq!(
        open_vault_name(&kek, VID, &bad.encrypted_name, &bad.encrypted_vsk),
        Err(ClientError::InvalidUtf8 { valid_up_to: 1, error_len: Some(1) })
    );
    let cut = vault_with_raw_name(&kek, VID, &[0x61, 0x62, 0xe2, 0x82]);
    assert_eq!(
        open_vault_name(&kek, VID, &cut.encrypted_name, &cut.encrypted_vsk),
        Err(ClientError::InvalidUtf8 { valid_up_to: 2, error_len: None })
    );
}

#[test]
fn unknown_salt_has_twenty_four_characters() {
    let s = arcan::server::auth::salt_for_email(None, "k", "x@y.z");
    assert_eq!(s.len(), 24);
    assert!(s.ends_with("=="));
}

#[test]
fn session_roundtrip_and_key_decoding() {
    let kek = base64::engine::general_purpose::STANDARD.encode([0u8; 32]);
    let auth = base64::engine::general_purpose::STANDARD.encode([1u8; 32]);
    let s = ArcanSession { kek: kek.clone(), auth: auth.clone() };

    let mut fields = std::collections::BTreeMap::new();
    fields.insert("kek".to_string(), s.kek.clone());
    fields.insert("auth".to_string(), s.auth.clone());
    let env = session_env_text(serde_json::to_string(&fields).unwrap().as_bytes());

    let decoded = session_from_env_text(&env).unwrap();
    let back: std::collections::BTreeMap<String, String> = serde_json::from_slice(&decoded).unwrap();
    let parsed = ArcanSession { kek: back["kek"].clone(), auth: back["auth"].clone() };
    assert_eq!(parsed.kek, kek);
    assert_eq!(parsed.auth, auth);

    let kek_bytes = parsed.encryption_key().unwrap();
    assert_eq!(kek_bytes, [0u8; 32]);
    let auth_bytes = parsed.authentication_key().unwrap();
    assert_eq!(auth_bytes, [1u8; 32]);
}
