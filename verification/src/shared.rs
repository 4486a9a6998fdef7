//! Messages exchanged between the client and the server. Identifiers are
//! UUIDs held as their 128-bit value; maps are keyed by that value.

use std::collections::HashMap;
use vstd::prelude::*;

verus! {

/// Local changes the client sends to the server.
pub struct PushRequest {
    pub vaults: Vec<VaultPush>,
    pub items: Vec<ItemPush>,
}

/// One changed vault; `base_revision` 0 marks a vault the server has never seen.
pub struct VaultPush {
    pub id: u128,
    pub base_revision: i64,
    pub is_deleted: bool,
    pub encrypted_name: String,
    pub encrypted_vsk: String,
    pub created_at: i64,
    pub updated_at: i64,
}

/// One changed item; `base_revision` 0 marks an item the server has never seen.
pub struct ItemPush {
    pub id: u128,
    pub vault_id: u128,
    pub base_revision: i64,
    pub is_deleted: bool,
    pub encrypted_payload: Option<String>,
    pub created_at: i64,
    pub updated_at: i64,
}

/// The server's answer to a push: the revisions it gave to accepted
/// changes, or the ids that conflicted.
pub struct PushResponse {
    pub accepted_revisions: HashMap<u128, i64>,
    pub conflicts: Vec<u128>,
}

/// The highest revision the client holds for each vault.
pub struct PullRequest {
    pub vault_revisions: HashMap<u128, i64>,
}

/// A vault as the server sends it.
pub struct VaultPull {
    pub id: u128,
    pub server_revision: i64,
    pub is_deleted: bool,
    pub encrypted_name: String,
    pub encrypted_vsk: String,
    pub created_at: i64,
    pub updated_at: i64,
}

/// An item as the server sends it; a deleted item carries no payload.
pub struct ItemPull {
    pub id: u128,
    pub vault_id: u128,
    pub server_revision: i64,
    pub is_deleted: bool,
    pub encrypted_payload: Option<String>,
    pub created_at: i64,
    pub updated_at: i64,
}

/// The server's answer to a pull.
pub struct PullResponse {
    pub current_revisions: HashMap<u128, i64>,
    pub vaults: Vec<VaultPull>,
    pub items: Vec<ItemPull>,
}

/// The OPAQUE cipher suite both sides use: Ristretto255 for the OPRF,
/// triple Diffie-Hellman over Ristretto255 with SHA-512, Argon2 as the key
/// stretching function.
pub struct DefaultCipherSuite;

/// First registration message.
pub struct RegistrationStartRequest {
    pub email: String,
    pub client_start: String,
}

/// The server's registration response.
pub struct RegistrationStartResponse {
    pub server_start: String,
}

/// Final registration message; `email` must be the one of the start request.
pub struct RegistrationFinishRequest {
    pub email: String,
    pub salt: String,
    pub client_finish: String,
}

/// First login message.
pub struct LoginStartRequest {
    pub email: String,
    pub client_start: String,
}

/// The server's login response, naming the attempt to finish.
pub struct LoginStartResponse {
    pub attempt_id: u128,
    pub message: String,
}

/// Final login message.
pub struct LoginFinishRequest {
    pub email: String,
    pub attempt_id: u128,
    pub client_finish: String,
}

/// A successful login: the access token and the account salt.
pub struct LoginFinishResponse {
    pub access_token: String,
    pub salt: String,
}

} // verus!
