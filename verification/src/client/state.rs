//! What the client keeps locally about its account.

use vstd::prelude::*;

verus! {

/// The single row of local account state, written at onboarding.
pub struct ClientState {
    /// The account's e-mail address.
    pub email: String,
    /// The verification subkey, which unlocking checks the password against.
    pub local_verifier: Vec<u8>,
    /// The salt the root key is derived with.
    pub master_salt: String,
    /// When the last sync finished, in Unix seconds (0 before the first).
    pub last_sync_at: i64,
}

} // verus!
