//! The subcommands of the command line, as plain values.

use vstd::prelude::*;

verus! {

/// What `arcan vault` can do.
pub enum VaultCommands {
    /// Creates a vault; without a name the user is asked for one.
    Create { name: Option<String> },
    /// Lists the vaults with their names.
    List,
    /// Deletes the vault with this id.
    Delete { id: String },
}

/// What `arcan item` can do. A vault or item left out is chosen
/// interactively.
pub enum ItemCommands {
    /// Creates an item in a vault.
    Create { vault: Option<String> },
    /// Lists the items of a vault.
    List { vault_id: String },
    /// Shows an item.
    View { vault: Option<String>, item: Option<String> },
    /// Deletes an item.
    Delete { vault: Option<String>, item: Option<String> },
}

/// An item given entirely on the command line, one variant per kind.
pub enum CreateItemPayload {
    Login { username: String, password: String, url: Option<String> },
    Note { content: String },
    Totp { secret: String, account_name: Option<String> },
    Card { cardholder: String, number: String, exp_month: u8, exp_year: u16, cvv: String },
}

} // verus!
