//! Client-side logic: settings, the unlocked session, vaults, items and sync.

pub mod cli;
pub mod config;
pub mod items;
pub mod session;
pub mod state;
pub mod sync;
pub mod vault;
