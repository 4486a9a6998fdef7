//! Arcan: a zero-knowledge password manager. This crate holds the verified
//! core shared by the server and the command-line client.

pub mod client;
pub mod crypto;
pub mod encoding;
pub mod ids;
pub mod server;
pub mod shared;
pub mod text;
