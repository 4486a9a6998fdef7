//! Server-side logic: authentication decisions and the sync protocol.

pub mod auth;
pub mod pull;
pub mod push;
pub mod status;
