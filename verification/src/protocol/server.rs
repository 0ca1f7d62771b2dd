//! Packets the server sends.

pub mod login;
pub mod play;
pub mod status;
