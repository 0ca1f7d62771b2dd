//! Packets the client sends.

pub mod handshake;
pub mod login;
pub mod status;
