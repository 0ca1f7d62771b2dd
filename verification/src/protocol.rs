//! The declared packets of each protocol stage, by side.

pub mod client;
pub mod server;
