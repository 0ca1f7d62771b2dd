//! Core networking subsystem for a game server speaking the Minecraft Java
//! Edition wire protocol (version 759): wire primitives, a typed packet
//! codec, a streaming framer with optional zlib compression and AES-128-CFB8
//! encryption, connection admission control, and identifier validation.

pub mod cfg;
pub mod chat;
pub mod error;
pub mod net_io;
pub mod network;
pub mod protocol;
pub mod util;

use vstd::prelude::*;

verus! {

/// The single protocol version this crate targets.
pub const LATEST_PROTOCOL_VERSION: u32 = 759;

} // verus!
