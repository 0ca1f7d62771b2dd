//! Server configuration: the static settings a server starts with, and the
//! runtime form with the favicon already encoded as a data URI.

use vstd::prelude::*;

verus! {

/// The settings the server is started with. The favicon is the path of a
/// PNG file; reading it is the caller's business.
#[derive(Debug, Clone)]
pub struct SoulflameConfiguration {
    pub max_players: u32,
    pub motd: String,
    pub favicon: String,
}

impl Default for SoulflameConfiguration {
    fn default() -> (r: SoulflameConfiguration)
        ensures
            r.max_players == 20,
            r.motd@ == "A Soulflame server."@,
            r.favicon@ == "./soulflame/favicon.png"@,
    {
        SoulflameConfiguration {
            max_players: 20,
            motd: String::from_str("A Soulflame server."),
            favicon: String::from_str("./soulflame/favicon.png"),
        }
    }
}

/// The standard base64 encoding of `data`, as base64's engine computes it.
pub uninterp spec fn base64_of(data: Seq<u8>) -> Seq<char>;

/// Relies on base64's standard-alphabet engine: the encoding depends on
/// the input bytes alone, and an empty input encodes to an empty string.
#[verifier::external_body]
fn base64_encode(data: &Vec<u8>) -> (r: String)
    ensures
        r@ == base64_of(data@),
        data@.len() == 0 ==> r@.len() == 0,
{
    base64::Engine::encode(&base64::engine::general_purpose::STANDARD, data.as_slice())
}

/// The favicon bytes as a PNG data URI.
pub fn build_favicon(bytes: &Vec<u8>) -> (r: String)
    ensures
        r@ == "data:image/png;base64,"@ + base64_of(bytes@),
{
    let prefix: String = String::from_str("data:image/png;base64,");
    prefix.concat(base64_encode(bytes).as_str())
}

/// Configuration derived at start-up: the favicon file's contents, already
/// wrapped as a data URI for the status response.
#[derive(Debug, Clone)]
pub struct RuntimeConfiguration {
    pub favicon: String,
}

impl RuntimeConfiguration {
    /// Build the runtime configuration from the favicon file's bytes.
    pub fn from_favicon_bytes(bytes: &Vec<u8>) -> (r: RuntimeConfiguration)
        ensures
            r.favicon@ == "data:image/png;base64,"@ + base64_of(bytes@),
    {
        RuntimeConfiguration { favicon: build_favicon(bytes) }
    }
}

} // verus!
