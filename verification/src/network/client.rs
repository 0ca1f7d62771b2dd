//! The per-connection protocol state and the decisions the connection
//! driver takes: where a handshake leads, what the status responder sends,
//! and which disconnect packet a state allows. The driver performs the
//! socket work and feeds packets in; every decision is taken here.

use vstd::prelude::*;

use crate::cfg::{RuntimeConfiguration, SoulflameConfiguration};
use crate::chat::{json_string, Component};
use crate::error::{ProtocolKind, WireError};
use crate::protocol::client::handshake::{HandshakeState, PacketHandshakeIn};
use crate::protocol::client::status::PacketStatusInPing;
use crate::protocol::server::login::PacketLoginOutDisconnect;
use crate::protocol::server::play::PacketPlayOutDisconnect;
use crate::protocol::server::status::{
    spec_samples, status_json, PacketStatusOutPong, PacketStatusOutResponse, ServerPlayers,
    ServerVersion, StatusResponse,
};

verus! {

/// The protocol state a connection is in.
#[derive(Debug, Copy, Clone, PartialEq, Eq, Structural)]
pub enum ProtocolState {
    Handshake,
    Status,
    Login,
    Play,
}

/// Where a handshake packet moves the connection: to Status or Login as the
/// client asked, and only from the Handshake state.
pub fn handshake_transition(state: ProtocolState, packet: &PacketHandshakeIn) -> (r: Result<
    ProtocolState,
    WireError,
>)
    ensures
        state == ProtocolState::Handshake ==> r == Ok::<ProtocolState, WireError>(
            match packet.next_state {
                HandshakeState::Status => ProtocolState::Status,
                HandshakeState::Login => ProtocolState::Login,
            },
        ),
        state != ProtocolState::Handshake ==> r == Err::<ProtocolState, WireError>(
            WireError::Protocol(ProtocolKind::InvalidTransition),
        ),
{
    if !matches!(state, ProtocolState::Handshake) {
        return Err(WireError::Protocol(ProtocolKind::InvalidTransition));
    }
    match packet.next_state {
        HandshakeState::Status => Ok(ProtocolState::Status),
        HandshakeState::Login => Ok(ProtocolState::Login),
    }
}

/// The status payload the server answers a request with: the fixed version
/// block, the configured cap with nobody online, the message of the day as
/// a plain text component, and the favicon data URI.
pub fn build_status_response(
    config: &SoulflameConfiguration,
    runtime: &RuntimeConfiguration,
) -> (r: StatusResponse)
    ensures
        r.version.name@ == "Latest"@,
        r.version.protocol == crate::LATEST_PROTOCOL_VERSION as i32,
        r.players.max == config.max_players as i32,
        r.players.online == 0,
        r.players.sample@.len() == 0,
        r.description.spec_json() == "{\"text\":"@ + json_string(config.motd@) + "}"@,
        r.favicon@ == runtime.favicon@,
{
    StatusResponse::new(
        ServerVersion::new(String::from_str("Latest"), 759),
        ServerPlayers::new(
            #[verifier::truncate] (config.max_players as i32),
            0,
            Vec::new(),
        ),
        Component::plain(config.motd.as_str()),
        runtime.favicon.clone(),
    )
}

/// The framed response packet for the status request.
pub fn status_response_packet(
    config: &SoulflameConfiguration,
    runtime: &RuntimeConfiguration,
) -> (r: PacketStatusOutResponse)
    ensures
        r.response@ == status_json(
            "Latest"@,
            crate::LATEST_PROTOCOL_VERSION as i32,
            config.max_players as i32,
            0,
            Seq::<(Seq<char>, u128)>::empty(),
            "{\"text\":"@ + json_string(config.motd@) + "}"@,
            runtime.favicon@,
        ),
{
    let status: StatusResponse = build_status_response(config, runtime);
    let r: PacketStatusOutResponse = PacketStatusOutResponse::from_status(&status);
    proof {
        assert(spec_samples(status.players.sample@) =~= Seq::<(Seq<char>, u128)>::empty());
    }
    r
}

/// The pong that answers a ping: it carries the identical payload.
pub fn pong_for(ping: &PacketStatusInPing) -> (r: PacketStatusOutPong)
    ensures
        r.payload == ping.payload,
{
    PacketStatusOutPong::new(ping.payload)
}

/// A disconnect packet, shaped for the state the connection is in.
#[derive(Debug, Clone)]
pub enum DisconnectPacket {
    /// Sent while logging in.
    Login(PacketLoginOutDisconnect),
    /// Sent during play.
    Play(PacketPlayOutDisconnect),
}

/// The disconnect packet the current state allows: Login and Play each
/// have one; in Handshake and Status the connection is simply dropped.
pub fn disconnect_packet(state: ProtocolState, reason: Component) -> (r: Result<
    DisconnectPacket,
    WireError,
>)
    ensures
        state == ProtocolState::Login ==> (r matches Ok(d) && d matches DisconnectPacket::Login(
            p,
        ) && p.reason == reason),
        state == ProtocolState::Play ==> (r matches Ok(d) && d matches DisconnectPacket::Play(p)
            && p.reason == reason),
        state == ProtocolState::Handshake || state == ProtocolState::Status ==> r == Err::<
            DisconnectPacket,
            WireError,
        >(WireError::Protocol(ProtocolKind::InvalidTransition)),
{
    match state {
        ProtocolState::Login => Ok(DisconnectPacket::Login(PacketLoginOutDisconnect::new(reason))),
        ProtocolState::Play => Ok(DisconnectPacket::Play(PacketPlayOutDisconnect::new(reason))),
        _ => Err(WireError::Protocol(ProtocolKind::InvalidTransition)),
    }
}

} // verus!
