//! The packet and stage abstractions: a packet belongs to a protocol stage
//! and travels on one side of the connection; a stage is the tagged union of
//! its packets, keyed by a VarInt packet id.

use vstd::prelude::*;

verus! {

/// The direction a packet travels.
#[derive(Debug, Copy, Clone, PartialEq, Eq, Structural)]
pub enum ProtocolSide {
    /// Server to client.
    Outgoing,
    /// Client to server.
    Inbound,
}

/// A protocol stage: a named family of packets on one side.
pub trait PacketStage {
    /// The stage's name.
    spec fn spec_name() -> Seq<char>;

    /// The side whose packets the stage holds.
    spec fn spec_side() -> ProtocolSide;

    /// The stage's name.
    fn name() -> (r: String)
        ensures
            r@ == Self::spec_name(),
    ;

    /// The side whose packets the stage holds.
    fn side() -> (r: ProtocolSide)
        ensures
            r == Self::spec_side(),
    ;
}

/// A packet of stage `S`.
pub trait Packet<S>: Sized {
    /// The packet's id within its stage and side.
    spec fn spec_packet_id() -> u32;

    /// The variant of `S` that carries this packet.
    spec fn spec_stage(self) -> S;

    /// The side the packet travels on.
    spec fn spec_side() -> ProtocolSide;

    /// The packet's id within its stage and side.
    fn packet_id() -> (r: u32)
        ensures
            r == Self::spec_packet_id(),
    ;

    /// The side the packet travels on.
    fn side() -> (r: ProtocolSide)
        ensures
            r == Self::spec_side(),
    ;

    /// Wrap this packet into its stage union.
    fn into_stage(self) -> (r: S)
        ensures
            r == self.spec_stage(),
    ;
}

} // verus!
