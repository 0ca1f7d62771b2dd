//! The handshake stage: the first packet of every connection.

use vstd::prelude::*;

use crate::error::{ProtocolKind, WireError};
use crate::net_io::packet::{Packet, PacketStage, ProtocolSide};
use crate::net_io::{PacketRead, PacketWrite, PRead, PrefixRead, VarInt};

verus! {

broadcast use crate::net_io::lemma_skip_skip;

/// The state a client asks to move to after the handshake.
#[derive(Debug, Copy, Clone, PartialEq, Eq, Structural)]
pub enum HandshakeState {
    Status,
    Login,
}

impl HandshakeState {
    /// The VarInt tag of this state on the wire.
    pub open spec fn spec_id(&self) -> i32 {
        match self {
            HandshakeState::Status => 1,
            HandshakeState::Login => 2,
        }
    }

    /// The VarInt tag of this state on the wire.
    pub fn id(&self) -> (r: VarInt)
        ensures
            r.0 == self.spec_id(),
    {
        match self {
            HandshakeState::Status => VarInt(1),
            HandshakeState::Login => VarInt(2),
        }
    }

    /// The state a wire tag denotes, if any.
    pub fn from_id(id: i32) -> (r: Result<HandshakeState, WireError>)
        ensures
            id == 1 ==> r == Ok::<HandshakeState, WireError>(HandshakeState::Status),
            id == 2 ==> r == Ok::<HandshakeState, WireError>(HandshakeState::Login),
            id != 1 && id != 2 ==> r == Err::<HandshakeState, WireError>(
                WireError::Protocol(ProtocolKind::InvalidEnumTag),
            ),
    {
        if id == 1 {
            Ok(HandshakeState::Status)
        } else if id == 2 {
            Ok(HandshakeState::Login)
        } else {
            Err(WireError::Protocol(ProtocolKind::InvalidEnumTag))
        }
    }
}

impl DeepView for HandshakeState {
    type V = HandshakeState;

    open spec fn deep_view(&self) -> HandshakeState {
        *self
    }
}

impl PacketWrite for HandshakeState {
    open spec fn wire_wf(&self) -> bool {
        true
    }

    open spec fn wire_enc(&self) -> Seq<u8> {
        VarInt(self.spec_id()).wire_enc()
    }

    fn pack_write(&self, buffer: &mut Vec<u8>, target_version: u32) -> (r: Result<
        (),
        WireError,
    >) {
        self.id().pack_write(buffer, target_version)
    }
}

impl PacketRead for HandshakeState {
    open spec fn wire_parse(s: Seq<u8>) -> PRead<HandshakeState> {
        match <VarInt as PacketRead>::wire_parse(s) {
            PRead::Val(id, n) => if id.0 == 1 {
                PRead::Val(HandshakeState::Status, n)
            } else if id.0 == 2 {
                PRead::Val(HandshakeState::Login, n)
            } else {
                PRead::Fail(WireError::Protocol(ProtocolKind::InvalidEnumTag))
            },
            PRead::Fail(e) => PRead::Fail(e),
        }
    }

    fn pack_read(data: &Vec<u8>, pos: &mut usize, target_version: u32) -> (r: Result<
        HandshakeState,
        WireError,
    >) {
        match <VarInt as PacketRead>::pack_read(data, pos, target_version) {
            Ok(id) => HandshakeState::from_id(id.0),
            Err(e) => Err(e),
        }
    }

    proof fn lemma_enc_parse_exact(v: Self) {
        Self::lemma_enc_parse(v, Seq::empty());
        assert(v.wire_enc() + Seq::<u8>::empty() =~= v.wire_enc());
    }
}

impl PrefixRead for HandshakeState {
    proof fn lemma_enc_parse(v: Self, rest: Seq<u8>) {
        <VarInt as PrefixRead>::lemma_enc_parse(VarInt(v.spec_id()), rest);
    }
}

/// The first inbound packet: protocol version, server address and port, and
/// the requested next state.
#[derive(Debug, Clone, PartialEq)]
pub struct PacketHandshakeIn {
    pub protocol_version: i32,
    pub server_address: String,
    pub server_port: u16,
    pub next_state: HandshakeState,
}

/// The deep view of a handshake packet.
pub struct PacketHandshakeInView {
    pub protocol_version: i32,
    pub server_address: Seq<char>,
    pub server_port: u16,
    pub next_state: HandshakeState,
}

impl PacketHandshakeIn {
    /// Assemble a handshake packet.
    pub fn new(
        protocol_version: i32,
        server_address: String,
        server_port: u16,
        next_state: HandshakeState,
    ) -> (r: PacketHandshakeIn)
        ensures
            r == (PacketHandshakeIn { protocol_version, server_address, server_port, next_state }),
    {
        PacketHandshakeIn { protocol_version, server_address, server_port, next_state }
    }

    /// The state the client asks to move to.
    pub fn next_state(&self) -> (r: &HandshakeState)
        ensures
            r == self.next_state,
    {
        &self.next_state
    }
}

impl DeepView for PacketHandshakeIn {
    type V = PacketHandshakeInView;

    open spec fn deep_view(&self) -> PacketHandshakeInView {
        PacketHandshakeInView {
            protocol_version: self.protocol_version,
            server_address: self.server_address@,
            server_port: self.server_port,
            next_state: self.next_state,
        }
    }
}

impl PacketWrite for PacketHandshakeIn {
    open spec fn wire_wf(&self) -> bool {
        self.server_address.wire_wf()
    }

    open spec fn wire_enc(&self) -> Seq<u8> {
        VarInt(0x00).wire_enc() + VarInt(self.protocol_version).wire_enc()
            + self.server_address.wire_enc() + self.server_port.wire_enc()
            + self.next_state.wire_enc()
    }

    open spec fn wire_write_err(&self) -> WireError {
        self.server_address.wire_write_err()
    }

    fn pack_write(&self, buffer: &mut Vec<u8>, target_version: u32) -> (r: Result<
        (),
        WireError,
    >) {
        let mut scratch: Vec<u8> = Vec::new();
        VarInt(0x00).pack_write(&mut scratch, target_version)?;
        VarInt(self.protocol_version).pack_write(&mut scratch, target_version)?;
        self.server_address.pack_write(&mut scratch, target_version)?;
        self.server_port.pack_write(&mut scratch, target_version)?;
        self.next_state.pack_write(&mut scratch, target_version)?;
        buffer.extend_from_slice(scratch.as_slice());
        proof {
            assert(buffer@ =~= old(buffer)@ + self.wire_enc());
        }
        Ok(())
    }
}

impl PacketRead for PacketHandshakeIn {
    open spec fn wire_parse(s: Seq<u8>) -> PRead<PacketHandshakeInView> {
        match <VarInt as PacketRead>::wire_parse(s) {
            PRead::Fail(e) => PRead::Fail(e),
            PRead::Val(id, n0) => if id.0 != 0x00 {
                PRead::Fail(WireError::Protocol(ProtocolKind::UnknownPacketId))
            } else {
                match <VarInt as PacketRead>::wire_parse(s.skip(n0)) {
                    PRead::Fail(e) => PRead::Fail(e),
                    PRead::Val(pv, n1) => match <String as PacketRead>::wire_parse(
                        s.skip(n0 + n1),
                    ) {
                        PRead::Fail(e) => PRead::Fail(e),
                        PRead::Val(addr, n2) => match <u16 as PacketRead>::wire_parse(
                            s.skip(n0 + n1 + n2),
                        ) {
                            PRead::Fail(e) => PRead::Fail(e),
                            PRead::Val(port, n3) => match <HandshakeState as PacketRead>::wire_parse(
                                s.skip(n0 + n1 + n2 + n3),
                            ) {
                                PRead::Fail(e) => PRead::Fail(e),
                                PRead::Val(st, n4) => PRead::Val(
                                    PacketHandshakeInView {
                                        protocol_version: pv.0,
                                        server_address: addr,
                                        server_port: port,
                                        next_state: st,
                                    },
                                    n0 + n1 + n2 + n3 + n4,
                                ),
                            },
                        },
                    },
                }
            },
        }
    }

    fn pack_read(data: &Vec<u8>, pos: &mut usize, target_version: u32) -> (r: Result<
        PacketHandshakeIn,
        WireError,
    >) {
        let id = <VarInt as PacketRead>::pack_read(data, pos, target_version)?;
        if id.0 != 0x00 {
            return Err(WireError::Protocol(ProtocolKind::UnknownPacketId));
        }
        let pv = <VarInt as PacketRead>::pack_read(data, pos, target_version)?;
        let addr = <String as PacketRead>::pack_read(data, pos, target_version)?;
        let port = <u16 as PacketRead>::pack_read(data, pos, target_version)?;
        let st = <HandshakeState as PacketRead>::pack_read(data, pos, target_version)?;
        Ok(
            PacketHandshakeIn {
                protocol_version: pv.0,
                server_address: addr,
                server_port: port,
                next_state: st,
            },
        )
    }

    proof fn lemma_enc_parse_exact(v: Self) {
        Self::lemma_enc_parse(v, Seq::empty());
        assert(v.wire_enc() + Seq::<u8>::empty() =~= v.wire_enc());
    }
}

impl PrefixRead for PacketHandshakeIn {
    #[verifier::rlimit(60)]
    proof fn lemma_enc_parse(v: Self, rest: Seq<u8>) {
        let e0 = VarInt(0x00).wire_enc();
        let e1 = VarInt(v.protocol_version).wire_enc();
        let e2 = v.server_address.wire_enc();
        let e3 = v.server_port.wire_enc();
        let e4 = v.next_state.wire_enc();
        let s = v.wire_enc() + rest;
        let r4 = e4 + rest;
        let r3 = e3 + r4;
        let r2 = e2 + r3;
        let r1 = e1 + r2;
        assert(s =~= e0 + r1);
        <VarInt as PrefixRead>::lemma_enc_parse(VarInt(0x00), r1);
        assert(s.skip(e0.len() as int) =~= r1);
        <VarInt as PrefixRead>::lemma_enc_parse(VarInt(v.protocol_version), r2);
        assert(s.skip(e0.len() + e1.len() as int) =~= r2);
        <String as PrefixRead>::lemma_enc_parse(v.server_address, r3);
        assert(s.skip(e0.len() + e1.len() + e2.len() as int) =~= r3);
        <u16 as PrefixRead>::lemma_enc_parse(v.server_port, r4);
        assert(s.skip(e0.len() + e1.len() + e2.len() + e3.len() as int) =~= r4);
        <HandshakeState as PrefixRead>::lemma_enc_parse(v.next_state, rest);
    }
}

/// The handshake stage: its single inbound packet.
#[derive(Debug, Clone, PartialEq)]
pub enum InHandshake {
    PacketHandshakeIn(PacketHandshakeIn),
}

/// The deep view of the handshake stage.
pub enum InHandshakeView {
    PacketHandshakeIn(PacketHandshakeInView),
}

impl DeepView for InHandshake {
    type V = InHandshakeView;

    open spec fn deep_view(&self) -> InHandshakeView {
        match self {
            InHandshake::PacketHandshakeIn(p) => InHandshakeView::PacketHandshakeIn(
                p.deep_view(),
            ),
        }
    }
}

impl PacketStage for InHandshake {
    open spec fn spec_name() -> Seq<char> {
        "handshake"@
    }

    open spec fn spec_side() -> ProtocolSide {
        ProtocolSide::Inbound
    }

    fn name() -> (r: String) {
        String::from_str("handshake")
    }

    fn side() -> (r: ProtocolSide) {
        ProtocolSide::Inbound
    }
}

impl Packet<InHandshake> for PacketHandshakeIn {
    open spec fn spec_packet_id() -> u32 {
        0x00
    }

    open spec fn spec_stage(self) -> InHandshake {
        InHandshake::PacketHandshakeIn(self)
    }

    open spec fn spec_side() -> ProtocolSide {
        ProtocolSide::Inbound
    }

    fn packet_id() -> (r: u32) {
        0x00
    }

    fn side() -> (r: ProtocolSide) {
        ProtocolSide::Inbound
    }

    fn into_stage(self) -> (r: InHandshake) {
        InHandshake::PacketHandshakeIn(self)
    }
}

impl PacketWrite for InHandshake {
    open spec fn wire_wf(&self) -> bool {
        match self {
            InHandshake::PacketHandshakeIn(p) => p.wire_wf(),
        }
    }

    open spec fn wire_enc(&self) -> Seq<u8> {
        match self {
            InHandshake::PacketHandshakeIn(p) => p.wire_enc(),
        }
    }

    open spec fn wire_write_err(&self) -> WireError {
        match self {
            InHandshake::PacketHandshakeIn(p) => p.wire_write_err(),
        }
    }

    fn pack_write(&self, buffer: &mut Vec<u8>, target_version: u32) -> (r: Result<
        (),
        WireError,
    >) {
        match self {
            InHandshake::PacketHandshakeIn(p) => p.pack_write(buffer, target_version),
        }
    }
}

impl PacketRead for InHandshake {
    open spec fn wire_parse(s: Seq<u8>) -> PRead<InHandshakeView> {
        match <VarInt as PacketRead>::wire_parse(s) {
            PRead::Fail(e) => PRead::Fail(e),
            PRead::Val(id, n0) => if id.0 == 0x00 {
                match <PacketHandshakeIn as PacketRead>::wire_parse(s) {
                    PRead::Val(p, n) => PRead::Val(InHandshakeView::PacketHandshakeIn(p), n),
                    PRead::Fail(e) => PRead::Fail(e),
                }
            } else {
                PRead::Fail(WireError::Protocol(ProtocolKind::UnknownPacketId))
            },
        }
    }

    fn pack_read(data: &Vec<u8>, pos: &mut usize, target_version: u32) -> (r: Result<
        InHandshake,
        WireError,
    >) {
        let p0: usize = *pos;
        let id = <VarInt as PacketRead>::pack_read(data, pos, target_version)?;
        *pos = p0;
        if id.0 == 0x00 {
            match <PacketHandshakeIn as PacketRead>::pack_read(data, pos, target_version) {
                Ok(p) => Ok(InHandshake::PacketHandshakeIn(p)),
                Err(e) => Err(e),
            }
        } else {
            Err(WireError::Protocol(ProtocolKind::UnknownPacketId))
        }
    }

    proof fn lemma_enc_parse_exact(v: Self) {
        match v {
            InHandshake::PacketHandshakeIn(p) => {
                <PacketHandshakeIn as PrefixRead>::lemma_enc_parse(p, Seq::empty());
                assert(p.wire_enc() + Seq::<u8>::empty() =~= p.wire_enc());
                let e0 = VarInt(0x00).wire_enc();
                let r1 = VarInt(p.protocol_version).wire_enc() + p.server_address.wire_enc()
                    + p.server_port.wire_enc() + p.next_state.wire_enc();
                assert(p.wire_enc() =~= e0 + r1);
                <VarInt as PrefixRead>::lemma_enc_parse(VarInt(0x00), r1);
            },
        }
    }
}

} // verus!
