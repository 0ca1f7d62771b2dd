//! The status stage, inbound: the server-list request and ping.

use vstd::prelude::*;

use crate::error::{ProtocolKind, WireError};
use crate::net_io::packet::{Packet, PacketStage, ProtocolSide};
use crate::net_io::{PacketRead, PacketWrite, PRead, PrefixRead, VarInt};

verus! {

broadcast use crate::net_io::lemma_skip_skip;

/// Packet `PacketStatusInRequest` (id 0x0).
#[derive(Debug, Clone, PartialEq)]
pub struct PacketStatusInRequest {}

/// The deep view of `PacketStatusInRequest`.
pub struct PacketStatusInRequestView {}

impl PacketStatusInRequest {
    /// Assemble the packet from its fields.
    pub fn new() -> (r: PacketStatusInRequest)
        ensures
            r == (PacketStatusInRequest {}),
    {
        PacketStatusInRequest {}
    }
}

impl DeepView for PacketStatusInRequest {
    type V = PacketStatusInRequestView;

    open spec fn deep_view(&self) -> PacketStatusInRequestView {
        PacketStatusInRequestView {}
    }
}

impl PacketWrite for PacketStatusInRequest {
    open spec fn wire_wf(&self) -> bool {
        true
    }

    open spec fn wire_enc(&self) -> Seq<u8> {
        VarInt(0x0).wire_enc()
    }

    fn pack_write(&self, buffer: &mut Vec<u8>, target_version: u32) -> (r: Result<
        (),
        WireError,
    >) {
        VarInt(0x0).pack_write(buffer, target_version)?;
        proof {
            assert(buffer@ =~= old(buffer)@ + self.wire_enc());
        }
        Ok(())
    }
}

impl PacketRead for PacketStatusInRequest {
    open spec fn wire_parse(s: Seq<u8>) -> PRead<PacketStatusInRequestView> {
        match <VarInt as PacketRead>::wire_parse(s) {
            PRead::Fail(e) => PRead::Fail(e),
            PRead::Val(id, n0) => if id.0 != 0x0 {
                PRead::Fail(WireError::Protocol(ProtocolKind::UnknownPacketId))
            } else {
                PRead::Val(PacketStatusInRequestView {}, n0)
            },
        }
    }

    fn pack_read(data: &Vec<u8>, pos: &mut usize, target_version: u32) -> (r: Result<
        PacketStatusInRequest,
        WireError,
    >) {
        let id = <VarInt as PacketRead>::pack_read(data, pos, target_version)?;
        if id.0 != 0x0 {
            return Err(WireError::Protocol(ProtocolKind::UnknownPacketId));
        }
        Ok(PacketStatusInRequest {
        })
    }

    proof fn lemma_enc_parse_exact(v: Self) {
        Self::lemma_enc_parse(v, Seq::empty());
        assert(v.wire_enc() + Seq::<u8>::empty() =~= v.wire_enc());
    }
}

impl PrefixRead for PacketStatusInRequest {
    #[verifier::rlimit(80)]
    proof fn lemma_enc_parse(v: Self, rest: Seq<u8>) {
        let e0 = VarInt(0x0).wire_enc();
        let s = v.wire_enc() + rest;
        assert(s =~= e0 + rest);
        <VarInt as PrefixRead>::lemma_enc_parse(VarInt(0x0), rest);
    }
}

impl Packet<InStatus> for PacketStatusInRequest {
    open spec fn spec_packet_id() -> u32 {
        0x0
    }

    open spec fn spec_stage(self) -> InStatus {
        InStatus::PacketStatusInRequest(self)
    }

    open spec fn spec_side() -> ProtocolSide {
        ProtocolSide::Inbound
    }

    fn packet_id() -> (r: u32) {
        0x0
    }

    fn side() -> (r: ProtocolSide) {
        ProtocolSide::Inbound
    }

    fn into_stage(self) -> (r: InStatus) {
        InStatus::PacketStatusInRequest(self)
    }
}

/// Packet `PacketStatusInPing` (id 0x1).
#[derive(Debug, Clone, PartialEq)]
pub struct PacketStatusInPing {
    pub payload: i64,
}

/// The deep view of `PacketStatusInPing`.
pub struct PacketStatusInPingView {
    pub payload: i64,
}

impl PacketStatusInPing {
    /// Assemble the packet from its fields.
    pub fn new(payload: i64) -> (r: PacketStatusInPing)
        ensures
            r == (PacketStatusInPing { payload }),
    {
        PacketStatusInPing { payload }
    }
}

impl DeepView for PacketStatusInPing {
    type V = PacketStatusInPingView;

    open spec fn deep_view(&self) -> PacketStatusInPingView {
        PacketStatusInPingView {
            payload: self.payload,
        }
    }
}

impl PacketWrite for PacketStatusInPing {
    open spec fn wire_wf(&self) -> bool {
        true
    }

    open spec fn wire_enc(&self) -> Seq<u8> {
        VarInt(0x1).wire_enc() + self.payload.wire_enc()
    }

    fn pack_write(&self, buffer: &mut Vec<u8>, target_version: u32) -> (r: Result<
        (),
        WireError,
    >) {
        VarInt(0x1).pack_write(buffer, target_version)?;
        self.payload.pack_write(buffer, target_version)?;
        proof {
            assert(buffer@ =~= old(buffer)@ + self.wire_enc());
        }
        Ok(())
    }
}

impl PacketRead for PacketStatusInPing {
    open spec fn wire_parse(s: Seq<u8>) -> PRead<PacketStatusInPingView> {
        match <VarInt as PacketRead>::wire_parse(s) {
            PRead::Fail(e) => PRead::Fail(e),
            PRead::Val(id, n0) => if id.0 != 0x1 {
                PRead::Fail(WireError::Protocol(ProtocolKind::UnknownPacketId))
            } else {
                match <i64 as PacketRead>::wire_parse(s.skip(n0)) {
                    PRead::Fail(e) => PRead::Fail(e),
                    PRead::Val(x0, n1) => PRead::Val(
                        PacketStatusInPingView {
                            payload: x0,
                        },
                        n0 + n1,
                    ),
                }
            },
        }
    }

    fn pack_read(data: &Vec<u8>, pos: &mut usize, target_version: u32) -> (r: Result<
        PacketStatusInPing,
        WireError,
    >) {
        let id = <VarInt as PacketRead>::pack_read(data, pos, target_version)?;
        if id.0 != 0x1 {
            return Err(WireError::Protocol(ProtocolKind::UnknownPacketId));
        }
        let x0 = <i64 as PacketRead>::pack_read(data, pos, target_version)?;
        Ok(PacketStatusInPing {
            payload: x0,
        })
    }

    proof fn lemma_enc_parse_exact(v: Self) {
        Self::lemma_enc_parse(v, Seq::empty());
        assert(v.wire_enc() + Seq::<u8>::empty() =~= v.wire_enc());
    }
}

impl PrefixRead for PacketStatusInPing {
    #[verifier::rlimit(80)]
    proof fn lemma_enc_parse(v: Self, rest: Seq<u8>) {
        let e0 = VarInt(0x1).wire_enc();
        let e1 = v.payload.wire_enc();
        let s = v.wire_enc() + rest;
        let r1 = e1 + rest;
        assert(s =~= e0 + r1);
        <VarInt as PrefixRead>::lemma_enc_parse(VarInt(0x1), r1);
        assert(s.skip(e0.len() as int) =~= r1);
        <i64 as PrefixRead>::lemma_enc_parse(v.payload, rest);
    }
}

impl Packet<InStatus> for PacketStatusInPing {
    open spec fn spec_packet_id() -> u32 {
        0x1
    }

    open spec fn spec_stage(self) -> InStatus {
        InStatus::PacketStatusInPing(self)
    }

    open spec fn spec_side() -> ProtocolSide {
        ProtocolSide::Inbound
    }

    fn packet_id() -> (r: u32) {
        0x1
    }

    fn side() -> (r: ProtocolSide) {
        ProtocolSide::Inbound
    }

    fn into_stage(self) -> (r: InStatus) {
        InStatus::PacketStatusInPing(self)
    }
}

impl PacketStatusInPing {
    /// The ping's opaque payload, echoed back in the pong.
    pub fn payload(&self) -> (r: &i64)
        ensures
            r == self.payload,
    {
        &self.payload
    }
}

/// The status stage: the tagged union of its packets.
#[derive(Debug, Clone, PartialEq)]
pub enum InStatus {
    PacketStatusInRequest(PacketStatusInRequest),
    PacketStatusInPing(PacketStatusInPing),
}

/// The deep view of the status stage.
pub enum InStatusView {
    PacketStatusInRequest(PacketStatusInRequestView),
    PacketStatusInPing(PacketStatusInPingView),
}

impl DeepView for InStatus {
    type V = InStatusView;

    open spec fn deep_view(&self) -> InStatusView {
        match self {
            InStatus::PacketStatusInRequest(p) => InStatusView::PacketStatusInRequest(p.deep_view()),
            InStatus::PacketStatusInPing(p) => InStatusView::PacketStatusInPing(p.deep_view()),
        }
    }
}

impl PacketStage for InStatus {
    open spec fn spec_name() -> Seq<char> {
        "status"@
    }

    open spec fn spec_side() -> ProtocolSide {
        ProtocolSide::Inbound
    }

    fn name() -> (r: String) {
        String::from_str("status")
    }

    fn side() -> (r: ProtocolSide) {
        ProtocolSide::Inbound
    }
}

impl PacketWrite for InStatus {
    open spec fn wire_wf(&self) -> bool {
        match self {
            InStatus::PacketStatusInRequest(p) => p.wire_wf(),
            InStatus::PacketStatusInPing(p) => p.wire_wf(),
        }
    }

    open spec fn wire_enc(&self) -> Seq<u8> {
        match self {
            InStatus::PacketStatusInRequest(p) => p.wire_enc(),
            InStatus::PacketStatusInPing(p) => p.wire_enc(),
        }
    }

    fn pack_write(&self, buffer: &mut Vec<u8>, target_version: u32) -> (r: Result<
        (),
        WireError,
    >) {
        match self {
            InStatus::PacketStatusInRequest(p) => p.pack_write(buffer, target_version),
            InStatus::PacketStatusInPing(p) => p.pack_write(buffer, target_version),
        }
    }
}

impl PacketRead for InStatus {
    open spec fn wire_parse(s: Seq<u8>) -> PRead<InStatusView> {
        match <VarInt as PacketRead>::wire_parse(s) {
            PRead::Fail(e) => PRead::Fail(e),
            PRead::Val(id, n0) => {
                if id.0 == 0x0 {
                    match <PacketStatusInRequest as PacketRead>::wire_parse(s) {
                        PRead::Val(p, n) => PRead::Val(InStatusView::PacketStatusInRequest(p), n),
                        PRead::Fail(e) => PRead::Fail(e),
                    }
                } else if id.0 == 0x1 {
                    match <PacketStatusInPing as PacketRead>::wire_parse(s) {
                        PRead::Val(p, n) => PRead::Val(InStatusView::PacketStatusInPing(p), n),
                        PRead::Fail(e) => PRead::Fail(e),
                    }
                } else {
                    PRead::Fail(WireError::Protocol(ProtocolKind::UnknownPacketId))
                }
            },
        }
    }

    fn pack_read(data: &Vec<u8>, pos: &mut usize, target_version: u32) -> (r: Result<
        InStatus,
        WireError,
    >) {
        let p0: usize = *pos;
        let id = <VarInt as PacketRead>::pack_read(data, pos, target_version)?;
        *pos = p0;
        if id.0 == 0x0 {
            match <PacketStatusInRequest as PacketRead>::pack_read(data, pos, target_version) {
                Ok(p) => Ok(InStatus::PacketStatusInRequest(p)),
                Err(e) => Err(e),
            }
        } else if id.0 == 0x1 {
            match <PacketStatusInPing as PacketRead>::pack_read(data, pos, target_version) {
                Ok(p) => Ok(InStatus::PacketStatusInPing(p)),
                Err(e) => Err(e),
            }
        } else {
            Err(WireError::Protocol(ProtocolKind::UnknownPacketId))
        }
    }

    #[verifier::rlimit(80)]
    proof fn lemma_enc_parse_exact(v: Self) {
        match v {
            InStatus::PacketStatusInRequest(p) => {
                <PacketStatusInRequest as PacketRead>::lemma_enc_parse_exact(p);
                let r1 = Seq::<u8>::empty();
                assert(p.wire_enc() =~= VarInt(0x0).wire_enc() + r1);
                <VarInt as PrefixRead>::lemma_enc_parse(VarInt(0x0), r1);
            },
            InStatus::PacketStatusInPing(p) => {
                <PacketStatusInPing as PacketRead>::lemma_enc_parse_exact(p);
                let r1 = p.payload.wire_enc();
                assert(p.wire_enc() =~= VarInt(0x1).wire_enc() + r1);
                <VarInt as PrefixRead>::lemma_enc_parse(VarInt(0x1), r1);
            },
        }
    }
}

} // verus!
