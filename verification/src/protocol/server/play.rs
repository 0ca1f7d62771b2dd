//! The play stage, outgoing: the disconnect packet.

use vstd::prelude::*;

use crate::error::{ProtocolKind, WireError};
use crate::net_io::packet::{Packet, PacketStage, ProtocolSide};
use crate::net_io::{PacketRead, PacketWrite, PRead, PrefixRead, VarInt};
use crate::chat::Component;

verus! {

broadcast use crate::net_io::lemma_skip_skip;

/// Packet `PacketPlayOutDisconnect` (id 0x17).
#[derive(Debug, Clone, PartialEq)]
pub struct PacketPlayOutDisconnect {
    pub reason: Component,
}

/// The deep view of `PacketPlayOutDisconnect`.
pub struct PacketPlayOutDisconnectView {
    pub reason: Seq<char>,
}

impl PacketPlayOutDisconnect {
    /// Assemble the packet from its fields.
    pub fn new(reason: Component) -> (r: PacketPlayOutDisconnect)
        ensures
            r == (PacketPlayOutDisconnect { reason }),
    {
        PacketPlayOutDisconnect { reason }
    }
}

impl DeepView for PacketPlayOutDisconnect {
    type V = PacketPlayOutDisconnectView;

    open spec fn deep_view(&self) -> PacketPlayOutDisconnectView {
        PacketPlayOutDisconnectView {
            reason: self.reason.deep_view(),
        }
    }
}

impl PacketWrite for PacketPlayOutDisconnect {
    open spec fn wire_wf(&self) -> bool {
        self.reason.wire_wf()
    }

    open spec fn wire_enc(&self) -> Seq<u8> {
        VarInt(0x17).wire_enc() + self.reason.wire_enc()
    }

    open spec fn wire_write_err(&self) -> WireError {
        self.reason.wire_write_err()
    }

    fn pack_write(&self, buffer: &mut Vec<u8>, target_version: u32) -> (r: Result<
        (),
        WireError,
    >) {
        let mut scratch: Vec<u8> = Vec::new();
        VarInt(0x17).pack_write(&mut scratch, target_version)?;
        self.reason.pack_write(&mut scratch, target_version)?;
        buffer.extend_from_slice(scratch.as_slice());
        proof {
            assert(buffer@ =~= old(buffer)@ + self.wire_enc());
        }
        Ok(())
    }
}

impl PacketRead for PacketPlayOutDisconnect {
    open spec fn wire_parse(s: Seq<u8>) -> PRead<PacketPlayOutDisconnectView> {
        match <VarInt as PacketRead>::wire_parse(s) {
            PRead::Fail(e) => PRead::Fail(e),
            PRead::Val(id, n0) => if id.0 != 0x17 {
                PRead::Fail(WireError::Protocol(ProtocolKind::UnknownPacketId))
            } else {
                match <Component as PacketRead>::wire_parse(s.skip(n0)) {
                    PRead::Fail(e) => PRead::Fail(e),
                    PRead::Val(x0, n1) => PRead::Val(
                        PacketPlayOutDisconnectView {
                            reason: x0,
                        },
                        n0 + n1,
                    ),
                }
            },
        }
    }

    fn pack_read(data: &Vec<u8>, pos: &mut usize, target_version: u32) -> (r: Result<
        PacketPlayOutDisconnect,
        WireError,
    >) {
        let id = <VarInt as PacketRead>::pack_read(data, pos, target_version)?;
        if id.0 != 0x17 {
            return Err(WireError::Protocol(ProtocolKind::UnknownPacketId));
        }
        let x0 = <Component as PacketRead>::pack_read(data, pos, target_version)?;
        Ok(PacketPlayOutDisconnect {
            reason: x0,
        })
    }

    proof fn lemma_enc_parse_exact(v: Self) {
        Self::lemma_enc_parse(v, Seq::empty());
        assert(v.wire_enc() + Seq::<u8>::empty() =~= v.wire_enc());
    }
}

impl PrefixRead for PacketPlayOutDisconnect {
    #[verifier::rlimit(80)]
    proof fn lemma_enc_parse(v: Self, rest: Seq<u8>) {
        let e0 = VarInt(0x17).wire_enc();
        let e1 = v.reason.wire_enc();
        let s = v.wire_enc() + rest;
        let r1 = e1 + rest;
        assert(s =~= e0 + r1);
        <VarInt as PrefixRead>::lemma_enc_parse(VarInt(0x17), r1);
        assert(s.skip(e0.len() as int) =~= r1);
        <Component as PrefixRead>::lemma_enc_parse(v.reason, rest);
    }
}

impl Packet<PacketPlayOut> for PacketPlayOutDisconnect {
    open spec fn spec_packet_id() -> u32 {
        0x17
    }

    open spec fn spec_stage(self) -> PacketPlayOut {
        PacketPlayOut::PacketPlayOutDisconnect(self)
    }

    open spec fn spec_side() -> ProtocolSide {
        ProtocolSide::Outgoing
    }

    fn packet_id() -> (r: u32) {
        0x17
    }

    fn side() -> (r: ProtocolSide) {
        ProtocolSide::Outgoing
    }

    fn into_stage(self) -> (r: PacketPlayOut) {
        PacketPlayOut::PacketPlayOutDisconnect(self)
    }
}

/// The play stage: the tagged union of its packets.
#[derive(Debug, Clone, PartialEq)]
pub enum PacketPlayOut {
    PacketPlayOutDisconnect(PacketPlayOutDisconnect),
}

/// The deep view of the play stage.
pub enum PacketPlayOutView {
    PacketPlayOutDisconnect(PacketPlayOutDisconnectView),
}

impl DeepView for PacketPlayOut {
    type V = PacketPlayOutView;

    open spec fn deep_view(&self) -> PacketPlayOutView {
        match self {
            PacketPlayOut::PacketPlayOutDisconnect(p) => PacketPlayOutView::PacketPlayOutDisconnect(p.deep_view()),
        }
    }
}

impl PacketStage for PacketPlayOut {
    open spec fn spec_name() -> Seq<char> {
        "play"@
    }

    open spec fn spec_side() -> ProtocolSide {
        ProtocolSide::Outgoing
    }

    fn name() -> (r: String) {
        String::from_str("play")
    }

    fn side() -> (r: ProtocolSide) {
        ProtocolSide::Outgoing
    }
}

impl PacketWrite for PacketPlayOut {
    open spec fn wire_wf(&self) -> bool {
        match self {
            PacketPlayOut::PacketPlayOutDisconnect(p) => p.wire_wf(),
        }
    }

    open spec fn wire_enc(&self) -> Seq<u8> {
        match self {
            PacketPlayOut::PacketPlayOutDisconnect(p) => p.wire_enc(),
        }
    }

    open spec fn wire_write_err(&self) -> WireError {
        match self {
            PacketPlayOut::PacketPlayOutDisconnect(p) => p.wire_write_err(),
        }
    }

    fn pack_write(&self, buffer: &mut Vec<u8>, target_version: u32) -> (r: Result<
        (),
        WireError,
    >) {
        match self {
            PacketPlayOut::PacketPlayOutDisconnect(p) => p.pack_write(buffer, target_version),
        }
    }
}

impl PacketRead for PacketPlayOut {
    open spec fn wire_parse(s: Seq<u8>) -> PRead<PacketPlayOutView> {
        match <VarInt as PacketRead>::wire_parse(s) {
            PRead::Fail(e) => PRead::Fail(e),
            PRead::Val(id, n0) => {
                if id.0 == 0x17 {
                    match <PacketPlayOutDisconnect as PacketRead>::wire_parse(s) {
                        PRead::Val(p, n) => PRead::Val(PacketPlayOutView::PacketPlayOutDisconnect(p), n),
                        PRead::Fail(e) => PRead::Fail(e),
                    }
                } else {
                    PRead::Fail(WireError::Protocol(ProtocolKind::UnknownPacketId))
                }
            },
        }
    }

    fn pack_read(data: &Vec<u8>, pos: &mut usize, target_version: u32) -> (r: Result<
        PacketPlayOut,
        WireError,
    >) {
        let p0: usize = *pos;
        let id = <VarInt as PacketRead>::pack_read(data, pos, target_version)?;
        *pos = p0;
        if id.0 == 0x17 {
            match <PacketPlayOutDisconnect as PacketRead>::pack_read(data, pos, target_version) {
                Ok(p) => Ok(PacketPlayOut::PacketPlayOutDisconnect(p)),
                Err(e) => Err(e),
            }
        } else {
            Err(WireError::Protocol(ProtocolKind::UnknownPacketId))
        }
    }

    #[verifier::rlimit(80)]
    proof fn lemma_enc_parse_exact(v: Self) {
        match v {
            PacketPlayOut::PacketPlayOutDisconnect(p) => {
                <PacketPlayOutDisconnect as PacketRead>::lemma_enc_parse_exact(p);
                let r1 = p.reason.wire_enc();
                assert(p.wire_enc() =~= VarInt(0x17).wire_enc() + r1);
                <VarInt as PrefixRead>::lemma_enc_parse(VarInt(0x17), r1);
            },
        }
    }
}

} // verus!
