//! The status stage, outgoing: the server-list response and pong.

use vstd::prelude::*;

use crate::error::{ProtocolKind, WireError};
use crate::net_io::packet::{Packet, PacketStage, ProtocolSide};
use crate::net_io::{PacketRead, PacketWrite, PRead, PrefixRead, VarInt};

verus! {

broadcast use crate::net_io::lemma_skip_skip;

/// Packet `PacketStatusOutResponse` (id 0x0).
#[derive(Debug, Clone, PartialEq)]
pub struct PacketStatusOutResponse {
    pub response: String,
}

/// The deep view of `PacketStatusOutResponse`.
pub struct PacketStatusOutResponseView {
    pub response: Seq<char>,
}

impl PacketStatusOutResponse {
    /// Assemble the packet from its fields.
    pub fn new(response: String) -> (r: PacketStatusOutResponse)
        ensures
            r == (PacketStatusOutResponse { response }),
    {
        PacketStatusOutResponse { response }
    }
}

impl DeepView for PacketStatusOutResponse {
    type V = PacketStatusOutResponseView;

    open spec fn deep_view(&self) -> PacketStatusOutResponseView {
        PacketStatusOutResponseView {
            response: self.response.deep_view(),
        }
    }
}

impl PacketWrite for PacketStatusOutResponse {
    open spec fn wire_wf(&self) -> bool {
        self.response.wire_wf()
    }

    open spec fn wire_enc(&self) -> Seq<u8> {
        VarInt(0x0).wire_enc() + self.response.wire_enc()
    }

    open spec fn wire_write_err(&self) -> WireError {
        self.response.wire_write_err()
    }

    fn pack_write(&self, buffer: &mut Vec<u8>, target_version: u32) -> (r: Result<
        (),
        WireError,
    >) {
        let mut scratch: Vec<u8> = Vec::new();
        VarInt(0x0).pack_write(&mut scratch, target_version)?;
        self.response.pack_write(&mut scratch, target_version)?;
        buffer.extend_from_slice(scratch.as_slice());
        proof {
            assert(buffer@ =~= old(buffer)@ + self.wire_enc());
        }
        Ok(())
    }
}

impl PacketRead for PacketStatusOutResponse {
    open spec fn wire_parse(s: Seq<u8>) -> PRead<PacketStatusOutResponseView> {
        match <VarInt as PacketRead>::wire_parse(s) {
            PRead::Fail(e) => PRead::Fail(e),
            PRead::Val(id, n0) => if id.0 != 0x0 {
                PRead::Fail(WireError::Protocol(ProtocolKind::UnknownPacketId))
            } else {
                match <String as PacketRead>::wire_parse(s.skip(n0)) {
                    PRead::Fail(e) => PRead::Fail(e),
                    PRead::Val(x0, n1) => PRead::Val(
                        PacketStatusOutResponseView {
                            response: x0,
                        },
                        n0 + n1,
                    ),
                }
            },
        }
    }

    fn pack_read(data: &Vec<u8>, pos: &mut usize, target_version: u32) -> (r: Result<
        PacketStatusOutResponse,
        WireError,
    >) {
        let id = <VarInt as PacketRead>::pack_read(data, pos, target_version)?;
        if id.0 != 0x0 {
            return Err(WireError::Protocol(ProtocolKind::UnknownPacketId));
        }
        let x0 = <String as PacketRead>::pack_read(data, pos, target_version)?;
        Ok(PacketStatusOutResponse {
            response: x0,
        })
    }

    proof fn lemma_enc_parse_exact(v: Self) {
        Self::lemma_enc_parse(v, Seq::empty());
        assert(v.wire_enc() + Seq::<u8>::empty() =~= v.wire_enc());
    }
}

impl PrefixRead for PacketStatusOutResponse {
    #[verifier::rlimit(80)]
    proof fn lemma_enc_parse(v: Self, rest: Seq<u8>) {
        let e0 = VarInt(0x0).wire_enc();
        let e1 = v.response.wire_enc();
        let s = v.wire_enc() + rest;
        let r1 = e1 + rest;
        assert(s =~= e0 + r1);
        <VarInt as PrefixRead>::lemma_enc_parse(VarInt(0x0), r1);
        assert(s.skip(e0.len() as int) =~= r1);
        <String as PrefixRead>::lemma_enc_parse(v.response, rest);
    }
}

impl Packet<OutStatus> for PacketStatusOutResponse {
    open spec fn spec_packet_id() -> u32 {
        0x0
    }

    open spec fn spec_stage(self) -> OutStatus {
        OutStatus::PacketStatusOutResponse(self)
    }

    open spec fn spec_side() -> ProtocolSide {
        ProtocolSide::Outgoing
    }

    fn packet_id() -> (r: u32) {
        0x0
    }

    fn side() -> (r: ProtocolSide) {
        ProtocolSide::Outgoing
    }

    fn into_stage(self) -> (r: OutStatus) {
        OutStatus::PacketStatusOutResponse(self)
    }
}

/// Packet `PacketStatusOutPong` (id 0x1).
#[derive(Debug, Clone, PartialEq)]
pub struct PacketStatusOutPong {
    pub payload: i64,
}

/// The deep view of `PacketStatusOutPong`.
pub struct PacketStatusOutPongView {
    pub payload: i64,
}

impl PacketStatusOutPong {
    /// Assemble the packet from its fields.
    pub fn new(payload: i64) -> (r: PacketStatusOutPong)
        ensures
            r == (PacketStatusOutPong { payload }),
    {
        PacketStatusOutPong { payload }
    }
}

impl DeepView for PacketStatusOutPong {
    type V = PacketStatusOutPongView;

    open spec fn deep_view(&self) -> PacketStatusOutPongView {
        PacketStatusOutPongView {
            payload: self.payload,
        }
    }
}

impl PacketWrite for PacketStatusOutPong {
    open spec fn wire_wf(&self) -> bool {
        true
    }

    open spec fn wire_enc(&self) -> Seq<u8> {
        VarInt(0x1).wire_enc() + self.payload.wire_enc()
    }

    fn pack_write(&self, buffer: &mut Vec<u8>, target_version: u32) -> (r: Result<
        (),
        WireError,
    >) {
        VarInt(0x1).pack_write(buffer, target_version)?;
        self.payload.pack_write(buffer, target_version)?;
        proof {
            assert(buffer@ =~= old(buffer)@ + self.wire_enc());
        }
        Ok(())
    }
}

impl PacketRead for PacketStatusOutPong {
    open spec fn wire_parse(s: Seq<u8>) -> PRead<PacketStatusOutPongView> {
        match <VarInt as PacketRead>::wire_parse(s) {
            PRead::Fail(e) => PRead::Fail(e),
            PRead::Val(id, n0) => if id.0 != 0x1 {
                PRead::Fail(WireError::Protocol(ProtocolKind::UnknownPacketId))
            } else {
                match <i64 as PacketRead>::wire_parse(s.skip(n0)) {
                    PRead::Fail(e) => PRead::Fail(e),
                    PRead::Val(x0, n1) => PRead::Val(
                        PacketStatusOutPongView {
                            payload: x0,
                        },
                        n0 + n1,
                    ),
                }
            },
        }
    }

    fn pack_read(data: &Vec<u8>, pos: &mut usize, target_version: u32) -> (r: Result<
        PacketStatusOutPong,
        WireError,
    >) {
        let id = <VarInt as PacketRead>::pack_read(data, pos, target_version)?;
        if id.0 != 0x1 {
            return Err(WireError::Protocol(ProtocolKind::UnknownPacketId));
        }
        let x0 = <i64 as PacketRead>::pack_read(data, pos, target_version)?;
        Ok(PacketStatusOutPong {
            payload: x0,
        })
    }

    proof fn lemma_enc_parse_exact(v: Self) {
        Self::lemma_enc_parse(v, Seq::empty());
        assert(v.wire_enc() + Seq::<u8>::empty() =~= v.wire_enc());
    }
}

impl PrefixRead for PacketStatusOutPong {
    #[verifier::rlimit(80)]
    proof fn lemma_enc_parse(v: Self, rest: Seq<u8>) {
        let e0 = VarInt(0x1).wire_enc();
        let e1 = v.payload.wire_enc();
        let s = v.wire_enc() + rest;
        let r1 = e1 + rest;
        assert(s =~= e0 + r1);
        <VarInt as PrefixRead>::lemma_enc_parse(VarInt(0x1), r1);
        assert(s.skip(e0.len() as int) =~= r1);
        <i64 as PrefixRead>::lemma_enc_parse(v.payload, rest);
    }
}

impl Packet<OutStatus> for PacketStatusOutPong {
    open spec fn spec_packet_id() -> u32 {
        0x1
    }

    open spec fn spec_stage(self) -> OutStatus {
        OutStatus::PacketStatusOutPong(self)
    }

    open spec fn spec_side() -> ProtocolSide {
        ProtocolSide::Outgoing
    }

    fn packet_id() -> (r: u32) {
        0x1
    }

    fn side() -> (r: ProtocolSide) {
        ProtocolSide::Outgoing
    }

    fn into_stage(self) -> (r: OutStatus) {
        OutStatus::PacketStatusOutPong(self)
    }
}

/// The status stage: the tagged union of its packets.
#[derive(Debug, Clone, PartialEq)]
pub enum OutStatus {
    PacketStatusOutResponse(PacketStatusOutResponse),
    PacketStatusOutPong(PacketStatusOutPong),
}

/// The deep view of the status stage.
pub enum OutStatusView {
    PacketStatusOutResponse(PacketStatusOutResponseView),
    PacketStatusOutPong(PacketStatusOutPongView),
}

impl DeepView for OutStatus {
    type V = OutStatusView;

    open spec fn deep_view(&self) -> OutStatusView {
        match self {
            OutStatus::PacketStatusOutResponse(p) => OutStatusView::PacketStatusOutResponse(p.deep_view()),
            OutStatus::PacketStatusOutPong(p) => OutStatusView::PacketStatusOutPong(p.deep_view()),
        }
    }
}

impl PacketStage for OutStatus {
    open spec fn spec_name() -> Seq<char> {
        "status"@
    }

    open spec fn spec_side() -> ProtocolSide {
        ProtocolSide::Outgoing
    }

    fn name() -> (r: String) {
        String::from_str("status")
    }

    fn side() -> (r: ProtocolSide) {
        ProtocolSide::Outgoing
    }
}

impl PacketWrite for OutStatus {
    open spec fn wire_wf(&self) -> bool {
        match self {
            OutStatus::PacketStatusOutResponse(p) => p.wire_wf(),
            OutStatus::PacketStatusOutPong(p) => p.wire_wf(),
        }
    }

    open spec fn wire_enc(&self) -> Seq<u8> {
        match self {
            OutStatus::PacketStatusOutResponse(p) => p.wire_enc(),
            OutStatus::PacketStatusOutPong(p) => p.wire_enc(),
        }
    }

    open spec fn wire_write_err(&self) -> WireError {
        match self {
            OutStatus::PacketStatusOutResponse(p) => p.wire_write_err(),
            OutStatus::PacketStatusOutPong(p) => p.wire_write_err(),
        }
    }

    fn pack_write(&self, buffer: &mut Vec<u8>, target_version: u32) -> (r: Result<
        (),
        WireError,
    >) {
        match self {
            OutStatus::PacketStatusOutResponse(p) => p.pack_write(buffer, target_version),
            OutStatus::PacketStatusOutPong(p) => p.pack_write(buffer, target_version),
        }
    }
}

impl PacketRead for OutStatus {
    open spec fn wire_parse(s: Seq<u8>) -> PRead<OutStatusView> {
        match <VarInt as PacketRead>::wire_parse(s) {
            PRead::Fail(e) => PRead::Fail(e),
            PRead::Val(id, n0) => {
                if id.0 == 0x0 {
                    match <PacketStatusOutResponse as PacketRead>::wire_parse(s) {
                        PRead::Val(p, n) => PRead::Val(OutStatusView::PacketStatusOutResponse(p), n),
                        PRead::Fail(e) => PRead::Fail(e),
                    }
                } else if id.0 == 0x1 {
                    match <PacketStatusOutPong as PacketRead>::wire_parse(s) {
                        PRead::Val(p, n) => PRead::Val(OutStatusView::PacketStatusOutPong(p), n),
                        PRead::Fail(e) => PRead::Fail(e),
                    }
                } else {
                    PRead::Fail(WireError::Protocol(ProtocolKind::UnknownPacketId))
                }
            },
        }
    }

    fn pack_read(data: &Vec<u8>, pos: &mut usize, target_version: u32) -> (r: Result<
        OutStatus,
        WireError,
    >) {
        let p0: usize = *pos;
        let id = <VarInt as PacketRead>::pack_read(data, pos, target_version)?;
        *pos = p0;
        if id.0 == 0x0 {
            match <PacketStatusOutResponse as PacketRead>::pack_read(data, pos, target_version) {
                Ok(p) => Ok(OutStatus::PacketStatusOutResponse(p)),
                Err(e) => Err(e),
            }
        } else if id.0 == 0x1 {
            match <PacketStatusOutPong as PacketRead>::pack_read(data, pos, target_version) {
                Ok(p) => Ok(OutStatus::PacketStatusOutPong(p)),
                Err(e) => Err(e),
            }
        } else {
            Err(WireError::Protocol(ProtocolKind::UnknownPacketId))
        }
    }

    #[verifier::rlimit(80)]
    proof fn lemma_enc_parse_exact(v: Self) {
        match v {
            OutStatus::PacketStatusOutResponse(p) => {
                <PacketStatusOutResponse as PacketRead>::lemma_enc_parse_exact(p);
                let r1 = p.response.wire_enc();
                assert(p.wire_enc() =~= VarInt(0x0).wire_enc() + r1);
                <VarInt as PrefixRead>::lemma_enc_parse(VarInt(0x0), r1);
            },
            OutStatus::PacketStatusOutPong(p) => {
                <PacketStatusOutPong as PacketRead>::lemma_enc_parse_exact(p);
                let r1 = p.payload.wire_enc();
                assert(p.wire_enc() =~= VarInt(0x1).wire_enc() + r1);
                <VarInt as PrefixRead>::lemma_enc_parse(VarInt(0x1), r1);
            },
        }
    }
}

} // verus!

use crate::chat::{json_string, json_string_of, Component};
use crate::util::{int_dec, uuid_str};

verus! {

/// One entry of the player sample, as JSON.
pub open spec fn sample_json(name: Seq<char>, id: u128) -> Seq<char> {
    "{\"name\":"@ + json_string(name) + ",\"id\":\""@ + uuid_str(id) + "\"}"@
}

/// The player sample entries joined with commas.
pub open spec fn samples_json(ss: Seq<(Seq<char>, u128)>) -> Seq<char>
    decreases ss.len(),
{
    if ss.len() == 0 {
        Seq::empty()
    } else if ss.len() == 1 {
        sample_json(ss[0].0, ss[0].1)
    } else {
        samples_json(ss.drop_last()) + seq![','] + sample_json(ss.last().0, ss.last().1)
    }
}

/// The whole server-list status JSON, field by field in declaration order.
pub open spec fn status_json(
    version_name: Seq<char>,
    protocol: i32,
    max: i32,
    online: i32,
    samples: Seq<(Seq<char>, u128)>,
    description: Seq<char>,
    favicon: Seq<char>,
) -> Seq<char> {
    "{\"version\":{\"name\":"@ + json_string(version_name) + ",\"protocol\":"@ + int_dec(
        protocol as int,
    ) + "},\"players\":{\"max\":"@ + int_dec(max as int) + ",\"online\":"@ + int_dec(
        online as int,
    ) + ",\"sample\":["@ + samples_json(samples) + "]},\"description\":"@ + description
        + ",\"favicon\":"@ + json_string(favicon) + "}"@
}

/// The server's version block of the status response.
#[derive(Debug, Clone)]
pub struct ServerVersion {
    pub name: String,
    pub protocol: i32,
}

impl ServerVersion {
    /// Assemble a version block.
    pub fn new(name: String, protocol: i32) -> (r: ServerVersion)
        ensures
            r == (ServerVersion { name, protocol }),
    {
        ServerVersion { name, protocol }
    }
}

/// One sampled player of the status response.
#[derive(Debug, Clone)]
pub struct PlayerSample {
    pub name: String,
    pub id: u128,
}

impl PlayerSample {
    /// Assemble a sample entry.
    pub fn new(name: String, id: u128) -> (r: PlayerSample)
        ensures
            r == (PlayerSample { name, id }),
    {
        PlayerSample { name, id }
    }

    /// This entry as JSON.
    pub fn to_json(&self) -> (r: String)
        ensures
            r@ == sample_json(self.name@, self.id),
    {
        let r: String = String::from_str("{\"name\":").concat(
            json_string_of(self.name.as_str()).as_str(),
        ).concat(",\"id\":\"").concat(crate::util::uuid_string(self.id).as_str()).concat("\"}");
        proof {
            assert(r@ =~= sample_json(self.name@, self.id));
        }
        r
    }
}

/// The player-count block of the status response.
#[derive(Debug, Clone)]
pub struct ServerPlayers {
    pub max: i32,
    pub online: i32,
    pub sample: Vec<PlayerSample>,
}

impl ServerPlayers {
    /// Assemble a player-count block.
    pub fn new(max: i32, online: i32, sample: Vec<PlayerSample>) -> (r: ServerPlayers)
        ensures
            r == (ServerPlayers { max, online, sample }),
    {
        ServerPlayers { max, online, sample }
    }
}

/// The sample entries as name and id pairs.
pub open spec fn spec_samples(sample: Seq<PlayerSample>) -> Seq<(Seq<char>, u128)> {
    Seq::new(sample.len(), |i: int| (sample[i].name@, sample[i].id))
}

/// The server-list status payload: version, player counts, the server's
/// description component, and the favicon data URI.
#[derive(Debug, Clone)]
pub struct StatusResponse {
    pub version: ServerVersion,
    pub players: ServerPlayers,
    pub description: Component,
    pub favicon: String,
}

impl StatusResponse {
    /// Assemble a status payload.
    pub fn new(
        version: ServerVersion,
        players: ServerPlayers,
        description: Component,
        favicon: String,
    ) -> (r: StatusResponse)
        ensures
            r == (StatusResponse { version, players, description, favicon }),
    {
        StatusResponse { version, players, description, favicon }
    }

    /// The payload as the status JSON text.
    #[verifier::loop_isolation(false)]
    pub fn to_json(&self) -> (r: String)
        ensures
            r@ == status_json(
                self.version.name@,
                self.version.protocol,
                self.players.max,
                self.players.online,
                spec_samples(self.players.sample@),
                self.description.spec_json(),
                self.favicon@,
            ),
    {
        let ghost all = spec_samples(self.players.sample@);
        let mut acc: String = String::from_str("{\"version\":{\"name\":");
        acc = acc.concat(json_string_of(self.version.name.as_str()).as_str());
        acc = acc.concat(",\"protocol\":");
        acc = acc.concat(crate::util::i32_dec_string(self.version.protocol).as_str());
        acc = acc.concat("},\"players\":{\"max\":");
        acc = acc.concat(crate::util::i32_dec_string(self.players.max).as_str());
        acc = acc.concat(",\"online\":");
        acc = acc.concat(crate::util::i32_dec_string(self.players.online).as_str());
        acc = acc.concat(",\"sample\":[");
        let ghost head = acc@;
        proof {
            assert(spec_samples(self.players.sample@.subrange(0, 0)) =~= Seq::<(
                Seq<char>,
                u128,
            )>::empty());
            assert(acc@ =~= head + samples_json(
                spec_samples(self.players.sample@.subrange(0, 0)),
            ));
        }
        let cnt: usize = self.players.sample.len();
        let mut k: usize = 0;
        while k < cnt
            invariant
                k <= cnt,
                acc@ == head + samples_json(spec_samples(self.players.sample@.subrange(0, k as int))),
            decreases cnt - k,
        {
            if k > 0 {
                proof {
                    reveal_strlit(",");
                }
                acc = acc.concat(",");
            }
            acc = acc.concat(self.players.sample[k].to_json().as_str());
            proof {
                let pre = spec_samples(self.players.sample@.subrange(0, k as int));
                let cur = spec_samples(self.players.sample@.subrange(0, k + 1));
                assert(cur.drop_last() =~= pre);
                assert(cur.last().0 == self.players.sample@[k as int].name@);
                reveal_strlit(",");
                assert(","@ =~= seq![',']);
                if k == 0 {
                    assert(cur.len() == 1);
                    assert(acc@ =~= head + samples_json(cur));
                } else {
                    assert(acc@ =~= head + samples_json(cur));
                }
            }
            k = k + 1;
        }
        proof {
            assert(self.players.sample@.subrange(0, cnt as int) =~= self.players.sample@);
        }
        acc = acc.concat("]},\"description\":");
        acc = acc.concat(self.description.json().as_str());
        acc = acc.concat(",\"favicon\":");
        acc = acc.concat(json_string_of(self.favicon.as_str()).as_str());
        let r: String = acc.concat("}");
        proof {
            assert(r@ =~= status_json(
                self.version.name@,
                self.version.protocol,
                self.players.max,
                self.players.online,
                spec_samples(self.players.sample@),
                self.description.spec_json(),
                self.favicon@,
            ));
        }
        r
    }
}

impl PacketStatusOutResponse {
    /// Frame a status payload as the response packet: its wire form is the
    /// JSON text as a string.
    pub fn from_status(status: &StatusResponse) -> (r: PacketStatusOutResponse)
        ensures
            r.response@ == status_json(
                status.version.name@,
                status.version.protocol,
                status.players.max,
                status.players.online,
                spec_samples(status.players.sample@),
                status.description.spec_json(),
                status.favicon@,
            ),
    {
        PacketStatusOutResponse { response: status.to_json() }
    }
}

} // verus!
