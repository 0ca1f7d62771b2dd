//! The login stage, outgoing: disconnect, encryption request, success,
//! compression, plugin message.

use vstd::prelude::*;

use crate::error::{ProtocolKind, WireError};
use crate::net_io::packet::{Packet, PacketStage, ProtocolSide};
use crate::net_io::{PacketRead, PacketWrite, PRead, PrefixRead, VarInt};
use crate::chat::Component;
use crate::net_io::ByteArray;
use crate::util::Identifier;

verus! {

broadcast use crate::net_io::lemma_skip_skip;

/// The `ProfileProperty` packet's fields.
#[derive(Debug, Clone, PartialEq)]
pub struct ProfileProperty {
    pub name: String,
    pub value: String,
    pub signature: Option<String>,
}

/// The deep view of `ProfileProperty`.
pub struct ProfilePropertyView {
    pub name: Seq<char>,
    pub value: Seq<char>,
    pub signature: Option<Seq<char>>,
}

impl ProfileProperty {
    /// Assemble the packet from its fields.
    pub fn new(name: String, value: String, signature: Option<String>) -> (r: ProfileProperty)
        ensures
            r == (ProfileProperty { name, value, signature }),
    {
        ProfileProperty { name, value, signature }
    }
}

impl DeepView for ProfileProperty {
    type V = ProfilePropertyView;

    open spec fn deep_view(&self) -> ProfilePropertyView {
        ProfilePropertyView {
            name: self.name.deep_view(),
            value: self.value.deep_view(),
            signature: self.signature.deep_view(),
        }
    }
}

impl PacketWrite for ProfileProperty {
    open spec fn wire_wf(&self) -> bool {
        self.name.wire_wf() && self.value.wire_wf() && self.signature.wire_wf()
    }

    open spec fn wire_enc(&self) -> Seq<u8> {
        self.name.wire_enc() + self.value.wire_enc() + self.signature.wire_enc()
    }

    open spec fn wire_write_err(&self) -> WireError {
        if !self.name.wire_wf() {
            self.name.wire_write_err()
        } else if !self.value.wire_wf() {
            self.value.wire_write_err()
        } else {
            self.signature.wire_write_err()
        }
    }

    fn pack_write(&self, buffer: &mut Vec<u8>, target_version: u32) -> (r: Result<
        (),
        WireError,
    >) {
        let mut scratch: Vec<u8> = Vec::new();
        self.name.pack_write(&mut scratch, target_version)?;
        self.value.pack_write(&mut scratch, target_version)?;
        self.signature.pack_write(&mut scratch, target_version)?;
        buffer.extend_from_slice(scratch.as_slice());
        proof {
            assert(buffer@ =~= old(buffer)@ + self.wire_enc());
        }
        Ok(())
    }
}

impl PacketRead for ProfileProperty {
    open spec fn wire_parse(s: Seq<u8>) -> PRead<ProfilePropertyView> {
        match <String as PacketRead>::wire_parse(s) {
            PRead::Fail(e) => PRead::Fail(e),
            PRead::Val(x0, n0) =>
            match <String as PacketRead>::wire_parse(s.skip(n0)) {
                PRead::Fail(e) => PRead::Fail(e),
                PRead::Val(x1, n1) =>
                match <Option<String> as PacketRead>::wire_parse(s.skip(n0 + n1)) {
                    PRead::Fail(e) => PRead::Fail(e),
                    PRead::Val(x2, n2) => PRead::Val(
                        ProfilePropertyView {
                            name: x0,
                            value: x1,
                            signature: x2,
                        },
                        n0 + n1 + n2,
                    ),
                },
            },
        }
    }

    fn pack_read(data: &Vec<u8>, pos: &mut usize, target_version: u32) -> (r: Result<
        ProfileProperty,
        WireError,
    >) {
        let x0 = <String as PacketRead>::pack_read(data, pos, target_version)?;
        let x1 = <String as PacketRead>::pack_read(data, pos, target_version)?;
        let x2 = <Option<String> as PacketRead>::pack_read(data, pos, target_version)?;
        Ok(ProfileProperty {
            name: x0,
            value: x1,
            signature: x2,
        })
    }

    proof fn lemma_enc_parse_exact(v: Self) {
        Self::lemma_enc_parse(v, Seq::empty());
        assert(v.wire_enc() + Seq::<u8>::empty() =~= v.wire_enc());
    }
}

impl PrefixRead for ProfileProperty {
    #[verifier::rlimit(80)]
    proof fn lemma_enc_parse(v: Self, rest: Seq<u8>) {
        let e0 = v.name.wire_enc();
        let e1 = v.value.wire_enc();
        let e2 = v.signature.wire_enc();
        let s = v.wire_enc() + rest;
        let r2 = e2 + rest;
        let r1 = e1 + r2;
        assert(s =~= e0 + r1);
        <String as PrefixRead>::lemma_enc_parse(v.name, r1);
        assert(s.skip(e0.len() as int) =~= r1);
        <String as PrefixRead>::lemma_enc_parse(v.value, r2);
        assert(s.skip(e0.len() + e1.len() as int) =~= r2);
        <Option<String> as PrefixRead>::lemma_enc_parse(v.signature, rest);
    }
}

/// Packet `PacketLoginOutDisconnect` (id 0x0).
#[derive(Debug, Clone, PartialEq)]
pub struct PacketLoginOutDisconnect {
    pub reason: Component,
}

/// The deep view of `PacketLoginOutDisconnect`.
pub struct PacketLoginOutDisconnectView {
    pub reason: Seq<char>,
}

impl PacketLoginOutDisconnect {
    /// Assemble the packet from its fields.
    pub fn new(reason: Component) -> (r: PacketLoginOutDisconnect)
        ensures
            r == (PacketLoginOutDisconnect { reason }),
    {
        PacketLoginOutDisconnect { reason }
    }
}

impl DeepView for PacketLoginOutDisconnect {
    type V = PacketLoginOutDisconnectView;

    open spec fn deep_view(&self) -> PacketLoginOutDisconnectView {
        PacketLoginOutDisconnectView {
            reason: self.reason.deep_view(),
        }
    }
}

impl PacketWrite for PacketLoginOutDisconnect {
    open spec fn wire_wf(&self) -> bool {
        self.reason.wire_wf()
    }

    open spec fn wire_enc(&self) -> Seq<u8> {
        VarInt(0x0).wire_enc() + self.reason.wire_enc()
    }

    open spec fn wire_write_err(&self) -> WireError {
        self.reason.wire_write_err()
    }

    fn pack_write(&self, buffer: &mut Vec<u8>, target_version: u32) -> (r: Result<
        (),
        WireError,
    >) {
        let mut scratch: Vec<u8> = Vec::new();
        VarInt(0x0).pack_write(&mut scratch, target_version)?;
        self.reason.pack_write(&mut scratch, target_version)?;
        buffer.extend_from_slice(scratch.as_slice());
        proof {
            assert(buffer@ =~= old(buffer)@ + self.wire_enc());
        }
        Ok(())
    }
}

impl PacketRead for PacketLoginOutDisconnect {
    open spec fn wire_parse(s: Seq<u8>) -> PRead<PacketLoginOutDisconnectView> {
        match <VarInt as PacketRead>::wire_parse(s) {
            PRead::Fail(e) => PRead::Fail(e),
            PRead::Val(id, n0) => if id.0 != 0x0 {
                PRead::Fail(WireError::Protocol(ProtocolKind::UnknownPacketId))
            } else {
                match <Component as PacketRead>::wire_parse(s.skip(n0)) {
                    PRead::Fail(e) => PRead::Fail(e),
                    PRead::Val(x0, n1) => PRead::Val(
                        PacketLoginOutDisconnectView {
                            reason: x0,
                        },
                        n0 + n1,
                    ),
                }
            },
        }
    }

    fn pack_read(data: &Vec<u8>, pos: &mut usize, target_version: u32) -> (r: Result<
        PacketLoginOutDisconnect,
        WireError,
    >) {
        let id = <VarInt as PacketRead>::pack_read(data, pos, target_version)?;
        if id.0 != 0x0 {
            return Err(WireError::Protocol(ProtocolKind::UnknownPacketId));
        }
        let x0 = <Component as PacketRead>::pack_read(data, pos, target_version)?;
        Ok(PacketLoginOutDisconnect {
            reason: x0,
        })
    }

    proof fn lemma_enc_parse_exact(v: Self) {
        Self::lemma_enc_parse(v, Seq::empty());
        assert(v.wire_enc() + Seq::<u8>::empty() =~= v.wire_enc());
    }
}

impl PrefixRead for PacketLoginOutDisconnect {
    #[verifier::rlimit(80)]
    proof fn lemma_enc_parse(v: Self, rest: Seq<u8>) {
        let e0 = VarInt(0x0).wire_enc();
        let e1 = v.reason.wire_enc();
        let s = v.wire_enc() + rest;
        let r1 = e1 + rest;
        assert(s =~= e0 + r1);
        <VarInt as PrefixRead>::lemma_enc_parse(VarInt(0x0), r1);
        assert(s.skip(e0.len() as int) =~= r1);
        <Component as PrefixRead>::lemma_enc_parse(v.reason, rest);
    }
}

impl Packet<OutLogin> for PacketLoginOutDisconnect {
    open spec fn spec_packet_id() -> u32 {
        0x0
    }

    open spec fn spec_stage(self) -> OutLogin {
        OutLogin::PacketLoginOutDisconnect(self)
    }

    open spec fn spec_side() -> ProtocolSide {
        ProtocolSide::Outgoing
    }

    fn packet_id() -> (r: u32) {
        0x0
    }

    fn side() -> (r: ProtocolSide) {
        ProtocolSide::Outgoing
    }

    fn into_stage(self) -> (r: OutLogin) {
        OutLogin::PacketLoginOutDisconnect(self)
    }
}

/// Packet `PacketLoginOutEncryptionRequest` (id 0x1).
#[derive(Debug, Clone, PartialEq)]
pub struct PacketLoginOutEncryptionRequest {
    pub server_id: String,
    pub public_key: Vec<u8>,
    pub verify_token: Vec<u8>,
}

/// The deep view of `PacketLoginOutEncryptionRequest`.
pub struct PacketLoginOutEncryptionRequestView {
    pub server_id: Seq<char>,
    pub public_key: Seq<u8>,
    pub verify_token: Seq<u8>,
}

impl PacketLoginOutEncryptionRequest {
    /// Assemble the packet from its fields.
    pub fn new(server_id: String, public_key: Vec<u8>, verify_token: Vec<u8>) -> (r: PacketLoginOutEncryptionRequest)
        ensures
            r == (PacketLoginOutEncryptionRequest { server_id, public_key, verify_token }),
    {
        PacketLoginOutEncryptionRequest { server_id, public_key, verify_token }
    }
}

impl DeepView for PacketLoginOutEncryptionRequest {
    type V = PacketLoginOutEncryptionRequestView;

    open spec fn deep_view(&self) -> PacketLoginOutEncryptionRequestView {
        PacketLoginOutEncryptionRequestView {
            server_id: self.server_id.deep_view(),
            public_key: self.public_key.deep_view(),
            verify_token: self.verify_token.deep_view(),
        }
    }
}

impl PacketWrite for PacketLoginOutEncryptionRequest {
    open spec fn wire_wf(&self) -> bool {
        self.server_id.wire_wf() && self.public_key.wire_wf() && self.verify_token.wire_wf()
    }

    open spec fn wire_enc(&self) -> Seq<u8> {
        VarInt(0x1).wire_enc() + self.server_id.wire_enc() + self.public_key.wire_enc() + self.verify_token.wire_enc()
    }

    open spec fn wire_write_err(&self) -> WireError {
        if !self.server_id.wire_wf() {
            self.server_id.wire_write_err()
        } else if !self.public_key.wire_wf() {
            self.public_key.wire_write_err()
        } else {
            self.verify_token.wire_write_err()
        }
    }

    fn pack_write(&self, buffer: &mut Vec<u8>, target_version: u32) -> (r: Result<
        (),
        WireError,
    >) {
        let mut scratch: Vec<u8> = Vec::new();
        VarInt(0x1).pack_write(&mut scratch, target_version)?;
        self.server_id.pack_write(&mut scratch, target_version)?;
        self.public_key.pack_write(&mut scratch, target_version)?;
        self.verify_token.pack_write(&mut scratch, target_version)?;
        buffer.extend_from_slice(scratch.as_slice());
        proof {
            assert(buffer@ =~= old(buffer)@ + self.wire_enc());
        }
        Ok(())
    }
}

impl PacketRead for PacketLoginOutEncryptionRequest {
    open spec fn wire_parse(s: Seq<u8>) -> PRead<PacketLoginOutEncryptionRequestView> {
        match <VarInt as PacketRead>::wire_parse(s) {
            PRead::Fail(e) => PRead::Fail(e),
            PRead::Val(id, n0) => if id.0 != 0x1 {
                PRead::Fail(WireError::Protocol(ProtocolKind::UnknownPacketId))
            } else {
                match <String as PacketRead>::wire_parse(s.skip(n0)) {
                    PRead::Fail(e) => PRead::Fail(e),
                    PRead::Val(x0, n1) =>
                    match <Vec<u8> as PacketRead>::wire_parse(s.skip(n0 + n1)) {
                        PRead::Fail(e) => PRead::Fail(e),
                        PRead::Val(x1, n2) =>
                        match <Vec<u8> as PacketRead>::wire_parse(s.skip(n0 + n1 + n2)) {
                            PRead::Fail(e) => PRead::Fail(e),
                            PRead::Val(x2, n3) => PRead::Val(
                                PacketLoginOutEncryptionRequestView {
                                    server_id: x0,
                                    public_key: x1,
                                    verify_token: x2,
                                },
                                n0 + n1 + n2 + n3,
                            ),
                        },
                    },
                }
            },
        }
    }

    fn pack_read(data: &Vec<u8>, pos: &mut usize, target_version: u32) -> (r: Result<
        PacketLoginOutEncryptionRequest,
        WireError,
    >) {
        let id = <VarInt as PacketRead>::pack_read(data, pos, target_version)?;
        if id.0 != 0x1 {
            return Err(WireError::Protocol(ProtocolKind::UnknownPacketId));
        }
        let x0 = <String as PacketRead>::pack_read(data, pos, target_version)?;
        let x1 = <Vec<u8> as PacketRead>::pack_read(data, pos, target_version)?;
        let x2 = <Vec<u8> as PacketRead>::pack_read(data, pos, target_version)?;
        Ok(PacketLoginOutEncryptionRequest {
            server_id: x0,
            public_key: x1,
            verify_token: x2,
        })
    }

    proof fn lemma_enc_parse_exact(v: Self) {
        Self::lemma_enc_parse(v, Seq::empty());
        assert(v.wire_enc() + Seq::<u8>::empty() =~= v.wire_enc());
    }
}

/// The field-by-field parse facts behind the round trip of
/// `PacketLoginOutEncryptionRequest`, proved apart to keep each solver query small.
#[verifier::rlimit(100)]
proof fn lemma_encryption_request_fields(v: PacketLoginOutEncryptionRequest, rest: Seq<u8>)
    requires
        v.wire_wf(),
    ensures
        ({
            let e0 = VarInt(0x1).wire_enc();
            let e1 = v.server_id.wire_enc();
            let e2 = v.public_key.wire_enc();
            let e3 = v.verify_token.wire_enc();
            let s = v.wire_enc() + rest;
            &&& <VarInt as PacketRead>::wire_parse(s) == PRead::<VarInt>::Val(
                    VarInt(0x1),
                    e0.len() as int,
                )
            &&& s.skip(e0.len() as int) == e1 + (e2 + (e3 + rest))
            &&& <String as PacketRead>::wire_parse(s.skip(e0.len() as int))
                    == PRead::<Seq<char>>::Val(v.server_id@, e1.len() as int)
            &&& s.skip(e0.len() + e1.len() as int) == e2 + (e3 + rest)
            &&& <Vec<u8> as PacketRead>::wire_parse(s.skip(e0.len() + e1.len() as int))
                    == PRead::<Seq<u8>>::Val(v.public_key.deep_view(), e2.len() as int)
            &&& s.skip(e0.len() + e1.len() + e2.len() as int) == e3 + rest
            &&& <Vec<u8> as PacketRead>::wire_parse(s.skip(e0.len() + e1.len() + e2.len() as int))
                    == PRead::<Seq<u8>>::Val(v.verify_token.deep_view(), e3.len() as int)
        }),
{
    let e0 = VarInt(0x1).wire_enc();
    let e1 = v.server_id.wire_enc();
    let e2 = v.public_key.wire_enc();
    let e3 = v.verify_token.wire_enc();
    let s = v.wire_enc() + rest;
    let r3 = e3 + rest;
    let r2 = e2 + r3;
    let r1 = e1 + r2;
    assert(<VarInt as PacketRead>::wire_parse(s) == PRead::<VarInt>::Val(
        VarInt(0x1),
        e0.len() as int,
    )) by {
        assert(s =~= e0 + r1);
        <VarInt as PrefixRead>::lemma_enc_parse(VarInt(0x1), r1);
    };
    assert(s.skip(e0.len() as int) =~= r1);
    assert(<String as PacketRead>::wire_parse(s.skip(e0.len() as int))
        == PRead::<Seq<char>>::Val(v.server_id@, e1.len() as int)) by {
        <String as PrefixRead>::lemma_enc_parse(v.server_id, r2);
    };
    assert(s.skip(e0.len() + e1.len() as int) =~= r2);
    assert(<Vec<u8> as PacketRead>::wire_parse(s.skip(e0.len() + e1.len() as int))
        == PRead::<Seq<u8>>::Val(v.public_key.deep_view(), e2.len() as int)) by {
        <Vec<u8> as PrefixRead>::lemma_enc_parse(v.public_key, r3);
    };
    assert(s.skip(e0.len() + e1.len() + e2.len() as int) =~= r3);
    assert(<Vec<u8> as PacketRead>::wire_parse(s.skip(e0.len() + e1.len() + e2.len() as int))
        == PRead::<Seq<u8>>::Val(v.verify_token.deep_view(), e3.len() as int)) by {
        <Vec<u8> as PrefixRead>::lemma_enc_parse(v.verify_token, rest);
    };
}

impl PrefixRead for PacketLoginOutEncryptionRequest {
    proof fn lemma_enc_parse(v: Self, rest: Seq<u8>) {
        lemma_encryption_request_fields(v, rest);
    }
}

impl Packet<OutLogin> for PacketLoginOutEncryptionRequest {
    open spec fn spec_packet_id() -> u32 {
        0x1
    }

    open spec fn spec_stage(self) -> OutLogin {
        OutLogin::PacketLoginOutEncryptionRequest(self)
    }

    open spec fn spec_side() -> ProtocolSide {
        ProtocolSide::Outgoing
    }

    fn packet_id() -> (r: u32) {
        0x1
    }

    fn side() -> (r: ProtocolSide) {
        ProtocolSide::Outgoing
    }

    fn into_stage(self) -> (r: OutLogin) {
        OutLogin::PacketLoginOutEncryptionRequest(self)
    }
}

/// Packet `PacketLoginOutSuccess` (id 0x2).
#[derive(Debug, Clone, PartialEq)]
pub struct PacketLoginOutSuccess {
    pub player_uuid: u128,
    pub username: String,
    pub properties: Vec<ProfileProperty>,
}

/// The deep view of `PacketLoginOutSuccess`.
pub struct PacketLoginOutSuccessView {
    pub player_uuid: u128,
    pub username: Seq<char>,
    pub properties: Seq<ProfilePropertyView>,
}

impl PacketLoginOutSuccess {
    /// Assemble the packet from its fields.
    pub fn new(player_uuid: u128, username: String, properties: Vec<ProfileProperty>) -> (r: PacketLoginOutSuccess)
        ensures
            r == (PacketLoginOutSuccess { player_uuid, username, properties }),
    {
        PacketLoginOutSuccess { player_uuid, username, properties }
    }
}

impl DeepView for PacketLoginOutSuccess {
    type V = PacketLoginOutSuccessView;

    open spec fn deep_view(&self) -> PacketLoginOutSuccessView {
        PacketLoginOutSuccessView {
            player_uuid: self.player_uuid,
            username: self.username.deep_view(),
            properties: self.properties.deep_view(),
        }
    }
}

impl PacketWrite for PacketLoginOutSuccess {
    open spec fn wire_wf(&self) -> bool {
        self.username.wire_wf() && self.properties.wire_wf()
    }

    open spec fn wire_enc(&self) -> Seq<u8> {
        VarInt(0x2).wire_enc() + self.player_uuid.wire_enc() + self.username.wire_enc() + self.properties.wire_enc()
    }

    open spec fn wire_write_err(&self) -> WireError {
        if !self.username.wire_wf() {
            self.username.wire_write_err()
        } else {
            self.properties.wire_write_err()
        }
    }

    fn pack_write(&self, buffer: &mut Vec<u8>, target_version: u32) -> (r: Result<
        (),
        WireError,
    >) {
        let mut scratch: Vec<u8> = Vec::new();
        VarInt(0x2).pack_write(&mut scratch, target_version)?;
        self.player_uuid.pack_write(&mut scratch, target_version)?;
        self.username.pack_write(&mut scratch, target_version)?;
        self.properties.pack_write(&mut scratch, target_version)?;
        buffer.extend_from_slice(scratch.as_slice());
        proof {
            assert(buffer@ =~= old(buffer)@ + self.wire_enc());
        }
        Ok(())
    }
}

impl PacketRead for PacketLoginOutSuccess {
    open spec fn wire_parse(s: Seq<u8>) -> PRead<PacketLoginOutSuccessView> {
        match <VarInt as PacketRead>::wire_parse(s) {
            PRead::Fail(e) => PRead::Fail(e),
            PRead::Val(id, n0) => if id.0 != 0x2 {
                PRead::Fail(WireError::Protocol(ProtocolKind::UnknownPacketId))
            } else {
                match <u128 as PacketRead>::wire_parse(s.skip(n0)) {
                    PRead::Fail(e) => PRead::Fail(e),
                    PRead::Val(x0, n1) =>
                    match <String as PacketRead>::wire_parse(s.skip(n0 + n1)) {
                        PRead::Fail(e) => PRead::Fail(e),
                        PRead::Val(x1, n2) =>
                        match <Vec<ProfileProperty> as PacketRead>::wire_parse(s.skip(n0 + n1 + n2)) {
                            PRead::Fail(e) => PRead::Fail(e),
                            PRead::Val(x2, n3) => PRead::Val(
                                PacketLoginOutSuccessView {
                                    player_uuid: x0,
                                    username: x1,
                                    properties: x2,
                                },
                                n0 + n1 + n2 + n3,
                            ),
                        },
                    },
                }
            },
        }
    }

    fn pack_read(data: &Vec<u8>, pos: &mut usize, target_version: u32) -> (r: Result<
        PacketLoginOutSuccess,
        WireError,
    >) {
        let id = <VarInt as PacketRead>::pack_read(data, pos, target_version)?;
        if id.0 != 0x2 {
            return Err(WireError::Protocol(ProtocolKind::UnknownPacketId));
        }
        let x0 = <u128 as PacketRead>::pack_read(data, pos, target_version)?;
        let x1 = <String as PacketRead>::pack_read(data, pos, target_version)?;
        let x2 = <Vec<ProfileProperty> as PacketRead>::pack_read(data, pos, target_version)?;
        Ok(PacketLoginOutSuccess {
            player_uuid: x0,
            username: x1,
            properties: x2,
        })
    }

    proof fn lemma_enc_parse_exact(v: Self) {
        Self::lemma_enc_parse(v, Seq::empty());
        assert(v.wire_enc() + Seq::<u8>::empty() =~= v.wire_enc());
    }
}

/// The field-by-field parse facts behind the round trip of
/// `PacketLoginOutSuccess`, proved apart to keep each solver query small.
#[verifier::rlimit(100)]
proof fn lemma_login_success_fields(v: PacketLoginOutSuccess, rest: Seq<u8>)
    requires
        v.wire_wf(),
    ensures
        ({
            let e0 = VarInt(0x2).wire_enc();
            let e1 = v.player_uuid.wire_enc();
            let e2 = v.username.wire_enc();
            let e3 = v.properties.wire_enc();
            let s = v.wire_enc() + rest;
            &&& <VarInt as PacketRead>::wire_parse(s) == PRead::<VarInt>::Val(
                    VarInt(0x2),
                    e0.len() as int,
                )
            &&& s.skip(e0.len() as int) == e1 + (e2 + (e3 + rest))
            &&& <u128 as PacketRead>::wire_parse(s.skip(e0.len() as int))
                    == PRead::<u128>::Val(v.player_uuid, e1.len() as int)
            &&& s.skip(e0.len() + e1.len() as int) == e2 + (e3 + rest)
            &&& <String as PacketRead>::wire_parse(s.skip(e0.len() + e1.len() as int))
                    == PRead::<Seq<char>>::Val(v.username@, e2.len() as int)
            &&& s.skip(e0.len() + e1.len() + e2.len() as int) == e3 + rest
            &&& <Vec<ProfileProperty> as PacketRead>::wire_parse(s.skip(e0.len() + e1.len() + e2.len() as int))
                    == PRead::<Seq<ProfilePropertyView>>::Val(v.properties.deep_view(), e3.len() as int)
        }),
{
    let e0 = VarInt(0x2).wire_enc();
    let e1 = v.player_uuid.wire_enc();
    let e2 = v.username.wire_enc();
    let e3 = v.properties.wire_enc();
    let s = v.wire_enc() + rest;
    let r3 = e3 + rest;
    let r2 = e2 + r3;
    let r1 = e1 + r2;
    assert(<VarInt as PacketRead>::wire_parse(s) == PRead::<VarInt>::Val(
        VarInt(0x2),
        e0.len() as int,
    )) by {
        assert(s =~= e0 + r1);
        <VarInt as PrefixRead>::lemma_enc_parse(VarInt(0x2), r1);
    };
    assert(s.skip(e0.len() as int) =~= r1);
    assert(<u128 as PacketRead>::wire_parse(s.skip(e0.len() as int))
        == PRead::<u128>::Val(v.player_uuid, e1.len() as int)) by {
        <u128 as PrefixRead>::lemma_enc_parse(v.player_uuid, r2);
    };
    assert(s.skip(e0.len() + e1.len() as int) =~= r2);
    assert(<String as PacketRead>::wire_parse(s.skip(e0.len() + e1.len() as int))
        == PRead::<Seq<char>>::Val(v.username@, e2.len() as int)) by {
        <String as PrefixRead>::lemma_enc_parse(v.username, r3);
    };
    assert(s.skip(e0.len() + e1.len() + e2.len() as int) =~= r3);
    assert(<Vec<ProfileProperty> as PacketRead>::wire_parse(s.skip(e0.len() + e1.len() + e2.len() as int))
        == PRead::<Seq<ProfilePropertyView>>::Val(v.properties.deep_view(), e3.len() as int)) by {
        <Vec<ProfileProperty> as PrefixRead>::lemma_enc_parse(v.properties, rest);
    };
}

impl PrefixRead for PacketLoginOutSuccess {
    proof fn lemma_enc_parse(v: Self, rest: Seq<u8>) {
        lemma_login_success_fields(v, rest);
    }
}

impl Packet<OutLogin> for PacketLoginOutSuccess {
    open spec fn spec_packet_id() -> u32 {
        0x2
    }

    open spec fn spec_stage(self) -> OutLogin {
        OutLogin::PacketLoginOutSuccess(self)
    }

    open spec fn spec_side() -> ProtocolSide {
        ProtocolSide::Outgoing
    }

    fn packet_id() -> (r: u32) {
        0x2
    }

    fn side() -> (r: ProtocolSide) {
        ProtocolSide::Outgoing
    }

    fn into_stage(self) -> (r: OutLogin) {
        OutLogin::PacketLoginOutSuccess(self)
    }
}

/// Packet `PacketLoginOutCompression` (id 0x3).
#[derive(Debug, Clone, PartialEq)]
pub struct PacketLoginOutCompression {
    pub threshold: i32,
}

/// The deep view of `PacketLoginOutCompression`.
pub struct PacketLoginOutCompressionView {
    pub threshold: i32,
}

impl PacketLoginOutCompression {
    /// Assemble the packet from its fields.
    pub fn new(threshold: i32) -> (r: PacketLoginOutCompression)
        ensures
            r == (PacketLoginOutCompression { threshold }),
    {
        PacketLoginOutCompression { threshold }
    }
}

impl DeepView for PacketLoginOutCompression {
    type V = PacketLoginOutCompressionView;

    open spec fn deep_view(&self) -> PacketLoginOutCompressionView {
        PacketLoginOutCompressionView {
            threshold: self.threshold,
        }
    }
}

impl PacketWrite for PacketLoginOutCompression {
    open spec fn wire_wf(&self) -> bool {
        true
    }

    open spec fn wire_enc(&self) -> Seq<u8> {
        VarInt(0x3).wire_enc() + VarInt(self.threshold).wire_enc()
    }

    fn pack_write(&self, buffer: &mut Vec<u8>, target_version: u32) -> (r: Result<
        (),
        WireError,
    >) {
        VarInt(0x3).pack_write(buffer, target_version)?;
        VarInt(self.threshold).pack_write(buffer, target_version)?;
        proof {
            assert(buffer@ =~= old(buffer)@ + self.wire_enc());
        }
        Ok(())
    }
}

impl PacketRead for PacketLoginOutCompression {
    open spec fn wire_parse(s: Seq<u8>) -> PRead<PacketLoginOutCompressionView> {
        match <VarInt as PacketRead>::wire_parse(s) {
            PRead::Fail(e) => PRead::Fail(e),
            PRead::Val(id, n0) => if id.0 != 0x3 {
                PRead::Fail(WireError::Protocol(ProtocolKind::UnknownPacketId))
            } else {
                match <VarInt as PacketRead>::wire_parse(s.skip(n0)) {
                    PRead::Fail(e) => PRead::Fail(e),
                    PRead::Val(x0, n1) => PRead::Val(
                        PacketLoginOutCompressionView {
                            threshold: x0.0,
                        },
                        n0 + n1,
                    ),
                }
            },
        }
    }

    fn pack_read(data: &Vec<u8>, pos: &mut usize, target_version: u32) -> (r: Result<
        PacketLoginOutCompression,
        WireError,
    >) {
        let id = <VarInt as PacketRead>::pack_read(data, pos, target_version)?;
        if id.0 != 0x3 {
            return Err(WireError::Protocol(ProtocolKind::UnknownPacketId));
        }
        let x0 = <VarInt as PacketRead>::pack_read(data, pos, target_version)?;
        Ok(PacketLoginOutCompression {
            threshold: x0.0,
        })
    }

    proof fn lemma_enc_parse_exact(v: Self) {
        Self::lemma_enc_parse(v, Seq::empty());
        assert(v.wire_enc() + Seq::<u8>::empty() =~= v.wire_enc());
    }
}

impl PrefixRead for PacketLoginOutCompression {
    #[verifier::rlimit(80)]
    proof fn lemma_enc_parse(v: Self, rest: Seq<u8>) {
        let e0 = VarInt(0x3).wire_enc();
        let e1 = VarInt(v.threshold).wire_enc();
        let s = v.wire_enc() + rest;
        let r1 = e1 + rest;
        assert(s =~= e0 + r1);
        <VarInt as PrefixRead>::lemma_enc_parse(VarInt(0x3), r1);
        assert(s.skip(e0.len() as int) =~= r1);
        <VarInt as PrefixRead>::lemma_enc_parse(VarInt(v.threshold), rest);
    }
}

impl Packet<OutLogin> for PacketLoginOutCompression {
    open spec fn spec_packet_id() -> u32 {
        0x3
    }

    open spec fn spec_stage(self) -> OutLogin {
        OutLogin::PacketLoginOutCompression(self)
    }

    open spec fn spec_side() -> ProtocolSide {
        ProtocolSide::Outgoing
    }

    fn packet_id() -> (r: u32) {
        0x3
    }

    fn side() -> (r: ProtocolSide) {
        ProtocolSide::Outgoing
    }

    fn into_stage(self) -> (r: OutLogin) {
        OutLogin::PacketLoginOutCompression(self)
    }
}

/// Packet `PacketLoginOutPluginMessage` (id 0x4).
#[derive(Debug, Clone, PartialEq)]
pub struct PacketLoginOutPluginMessage {
    pub message_id: i32,
    pub channel: Identifier,
    pub message: ByteArray,
}

/// The deep view of `PacketLoginOutPluginMessage`.
pub struct PacketLoginOutPluginMessageView {
    pub message_id: i32,
    pub channel: (Seq<char>, Seq<char>),
    pub message: Seq<u8>,
}

impl PacketLoginOutPluginMessage {
    /// Assemble the packet from its fields.
    pub fn new(message_id: i32, channel: Identifier, message: ByteArray) -> (r: PacketLoginOutPluginMessage)
        ensures
            r == (PacketLoginOutPluginMessage { message_id, channel, message }),
    {
        PacketLoginOutPluginMessage { message_id, channel, message }
    }
}

impl DeepView for PacketLoginOutPluginMessage {
    type V = PacketLoginOutPluginMessageView;

    open spec fn deep_view(&self) -> PacketLoginOutPluginMessageView {
        PacketLoginOutPluginMessageView {
            message_id: self.message_id,
            channel: self.channel.deep_view(),
            message: self.message.deep_view(),
        }
    }
}

impl PacketWrite for PacketLoginOutPluginMessage {
    open spec fn wire_wf(&self) -> bool {
        self.channel.wire_wf() && self.message.wire_wf()
    }

    open spec fn wire_enc(&self) -> Seq<u8> {
        VarInt(0x4).wire_enc() + VarInt(self.message_id).wire_enc() + self.channel.wire_enc() + self.message.wire_enc()
    }

    open spec fn wire_write_err(&self) -> WireError {
        self.channel.wire_write_err()
    }

    fn pack_write(&self, buffer: &mut Vec<u8>, target_version: u32) -> (r: Result<
        (),
        WireError,
    >) {
        let mut scratch: Vec<u8> = Vec::new();
        VarInt(0x4).pack_write(&mut scratch, target_version)?;
        VarInt(self.message_id).pack_write(&mut scratch, target_version)?;
        self.channel.pack_write(&mut scratch, target_version)?;
        self.message.pack_write(&mut scratch, target_version)?;
        buffer.extend_from_slice(scratch.as_slice());
        proof {
            assert(buffer@ =~= old(buffer)@ + self.wire_enc());
        }
        Ok(())
    }
}

impl PacketRead for PacketLoginOutPluginMessage {
    open spec fn wire_parse(s: Seq<u8>) -> PRead<PacketLoginOutPluginMessageView> {
        match <VarInt as PacketRead>::wire_parse(s) {
            PRead::Fail(e) => PRead::Fail(e),
            PRead::Val(id, n0) => if id.0 != 0x4 {
                PRead::Fail(WireError::Protocol(ProtocolKind::UnknownPacketId))
            } else {
                match <VarInt as PacketRead>::wire_parse(s.skip(n0)) {
                    PRead::Fail(e) => PRead::Fail(e),
                    PRead::Val(x0, n1) =>
                    match <Identifier as PacketRead>::wire_parse(s.skip(n0 + n1)) {
                        PRead::Fail(e) => PRead::Fail(e),
                        PRead::Val(x1, n2) =>
                        match <ByteArray as PacketRead>::wire_parse(s.skip(n0 + n1 + n2)) {
                            PRead::Fail(e) => PRead::Fail(e),
                            PRead::Val(x2, n3) => PRead::Val(
                                PacketLoginOutPluginMessageView {
                                    message_id: x0.0,
                                    channel: x1,
                                    message: x2,
                                },
                                n0 + n1 + n2 + n3,
                            ),
                        },
                    },
                }
            },
        }
    }

    fn pack_read(data: &Vec<u8>, pos: &mut usize, target_version: u32) -> (r: Result<
        PacketLoginOutPluginMessage,
        WireError,
    >) {
        let id = <VarInt as PacketRead>::pack_read(data, pos, target_version)?;
        if id.0 != 0x4 {
            return Err(WireError::Protocol(ProtocolKind::UnknownPacketId));
        }
        let x0 = <VarInt as PacketRead>::pack_read(data, pos, target_version)?;
        let x1 = <Identifier as PacketRead>::pack_read(data, pos, target_version)?;
        let x2 = <ByteArray as PacketRead>::pack_read(data, pos, target_version)?;
        Ok(PacketLoginOutPluginMessage {
            message_id: x0.0,
            channel: x1,
            message: x2,
        })
    }

    #[verifier::rlimit(80)]
    proof fn lemma_enc_parse_exact(v: Self) {
        let e0 = VarInt(0x4).wire_enc();
        let e1 = VarInt(v.message_id).wire_enc();
        let e2 = v.channel.wire_enc();
        let e3 = v.message.wire_enc();
        let rest0 = Seq::<u8>::empty();
        let s = v.wire_enc();
        assert(s =~= v.wire_enc() + rest0);
        let r3 = e3 + rest0;
        let r2 = e2 + r3;
        let r1 = e1 + r2;
        assert(s =~= e0 + r1);
        <VarInt as PrefixRead>::lemma_enc_parse(VarInt(0x4), r1);
        assert(s.skip(e0.len() as int) =~= r1);
        <VarInt as PrefixRead>::lemma_enc_parse(VarInt(v.message_id), r2);
        assert(s.skip(e0.len() + e1.len() as int) =~= r2);
        <Identifier as PrefixRead>::lemma_enc_parse(v.channel, r3);
        assert(s.skip(e0.len() + e1.len() + e2.len() as int) =~= r3);
        <ByteArray as PacketRead>::lemma_enc_parse_exact(v.message);
    }
}

impl Packet<OutLogin> for PacketLoginOutPluginMessage {
    open spec fn spec_packet_id() -> u32 {
        0x4
    }

    open spec fn spec_stage(self) -> OutLogin {
        OutLogin::PacketLoginOutPluginMessage(self)
    }

    open spec fn spec_side() -> ProtocolSide {
        ProtocolSide::Outgoing
    }

    fn packet_id() -> (r: u32) {
        0x4
    }

    fn side() -> (r: ProtocolSide) {
        ProtocolSide::Outgoing
    }

    fn into_stage(self) -> (r: OutLogin) {
        OutLogin::PacketLoginOutPluginMessage(self)
    }
}

/// The login stage: the tagged union of its packets.
#[derive(Debug, Clone, PartialEq)]
pub enum OutLogin {
    PacketLoginOutDisconnect(PacketLoginOutDisconnect),
    PacketLoginOutEncryptionRequest(PacketLoginOutEncryptionRequest),
    PacketLoginOutSuccess(PacketLoginOutSuccess),
    PacketLoginOutCompression(PacketLoginOutCompression),
    PacketLoginOutPluginMessage(PacketLoginOutPluginMessage),
}

/// The deep view of the login stage.
pub enum OutLoginView {
    PacketLoginOutDisconnect(PacketLoginOutDisconnectView),
    PacketLoginOutEncryptionRequest(PacketLoginOutEncryptionRequestView),
    PacketLoginOutSuccess(PacketLoginOutSuccessView),
    PacketLoginOutCompression(PacketLoginOutCompressionView),
    PacketLoginOutPluginMessage(PacketLoginOutPluginMessageView),
}

impl DeepView for OutLogin {
    type V = OutLoginView;

    open spec fn deep_view(&self) -> OutLoginView {
        match self {
            OutLogin::PacketLoginOutDisconnect(p) => OutLoginView::PacketLoginOutDisconnect(p.deep_view()),
            OutLogin::PacketLoginOutEncryptionRequest(p) => OutLoginView::PacketLoginOutEncryptionRequest(p.deep_view()),
            OutLogin::PacketLoginOutSuccess(p) => OutLoginView::PacketLoginOutSuccess(p.deep_view()),
            OutLogin::PacketLoginOutCompression(p) => OutLoginView::PacketLoginOutCompression(p.deep_view()),
            OutLogin::PacketLoginOutPluginMessage(p) => OutLoginView::PacketLoginOutPluginMessage(p.deep_view()),
        }
    }
}

impl PacketStage for OutLogin {
    open spec fn spec_name() -> Seq<char> {
        "login"@
    }

    open spec fn spec_side() -> ProtocolSide {
        ProtocolSide::Outgoing
    }

    fn name() -> (r: String) {
        String::from_str("login")
    }

    fn side() -> (r: ProtocolSide) {
        ProtocolSide::Outgoing
    }
}

impl PacketWrite for OutLogin {
    open spec fn wire_wf(&self) -> bool {
        match self {
            OutLogin::PacketLoginOutDisconnect(p) => p.wire_wf(),
            OutLogin::PacketLoginOutEncryptionRequest(p) => p.wire_wf(),
            OutLogin::PacketLoginOutSuccess(p) => p.wire_wf(),
            OutLogin::PacketLoginOutCompression(p) => p.wire_wf(),
            OutLogin::PacketLoginOutPluginMessage(p) => p.wire_wf(),
        }
    }

    open spec fn wire_enc(&self) -> Seq<u8> {
        match self {
            OutLogin::PacketLoginOutDisconnect(p) => p.wire_enc(),
            OutLogin::PacketLoginOutEncryptionRequest(p) => p.wire_enc(),
            OutLogin::PacketLoginOutSuccess(p) => p.wire_enc(),
            OutLogin::PacketLoginOutCompression(p) => p.wire_enc(),
            OutLogin::PacketLoginOutPluginMessage(p) => p.wire_enc(),
        }
    }

    open spec fn wire_write_err(&self) -> WireError {
        match self {
            OutLogin::PacketLoginOutDisconnect(p) => p.wire_write_err(),
            OutLogin::PacketLoginOutEncryptionRequest(p) => p.wire_write_err(),
            OutLogin::PacketLoginOutSuccess(p) => p.wire_write_err(),
            OutLogin::PacketLoginOutCompression(p) => p.wire_write_err(),
            OutLogin::PacketLoginOutPluginMessage(p) => p.wire_write_err(),
        }
    }

    fn pack_write(&self, buffer: &mut Vec<u8>, target_version: u32) -> (r: Result<
        (),
        WireError,
    >) {
        match self {
            OutLogin::PacketLoginOutDisconnect(p) => p.pack_write(buffer, target_version),
            OutLogin::PacketLoginOutEncryptionRequest(p) => p.pack_write(buffer, target_version),
            OutLogin::PacketLoginOutSuccess(p) => p.pack_write(buffer, target_version),
            OutLogin::PacketLoginOutCompression(p) => p.pack_write(buffer, target_version),
            OutLogin::PacketLoginOutPluginMessage(p) => p.pack_write(buffer, target_version),
        }
    }
}

impl PacketRead for OutLogin {
    open spec fn wire_parse(s: Seq<u8>) -> PRead<OutLoginView> {
        match <VarInt as PacketRead>::wire_parse(s) {
            PRead::Fail(e) => PRead::Fail(e),
            PRead::Val(id, n0) => {
                if id.0 == 0x0 {
                    match <PacketLoginOutDisconnect as PacketRead>::wire_parse(s) {
                        PRead::Val(p, n) => PRead::Val(OutLoginView::PacketLoginOutDisconnect(p), n),
                        PRead::Fail(e) => PRead::Fail(e),
                    }
                } else if id.0 == 0x1 {
                    match <PacketLoginOutEncryptionRequest as PacketRead>::wire_parse(s) {
                        PRead::Val(p, n) => PRead::Val(OutLoginView::PacketLoginOutEncryptionRequest(p), n),
                        PRead::Fail(e) => PRead::Fail(e),
                    }
                } else if id.0 == 0x2 {
                    match <PacketLoginOutSuccess as PacketRead>::wire_parse(s) {
                        PRead::Val(p, n) => PRead::Val(OutLoginView::PacketLoginOutSuccess(p), n),
                        PRead::Fail(e) => PRead::Fail(e),
                    }
                } else if id.0 == 0x3 {
                    match <PacketLoginOutCompression as PacketRead>::wire_parse(s) {
                        PRead::Val(p, n) => PRead::Val(OutLoginView::PacketLoginOutCompression(p), n),
                        PRead::Fail(e) => PRead::Fail(e),
                    }
                } else if id.0 == 0x4 {
                    match <PacketLoginOutPluginMessage as PacketRead>::wire_parse(s) {
                        PRead::Val(p, n) => PRead::Val(OutLoginView::PacketLoginOutPluginMessage(p), n),
                        PRead::Fail(e) => PRead::Fail(e),
                    }
                } else {
                    PRead::Fail(WireError::Protocol(ProtocolKind::UnknownPacketId))
                }
            },
        }
    }

    fn pack_read(data: &Vec<u8>, pos: &mut usize, target_version: u32) -> (r: Result<
        OutLogin,
        WireError,
    >) {
        let p0: usize = *pos;
        let id = <VarInt as PacketRead>::pack_read(data, pos, target_version)?;
        *pos = p0;
        if id.0 == 0x0 {
            match <PacketLoginOutDisconnect as PacketRead>::pack_read(data, pos, target_version) {
                Ok(p) => Ok(OutLogin::PacketLoginOutDisconnect(p)),
                Err(e) => Err(e),
            }
        } else if id.0 == 0x1 {
            match <PacketLoginOutEncryptionRequest as PacketRead>::pack_read(data, pos, target_version) {
                Ok(p) => Ok(OutLogin::PacketLoginOutEncryptionRequest(p)),
                Err(e) => Err(e),
            }
        } else if id.0 == 0x2 {
            match <PacketLoginOutSuccess as PacketRead>::pack_read(data, pos, target_version) {
                Ok(p) => Ok(OutLogin::PacketLoginOutSuccess(p)),
                Err(e) => Err(e),
            }
        } else if id.0 == 0x3 {
            match <PacketLoginOutCompression as PacketRead>::pack_read(data, pos, target_version) {
                Ok(p) => Ok(OutLogin::PacketLoginOutCompression(p)),
                Err(e) => Err(e),
            }
        } else if id.0 == 0x4 {
            match <PacketLoginOutPluginMessage as PacketRead>::pack_read(data, pos, target_version) {
                Ok(p) => Ok(OutLogin::PacketLoginOutPluginMessage(p)),
                Err(e) => Err(e),
            }
        } else {
            Err(WireError::Protocol(ProtocolKind::UnknownPacketId))
        }
    }

    #[verifier::rlimit(80)]
    proof fn lemma_enc_parse_exact(v: Self) {
        match v {
            OutLogin::PacketLoginOutDisconnect(p) => {
                <PacketLoginOutDisconnect as PacketRead>::lemma_enc_parse_exact(p);
                let r1 = p.reason.wire_enc();
                assert(p.wire_enc() =~= VarInt(0x0).wire_enc() + r1);
                <VarInt as PrefixRead>::lemma_enc_parse(VarInt(0x0), r1);
            },
            OutLogin::PacketLoginOutEncryptionRequest(p) => {
                <PacketLoginOutEncryptionRequest as PacketRead>::lemma_enc_parse_exact(p);
                let r1 = p.server_id.wire_enc() + p.public_key.wire_enc() + p.verify_token.wire_enc();
                assert(p.wire_enc() =~= VarInt(0x1).wire_enc() + r1);
                <VarInt as PrefixRead>::lemma_enc_parse(VarInt(0x1), r1);
            },
            OutLogin::PacketLoginOutSuccess(p) => {
                <PacketLoginOutSuccess as PacketRead>::lemma_enc_parse_exact(p);
                let r1 = p.player_uuid.wire_enc() + p.username.wire_enc() + p.properties.wire_enc();
                assert(p.wire_enc() =~= VarInt(0x2).wire_enc() + r1);
                <VarInt as PrefixRead>::lemma_enc_parse(VarInt(0x2), r1);
            },
            OutLogin::PacketLoginOutCompression(p) => {
                <PacketLoginOutCompression as PacketRead>::lemma_enc_parse_exact(p);
                let r1 = VarInt(p.threshold).wire_enc();
                assert(p.wire_enc() =~= VarInt(0x3).wire_enc() + r1);
                <VarInt as PrefixRead>::lemma_enc_parse(VarInt(0x3), r1);
            },
            OutLogin::PacketLoginOutPluginMessage(p) => {
                <PacketLoginOutPluginMessage as PacketRead>::lemma_enc_parse_exact(p);
                let r1 = VarInt(p.message_id).wire_enc() + p.channel.wire_enc() + p.message.wire_enc();
                assert(p.wire_enc() =~= VarInt(0x4).wire_enc() + r1);
                <VarInt as PrefixRead>::lemma_enc_parse(VarInt(0x4), r1);
            },
        }
    }
}

} // verus!
