//! The login stage, inbound: login start, encryption response, plugin
//! response.

use vstd::prelude::*;

use crate::error::{ProtocolKind, WireError};
use crate::net_io::packet::{Packet, PacketStage, ProtocolSide};
use crate::net_io::{PacketRead, PacketWrite, PRead, PrefixRead, VarInt};
use crate::net_io::ByteArray;

verus! {

broadcast use crate::net_io::lemma_skip_skip;

/// Packet `PacketLoginInStart` (id 0x0).
#[derive(Debug, Clone, PartialEq)]
pub struct PacketLoginInStart {
    pub name: String,
    pub key_expiration: Option<i64>,
    pub public_key: Option<Vec<u8>>,
    pub signature: Option<Vec<u8>>,
}

/// The deep view of `PacketLoginInStart`.
pub struct PacketLoginInStartView {
    pub name: Seq<char>,
    pub key_expiration: Option<i64>,
    pub public_key: Option<Seq<u8>>,
    pub signature: Option<Seq<u8>>,
}

impl PacketLoginInStart {
    /// Assemble the packet from its fields.
    pub fn new(name: String, key_expiration: Option<i64>, public_key: Option<Vec<u8>>, signature: Option<Vec<u8>>) -> (r: PacketLoginInStart)
        ensures
            r == (PacketLoginInStart { name, key_expiration, public_key, signature }),
    {
        PacketLoginInStart { name, key_expiration, public_key, signature }
    }
}

impl DeepView for PacketLoginInStart {
    type V = PacketLoginInStartView;

    open spec fn deep_view(&self) -> PacketLoginInStartView {
        PacketLoginInStartView {
            name: self.name.deep_view(),
            key_expiration: self.key_expiration,
            public_key: self.public_key.deep_view(),
            signature: self.signature.deep_view(),
        }
    }
}

impl PacketWrite for PacketLoginInStart {
    open spec fn wire_wf(&self) -> bool {
        self.name.wire_wf() && self.key_expiration.wire_wf() && self.public_key.wire_wf() && self.signature.wire_wf()
    }

    open spec fn wire_enc(&self) -> Seq<u8> {
        VarInt(0x0).wire_enc() + self.name.wire_enc() + self.key_expiration.wire_enc() + self.public_key.wire_enc() + self.signature.wire_enc()
    }

    open spec fn wire_write_err(&self) -> WireError {
        if !self.name.wire_wf() {
            self.name.wire_write_err()
        } else if !self.public_key.wire_wf() {
            self.public_key.wire_write_err()
        } else {
            self.signature.wire_write_err()
        }
    }

    fn pack_write(&self, buffer: &mut Vec<u8>, target_version: u32) -> (r: Result<
        (),
        WireError,
    >) {
        let mut scratch: Vec<u8> = Vec::new();
        VarInt(0x0).pack_write(&mut scratch, target_version)?;
        self.name.pack_write(&mut scratch, target_version)?;
        self.key_expiration.pack_write(&mut scratch, target_version)?;
        self.public_key.pack_write(&mut scratch, target_version)?;
        self.signature.pack_write(&mut scratch, target_version)?;
        buffer.extend_from_slice(scratch.as_slice());
        proof {
            assert(buffer@ =~= old(buffer)@ + self.wire_enc());
        }
        Ok(())
    }
}

impl PacketRead for PacketLoginInStart {
    open spec fn wire_parse(s: Seq<u8>) -> PRead<PacketLoginInStartView> {
        match <VarInt as PacketRead>::wire_parse(s) {
            PRead::Fail(e) => PRead::Fail(e),
            PRead::Val(id, n0) => if id.0 != 0x0 {
                PRead::Fail(WireError::Protocol(ProtocolKind::UnknownPacketId))
            } else {
                match <String as PacketRead>::wire_parse(s.skip(n0)) {
                    PRead::Fail(e) => PRead::Fail(e),
                    PRead::Val(x0, n1) =>
                    match <Option<i64> as PacketRead>::wire_parse(s.skip(n0 + n1)) {
                        PRead::Fail(e) => PRead::Fail(e),
                        PRead::Val(x1, n2) =>
                        match <Option<Vec<u8>> as PacketRead>::wire_parse(s.skip(n0 + n1 + n2)) {
                            PRead::Fail(e) => PRead::Fail(e),
                            PRead::Val(x2, n3) =>
                            match <Option<Vec<u8>> as PacketRead>::wire_parse(s.skip(n0 + n1 + n2 + n3)) {
                                PRead::Fail(e) => PRead::Fail(e),
                                PRead::Val(x3, n4) => PRead::Val(
                                    PacketLoginInStartView {
                                        name: x0,
                                        key_expiration: x1,
                                        public_key: x2,
                                        signature: x3,
                                    },
                                    n0 + n1 + n2 + n3 + n4,
                                ),
                            },
                        },
                    },
                }
            },
        }
    }

    fn pack_read(data: &Vec<u8>, pos: &mut usize, target_version: u32) -> (r: Result<
        PacketLoginInStart,
        WireError,
    >) {
        let id = <VarInt as PacketRead>::pack_read(data, pos, target_version)?;
        if id.0 != 0x0 {
            return Err(WireError::Protocol(ProtocolKind::UnknownPacketId));
        }
        let x0 = <String as PacketRead>::pack_read(data, pos, target_version)?;
        let x1 = <Option<i64> as PacketRead>::pack_read(data, pos, target_version)?;
        let x2 = <Option<Vec<u8>> as PacketRead>::pack_read(data, pos, target_version)?;
        let x3 = <Option<Vec<u8>> as PacketRead>::pack_read(data, pos, target_version)?;
        Ok(PacketLoginInStart {
            name: x0,
            key_expiration: x1,
            public_key: x2,
            signature: x3,
        })
    }

    proof fn lemma_enc_parse_exact(v: Self) {
        Self::lemma_enc_parse(v, Seq::empty());
        assert(v.wire_enc() + Seq::<u8>::empty() =~= v.wire_enc());
    }
}

/// The field-by-field parse facts behind the round trip of
/// `PacketLoginInStart`, proved apart to keep each solver query small.
#[verifier::rlimit(100)]
proof fn lemma_login_start_fields(v: PacketLoginInStart, rest: Seq<u8>)
    requires
        v.wire_wf(),
    ensures
        ({
            let e0 = VarInt(0x0).wire_enc();
            let e1 = v.name.wire_enc();
            let e2 = v.key_expiration.wire_enc();
            let e3 = v.public_key.wire_enc();
            let e4 = v.signature.wire_enc();
            let s = v.wire_enc() + rest;
            &&& <VarInt as PacketRead>::wire_parse(s) == PRead::<VarInt>::Val(
                    VarInt(0x0),
                    e0.len() as int,
                )
            &&& s.skip(e0.len() as int) == e1 + (e2 + (e3 + (e4 + rest)))
            &&& <String as PacketRead>::wire_parse(s.skip(e0.len() as int))
                    == PRead::<Seq<char>>::Val(v.name@, e1.len() as int)
            &&& s.skip(e0.len() + e1.len() as int) == e2 + (e3 + (e4 + rest))
            &&& <Option<i64> as PacketRead>::wire_parse(s.skip(e0.len() + e1.len() as int))
                    == PRead::<Option<i64>>::Val(v.key_expiration, e2.len() as int)
            &&& s.skip(e0.len() + e1.len() + e2.len() as int) == e3 + (e4 + rest)
            &&& <Option<Vec<u8>> as PacketRead>::wire_parse(s.skip(e0.len() + e1.len() + e2.len() as int))
                    == PRead::<Option<Seq<u8>>>::Val(v.public_key.deep_view(), e3.len() as int)
            &&& s.skip(e0.len() + e1.len() + e2.len() + e3.len() as int) == e4 + rest
            &&& <Option<Vec<u8>> as PacketRead>::wire_parse(s.skip(e0.len() + e1.len() + e2.len() + e3.len() as int))
                    == PRead::<Option<Seq<u8>>>::Val(v.signature.deep_view(), e4.len() as int)
        }),
{
    let e0 = VarInt(0x0).wire_enc();
    let e1 = v.name.wire_enc();
    let e2 = v.key_expiration.wire_enc();
    let e3 = v.public_key.wire_enc();
    let e4 = v.signature.wire_enc();
    let s = v.wire_enc() + rest;
    let r4 = e4 + rest;
    let r3 = e3 + r4;
    let r2 = e2 + r3;
    let r1 = e1 + r2;
    assert(<VarInt as PacketRead>::wire_parse(s) == PRead::<VarInt>::Val(
        VarInt(0x0),
        e0.len() as int,
    )) by {
        assert(s =~= e0 + r1);
        <VarInt as PrefixRead>::lemma_enc_parse(VarInt(0x0), r1);
    };
    assert(s.skip(e0.len() as int) =~= r1);
    assert(<String as PacketRead>::wire_parse(s.skip(e0.len() as int))
        == PRead::<Seq<char>>::Val(v.name@, e1.len() as int)) by {
        <String as PrefixRead>::lemma_enc_parse(v.name, r2);
    };
    assert(s.skip(e0.len() + e1.len() as int) =~= r2);
    assert(<Option<i64> as PacketRead>::wire_parse(s.skip(e0.len() + e1.len() as int))
        == PRead::<Option<i64>>::Val(v.key_expiration, e2.len() as int)) by {
        <Option<i64> as PrefixRead>::lemma_enc_parse(v.key_expiration, r3);
    };
    assert(s.skip(e0.len() + e1.len() + e2.len() as int) =~= r3);
    assert(<Option<Vec<u8>> as PacketRead>::wire_parse(s.skip(e0.len() + e1.len() + e2.len() as int))
        == PRead::<Option<Seq<u8>>>::Val(v.public_key.deep_view(), e3.len() as int)) by {
        <Option<Vec<u8>> as PrefixRead>::lemma_enc_parse(v.public_key, r4);
    };
    assert(s.skip(e0.len() + e1.len() + e2.len() + e3.len() as int) =~= r4);
    assert(<Option<Vec<u8>> as PacketRead>::wire_parse(s.skip(e0.len() + e1.len() + e2.len() + e3.len() as int))
        == PRead::<Option<Seq<u8>>>::Val(v.signature.deep_view(), e4.len() as int)) by {
        <Option<Vec<u8>> as PrefixRead>::lemma_enc_parse(v.signature, rest);
    };
}

impl PrefixRead for PacketLoginInStart {
    proof fn lemma_enc_parse(v: Self, rest: Seq<u8>) {
        lemma_login_start_fields(v, rest);
    }
}

impl Packet<InLogin> for PacketLoginInStart {
    open spec fn spec_packet_id() -> u32 {
        0x0
    }

    open spec fn spec_stage(self) -> InLogin {
        InLogin::PacketLoginInStart(self)
    }

    open spec fn spec_side() -> ProtocolSide {
        ProtocolSide::Inbound
    }

    fn packet_id() -> (r: u32) {
        0x0
    }

    fn side() -> (r: ProtocolSide) {
        ProtocolSide::Inbound
    }

    fn into_stage(self) -> (r: InLogin) {
        InLogin::PacketLoginInStart(self)
    }
}

/// Packet `PacketLoginInEncryptionResponse` (id 0x1).
#[derive(Debug, Clone, PartialEq)]
pub struct PacketLoginInEncryptionResponse {
    pub shared_secret: Vec<u8>,
    pub verify_token: Option<Vec<u8>>,
    pub salt: Option<i64>,
    pub message_signature: Option<Vec<u8>>,
}

/// The deep view of `PacketLoginInEncryptionResponse`.
pub struct PacketLoginInEncryptionResponseView {
    pub shared_secret: Seq<u8>,
    pub verify_token: Option<Seq<u8>>,
    pub salt: Option<i64>,
    pub message_signature: Option<Seq<u8>>,
}

impl PacketLoginInEncryptionResponse {
    /// Assemble the packet from its fields.
    pub fn new(shared_secret: Vec<u8>, verify_token: Option<Vec<u8>>, salt: Option<i64>, message_signature: Option<Vec<u8>>) -> (r: PacketLoginInEncryptionResponse)
        ensures
            r == (PacketLoginInEncryptionResponse { shared_secret, verify_token, salt, message_signature }),
    {
        PacketLoginInEncryptionResponse { shared_secret, verify_token, salt, message_signature }
    }
}

impl DeepView for PacketLoginInEncryptionResponse {
    type V = PacketLoginInEncryptionResponseView;

    open spec fn deep_view(&self) -> PacketLoginInEncryptionResponseView {
        PacketLoginInEncryptionResponseView {
            shared_secret: self.shared_secret.deep_view(),
            verify_token: self.verify_token.deep_view(),
            salt: self.salt,
            message_signature: self.message_signature.deep_view(),
        }
    }
}

impl PacketWrite for PacketLoginInEncryptionResponse {
    open spec fn wire_wf(&self) -> bool {
        self.shared_secret.wire_wf() && self.verify_token.wire_wf() && self.salt.wire_wf() && self.message_signature.wire_wf()
    }

    open spec fn wire_enc(&self) -> Seq<u8> {
        VarInt(0x1).wire_enc() + self.shared_secret.wire_enc() + self.verify_token.wire_enc() + self.salt.wire_enc() + self.message_signature.wire_enc()
    }

    open spec fn wire_write_err(&self) -> WireError {
        if !self.shared_secret.wire_wf() {
            self.shared_secret.wire_write_err()
        } else if !self.verify_token.wire_wf() {
            self.verify_token.wire_write_err()
        } else {
            self.message_signature.wire_write_err()
        }
    }

    fn pack_write(&self, buffer: &mut Vec<u8>, target_version: u32) -> (r: Result<
        (),
        WireError,
    >) {
        let mut scratch: Vec<u8> = Vec::new();
        VarInt(0x1).pack_write(&mut scratch, target_version)?;
        self.shared_secret.pack_write(&mut scratch, target_version)?;
        self.verify_token.pack_write(&mut scratch, target_version)?;
        self.salt.pack_write(&mut scratch, target_version)?;
        self.message_signature.pack_write(&mut scratch, target_version)?;
        buffer.extend_from_slice(scratch.as_slice());
        proof {
            assert(buffer@ =~= old(buffer)@ + self.wire_enc());
        }
        Ok(())
    }
}

impl PacketRead for PacketLoginInEncryptionResponse {
    open spec fn wire_parse(s: Seq<u8>) -> PRead<PacketLoginInEncryptionResponseView> {
        match <VarInt as PacketRead>::wire_parse(s) {
            PRead::Fail(e) => PRead::Fail(e),
            PRead::Val(id, n0) => if id.0 != 0x1 {
                PRead::Fail(WireError::Protocol(ProtocolKind::UnknownPacketId))
            } else {
                match <Vec<u8> as PacketRead>::wire_parse(s.skip(n0)) {
                    PRead::Fail(e) => PRead::Fail(e),
                    PRead::Val(x0, n1) =>
                    match <Option<Vec<u8>> as PacketRead>::wire_parse(s.skip(n0 + n1)) {
                        PRead::Fail(e) => PRead::Fail(e),
                        PRead::Val(x1, n2) =>
                        match <Option<i64> as PacketRead>::wire_parse(s.skip(n0 + n1 + n2)) {
                            PRead::Fail(e) => PRead::Fail(e),
                            PRead::Val(x2, n3) =>
                            match <Option<Vec<u8>> as PacketRead>::wire_parse(s.skip(n0 + n1 + n2 + n3)) {
                                PRead::Fail(e) => PRead::Fail(e),
                                PRead::Val(x3, n4) => PRead::Val(
                                    PacketLoginInEncryptionResponseView {
                                        shared_secret: x0,
                                        verify_token: x1,
                                        salt: x2,
                                        message_signature: x3,
                                    },
                                    n0 + n1 + n2 + n3 + n4,
                                ),
                            },
                        },
                    },
                }
            },
        }
    }

    fn pack_read(data: &Vec<u8>, pos: &mut usize, target_version: u32) -> (r: Result<
        PacketLoginInEncryptionResponse,
        WireError,
    >) {
        let id = <VarInt as PacketRead>::pack_read(data, pos, target_version)?;
        if id.0 != 0x1 {
            return Err(WireError::Protocol(ProtocolKind::UnknownPacketId));
        }
        let x0 = <Vec<u8> as PacketRead>::pack_read(data, pos, target_version)?;
        let x1 = <Option<Vec<u8>> as PacketRead>::pack_read(data, pos, target_version)?;
        let x2 = <Option<i64> as PacketRead>::pack_read(data, pos, target_version)?;
        let x3 = <Option<Vec<u8>> as PacketRead>::pack_read(data, pos, target_version)?;
        Ok(PacketLoginInEncryptionResponse {
            shared_secret: x0,
            verify_token: x1,
            salt: x2,
            message_signature: x3,
        })
    }

    proof fn lemma_enc_parse_exact(v: Self) {
        Self::lemma_enc_parse(v, Seq::empty());
        assert(v.wire_enc() + Seq::<u8>::empty() =~= v.wire_enc());
    }
}

/// The field-by-field parse facts behind the round trip of
/// `PacketLoginInEncryptionResponse`, proved apart to keep each solver query small.
#[verifier::rlimit(100)]
proof fn lemma_encryption_response_fields(v: PacketLoginInEncryptionResponse, rest: Seq<u8>)
    requires
        v.wire_wf(),
    ensures
        ({
            let e0 = VarInt(0x1).wire_enc();
            let e1 = v.shared_secret.wire_enc();
            let e2 = v.verify_token.wire_enc();
            let e3 = v.salt.wire_enc();
            let e4 = v.message_signature.wire_enc();
            let s = v.wire_enc() + rest;
            &&& <VarInt as PacketRead>::wire_parse(s) == PRead::<VarInt>::Val(
                    VarInt(0x1),
                    e0.len() as int,
                )
            &&& s.skip(e0.len() as int) == e1 + (e2 + (e3 + (e4 + rest)))
            &&& <Vec<u8> as PacketRead>::wire_parse(s.skip(e0.len() as int))
                    == PRead::<Seq<u8>>::Val(v.shared_secret.deep_view(), e1.len() as int)
            &&& s.skip(e0.len() + e1.len() as int) == e2 + (e3 + (e4 + rest))
            &&& <Option<Vec<u8>> as PacketRead>::wire_parse(s.skip(e0.len() + e1.len() as int))
                    == PRead::<Option<Seq<u8>>>::Val(v.verify_token.deep_view(), e2.len() as int)
            &&& s.skip(e0.len() + e1.len() + e2.len() as int) == e3 + (e4 + rest)
            &&& <Option<i64> as PacketRead>::wire_parse(s.skip(e0.len() + e1.len() + e2.len() as int))
                    == PRead::<Option<i64>>::Val(v.salt, e3.len() as int)
            &&& s.skip(e0.len() + e1.len() + e2.len() + e3.len() as int) == e4 + rest
            &&& <Option<Vec<u8>> as PacketRead>::wire_parse(s.skip(e0.len() + e1.len() + e2.len() + e3.len() as int))
                    == PRead::<Option<Seq<u8>>>::Val(v.message_signature.deep_view(), e4.len() as int)
        }),
{
    let e0 = VarInt(0x1).wire_enc();
    let e1 = v.shared_secret.wire_enc();
    let e2 = v.verify_token.wire_enc();
    let e3 = v.salt.wire_enc();
    let e4 = v.message_signature.wire_enc();
    let s = v.wire_enc() + rest;
    let r4 = e4 + rest;
    let r3 = e3 + r4;
    let r2 = e2 + r3;
    let r1 = e1 + r2;
    assert(<VarInt as PacketRead>::wire_parse(s) == PRead::<VarInt>::Val(
        VarInt(0x1),
        e0.len() as int,
    )) by {
        assert(s =~= e0 + r1);
        <VarInt as PrefixRead>::lemma_enc_parse(VarInt(0x1), r1);
    };
    assert(s.skip(e0.len() as int) =~= r1);
    assert(<Vec<u8> as PacketRead>::wire_parse(s.skip(e0.len() as int))
        == PRead::<Seq<u8>>::Val(v.shared_secret.deep_view(), e1.len() as int)) by {
        <Vec<u8> as PrefixRead>::lemma_enc_parse(v.shared_secret, r2);
    };
    assert(s.skip(e0.len() + e1.len() as int) =~= r2);
    assert(<Option<Vec<u8>> as PacketRead>::wire_parse(s.skip(e0.len() + e1.len() as int))
        == PRead::<Option<Seq<u8>>>::Val(v.verify_token.deep_view(), e2.len() as int)) by {
        <Option<Vec<u8>> as PrefixRead>::lemma_enc_parse(v.verify_token, r3);
    };
    assert(s.skip(e0.len() + e1.len() + e2.len() as int) =~= r3);
    assert(<Option<i64> as PacketRead>::wire_parse(s.skip(e0.len() + e1.len() + e2.len() as int))
        == PRead::<Option<i64>>::Val(v.salt, e3.len() as int)) by {
        <Option<i64> as PrefixRead>::lemma_enc_parse(v.salt, r4);
    };
    assert(s.skip(e0.len() + e1.len() + e2.len() + e3.len() as int) =~= r4);
    assert(<Option<Vec<u8>> as PacketRead>::wire_parse(s.skip(e0.len() + e1.len() + e2.len() + e3.len() as int))
        == PRead::<Option<Seq<u8>>>::Val(v.message_signature.deep_view(), e4.len() as int)) by {
        <Option<Vec<u8>> as PrefixRead>::lemma_enc_parse(v.message_signature, rest);
    };
}

impl PrefixRead for PacketLoginInEncryptionResponse {
    proof fn lemma_enc_parse(v: Self, rest: Seq<u8>) {
        lemma_encryption_response_fields(v, rest);
    }
}

impl Packet<InLogin> for PacketLoginInEncryptionResponse {
    open spec fn spec_packet_id() -> u32 {
        0x1
    }

    open spec fn spec_stage(self) -> InLogin {
        InLogin::PacketLoginInEncryptionResponse(self)
    }

    open spec fn spec_side() -> ProtocolSide {
        ProtocolSide::Inbound
    }

    fn packet_id() -> (r: u32) {
        0x1
    }

    fn side() -> (r: ProtocolSide) {
        ProtocolSide::Inbound
    }

    fn into_stage(self) -> (r: InLogin) {
        InLogin::PacketLoginInEncryptionResponse(self)
    }
}

/// Packet `PacketLoginInPluginResponse` (id 0x2).
#[derive(Debug, Clone, PartialEq)]
pub struct PacketLoginInPluginResponse {
    pub message_id: i32,
    pub data: Option<ByteArray>,
}

/// The deep view of `PacketLoginInPluginResponse`.
pub struct PacketLoginInPluginResponseView {
    pub message_id: i32,
    pub data: Option<Seq<u8>>,
}

impl PacketLoginInPluginResponse {
    /// Assemble the packet from its fields.
    pub fn new(message_id: i32, data: Option<ByteArray>) -> (r: PacketLoginInPluginResponse)
        ensures
            r == (PacketLoginInPluginResponse { message_id, data }),
    {
        PacketLoginInPluginResponse { message_id, data }
    }
}

impl DeepView for PacketLoginInPluginResponse {
    type V = PacketLoginInPluginResponseView;

    open spec fn deep_view(&self) -> PacketLoginInPluginResponseView {
        PacketLoginInPluginResponseView {
            message_id: self.message_id,
            data: self.data.deep_view(),
        }
    }
}

impl PacketWrite for PacketLoginInPluginResponse {
    open spec fn wire_wf(&self) -> bool {
        self.data.wire_wf()
    }

    open spec fn wire_enc(&self) -> Seq<u8> {
        VarInt(0x2).wire_enc() + VarInt(self.message_id).wire_enc() + self.data.wire_enc()
    }

    fn pack_write(&self, buffer: &mut Vec<u8>, target_version: u32) -> (r: Result<
        (),
        WireError,
    >) {
        VarInt(0x2).pack_write(buffer, target_version)?;
        VarInt(self.message_id).pack_write(buffer, target_version)?;
        self.data.pack_write(buffer, target_version)?;
        proof {
            assert(buffer@ =~= old(buffer)@ + self.wire_enc());
        }
        Ok(())
    }
}

impl PacketRead for PacketLoginInPluginResponse {
    open spec fn wire_parse(s: Seq<u8>) -> PRead<PacketLoginInPluginResponseView> {
        match <VarInt as PacketRead>::wire_parse(s) {
            PRead::Fail(e) => PRead::Fail(e),
            PRead::Val(id, n0) => if id.0 != 0x2 {
                PRead::Fail(WireError::Protocol(ProtocolKind::UnknownPacketId))
            } else {
                match <VarInt as PacketRead>::wire_parse(s.skip(n0)) {
                    PRead::Fail(e) => PRead::Fail(e),
                    PRead::Val(x0, n1) =>
                    match <Option<ByteArray> as PacketRead>::wire_parse(s.skip(n0 + n1)) {
                        PRead::Fail(e) => PRead::Fail(e),
                        PRead::Val(x1, n2) => PRead::Val(
                            PacketLoginInPluginResponseView {
                                message_id: x0.0,
                                data: x1,
                            },
                            n0 + n1 + n2,
                        ),
                    },
                }
            },
        }
    }

    fn pack_read(data: &Vec<u8>, pos: &mut usize, target_version: u32) -> (r: Result<
        PacketLoginInPluginResponse,
        WireError,
    >) {
        let id = <VarInt as PacketRead>::pack_read(data, pos, target_version)?;
        if id.0 != 0x2 {
            return Err(WireError::Protocol(ProtocolKind::UnknownPacketId));
        }
        let x0 = <VarInt as PacketRead>::pack_read(data, pos, target_version)?;
        let x1 = <Option<ByteArray> as PacketRead>::pack_read(data, pos, target_version)?;
        Ok(PacketLoginInPluginResponse {
            message_id: x0.0,
            data: x1,
        })
    }

    #[verifier::rlimit(80)]
    proof fn lemma_enc_parse_exact(v: Self) {
        let e0 = VarInt(0x2).wire_enc();
        let e1 = VarInt(v.message_id).wire_enc();
        let e2 = v.data.wire_enc();
        let rest0 = Seq::<u8>::empty();
        let s = v.wire_enc();
        assert(s =~= v.wire_enc() + rest0);
        let r2 = e2 + rest0;
        let r1 = e1 + r2;
        assert(s =~= e0 + r1);
        <VarInt as PrefixRead>::lemma_enc_parse(VarInt(0x2), r1);
        assert(s.skip(e0.len() as int) =~= r1);
        <VarInt as PrefixRead>::lemma_enc_parse(VarInt(v.message_id), r2);
        assert(s.skip(e0.len() + e1.len() as int) =~= r2);
        <Option<ByteArray> as PacketRead>::lemma_enc_parse_exact(v.data);
    }
}

impl Packet<InLogin> for PacketLoginInPluginResponse {
    open spec fn spec_packet_id() -> u32 {
        0x2
    }

    open spec fn spec_stage(self) -> InLogin {
        InLogin::PacketLoginInPluginResponse(self)
    }

    open spec fn spec_side() -> ProtocolSide {
        ProtocolSide::Inbound
    }

    fn packet_id() -> (r: u32) {
        0x2
    }

    fn side() -> (r: ProtocolSide) {
        ProtocolSide::Inbound
    }

    fn into_stage(self) -> (r: InLogin) {
        InLogin::PacketLoginInPluginResponse(self)
    }
}

/// The login stage: the tagged union of its packets.
#[derive(Debug, Clone, PartialEq)]
pub enum InLogin {
    PacketLoginInStart(PacketLoginInStart),
    PacketLoginInEncryptionResponse(PacketLoginInEncryptionResponse),
    PacketLoginInPluginResponse(PacketLoginInPluginResponse),
}

/// The deep view of the login stage.
pub enum InLoginView {
    PacketLoginInStart(PacketLoginInStartView),
    PacketLoginInEncryptionResponse(PacketLoginInEncryptionResponseView),
    PacketLoginInPluginResponse(PacketLoginInPluginResponseView),
}

impl DeepView for InLogin {
    type V = InLoginView;

    open spec fn deep_view(&self) -> InLoginView {
        match self {
            InLogin::PacketLoginInStart(p) => InLoginView::PacketLoginInStart(p.deep_view()),
            InLogin::PacketLoginInEncryptionResponse(p) => InLoginView::PacketLoginInEncryptionResponse(p.deep_view()),
            InLogin::PacketLoginInPluginResponse(p) => InLoginView::PacketLoginInPluginResponse(p.deep_view()),
        }
    }
}

impl PacketStage for InLogin {
    open spec fn spec_name() -> Seq<char> {
        "login"@
    }

    open spec fn spec_side() -> ProtocolSide {
        ProtocolSide::Inbound
    }

    fn name() -> (r: String) {
        String::from_str("login")
    }

    fn side() -> (r: ProtocolSide) {
        ProtocolSide::Inbound
    }
}

impl PacketWrite for InLogin {
    open spec fn wire_wf(&self) -> bool {
        match self {
            InLogin::PacketLoginInStart(p) => p.wire_wf(),
            InLogin::PacketLoginInEncryptionResponse(p) => p.wire_wf(),
            InLogin::PacketLoginInPluginResponse(p) => p.wire_wf(),
        }
    }

    open spec fn wire_enc(&self) -> Seq<u8> {
        match self {
            InLogin::PacketLoginInStart(p) => p.wire_enc(),
            InLogin::PacketLoginInEncryptionResponse(p) => p.wire_enc(),
            InLogin::PacketLoginInPluginResponse(p) => p.wire_enc(),
        }
    }

    open spec fn wire_write_err(&self) -> WireError {
        match self {
            InLogin::PacketLoginInStart(p) => p.wire_write_err(),
            InLogin::PacketLoginInEncryptionResponse(p) => p.wire_write_err(),
            InLogin::PacketLoginInPluginResponse(p) => p.wire_write_err(),
        }
    }

    fn pack_write(&self, buffer: &mut Vec<u8>, target_version: u32) -> (r: Result<
        (),
        WireError,
    >) {
        match self {
            InLogin::PacketLoginInStart(p) => p.pack_write(buffer, target_version),
            InLogin::PacketLoginInEncryptionResponse(p) => p.pack_write(buffer, target_version),
            InLogin::PacketLoginInPluginResponse(p) => p.pack_write(buffer, target_version),
        }
    }
}

impl PacketRead for InLogin {
    open spec fn wire_parse(s: Seq<u8>) -> PRead<InLoginView> {
        match <VarInt as PacketRead>::wire_parse(s) {
            PRead::Fail(e) => PRead::Fail(e),
            PRead::Val(id, n0) => {
                if id.0 == 0x0 {
                    match <PacketLoginInStart as PacketRead>::wire_parse(s) {
                        PRead::Val(p, n) => PRead::Val(InLoginView::PacketLoginInStart(p), n),
                        PRead::Fail(e) => PRead::Fail(e),
                    }
                } else if id.0 == 0x1 {
                    match <PacketLoginInEncryptionResponse as PacketRead>::wire_parse(s) {
                        PRead::Val(p, n) => PRead::Val(InLoginView::PacketLoginInEncryptionResponse(p), n),
                        PRead::Fail(e) => PRead::Fail(e),
                    }
                } else if id.0 == 0x2 {
                    match <PacketLoginInPluginResponse as PacketRead>::wire_parse(s) {
                        PRead::Val(p, n) => PRead::Val(InLoginView::PacketLoginInPluginResponse(p), n),
                        PRead::Fail(e) => PRead::Fail(e),
                    }
                } else {
                    PRead::Fail(WireError::Protocol(ProtocolKind::UnknownPacketId))
                }
            },
        }
    }

    fn pack_read(data: &Vec<u8>, pos: &mut usize, target_version: u32) -> (r: Result<
        InLogin,
        WireError,
    >) {
        let p0: usize = *pos;
        let id = <VarInt as PacketRead>::pack_read(data, pos, target_version)?;
        *pos = p0;
        if id.0 == 0x0 {
            match <PacketLoginInStart as PacketRead>::pack_read(data, pos, target_version) {
                Ok(p) => Ok(InLogin::PacketLoginInStart(p)),
                Err(e) => Err(e),
            }
        } else if id.0 == 0x1 {
            match <PacketLoginInEncryptionResponse as PacketRead>::pack_read(data, pos, target_version) {
                Ok(p) => Ok(InLogin::PacketLoginInEncryptionResponse(p)),
                Err(e) => Err(e),
            }
        } else if id.0 == 0x2 {
            match <PacketLoginInPluginResponse as PacketRead>::pack_read(data, pos, target_version) {
                Ok(p) => Ok(InLogin::PacketLoginInPluginResponse(p)),
                Err(e) => Err(e),
            }
        } else {
            Err(WireError::Protocol(ProtocolKind::UnknownPacketId))
        }
    }

    #[verifier::rlimit(80)]
    proof fn lemma_enc_parse_exact(v: Self) {
        match v {
            InLogin::PacketLoginInStart(p) => {
                <PacketLoginInStart as PacketRead>::lemma_enc_parse_exact(p);
                let r1 = p.name.wire_enc() + p.key_expiration.wire_enc() + p.public_key.wire_enc() + p.signature.wire_enc();
                assert(p.wire_enc() =~= VarInt(0x0).wire_enc() + r1);
                <VarInt as PrefixRead>::lemma_enc_parse(VarInt(0x0), r1);
            },
            InLogin::PacketLoginInEncryptionResponse(p) => {
                <PacketLoginInEncryptionResponse as PacketRead>::lemma_enc_parse_exact(p);
                let r1 = p.shared_secret.wire_enc() + p.verify_token.wire_enc() + p.salt.wire_enc() + p.message_signature.wire_enc();
                assert(p.wire_enc() =~= VarInt(0x1).wire_enc() + r1);
                <VarInt as PrefixRead>::lemma_enc_parse(VarInt(0x1), r1);
            },
            InLogin::PacketLoginInPluginResponse(p) => {
                <PacketLoginInPluginResponse as PacketRead>::lemma_enc_parse_exact(p);
                let r1 = VarInt(p.message_id).wire_enc() + p.data.wire_enc();
                assert(p.wire_enc() =~= VarInt(0x2).wire_enc() + r1);
                <VarInt as PrefixRead>::lemma_enc_parse(VarInt(0x2), r1);
            },
        }
    }
}

} // verus!
