//! The connection framers: `PacketEncoder` serializes a packet and wraps it
//! in the length-prefixed envelope, compressing above the threshold and
//! encrypting when keyed; `PacketDecoder` runs the same layers in reverse
//! over an accumulated byte stream.

use vstd::prelude::*;

use crate::error::{FramingKind, IoKind, WireError};
use crate::net_io::{
    copy_range, vlq_as_i32, vlq_enc, vlq_read, vlq_write, vlq_parse, PacketRead, PacketWrite,
    PRead, VlqParse,
};
use crate::network::cipher::{
    cfb8_decrypt, cfb8_dec_register, cfb8_enc_register, cfb8_encrypt, StreamDecryptor,
    StreamEncryptor,
};
use crate::network::framing::{frame_plain, outer_frame, OuterFrame, MAX_FRAME_LEN};

verus! {

/// The zlib stream this crate's compressor produces for `data`. Named and
/// never spelled out: flate2 is the only code that computes it.
pub uninterp spec fn zlib_of(data: Seq<u8>) -> Seq<u8>;

/// Relies on flate2's `read::ZlibEncoder` over an in-memory slice at a
/// fixed level: the compressed stream is a function of the input bytes
/// alone, and reading it to the end cannot fail.
#[verifier::external_body]
fn zlib_compress(data: &Vec<u8>) -> (r: Vec<u8>)
    ensures
        r@ == zlib_of(data@),
{
    let mut enc = flate2::read::ZlibEncoder::new(data.as_slice(), flate2::Compression::new(6));
    let mut out: Vec<u8> = Vec::new();
    std::io::Read::read_to_end(&mut enc, &mut out).expect("an in-memory zlib stream always reads");
    out
}

/// Relies on flate2's `read::ZlibDecoder`: every stream the compressor
/// produced inflates back to the bytes it was made from; a stream that is
/// not zlib data is rejected or inflates to something else, about which
/// nothing is claimed.
#[verifier::external_body]
fn zlib_decompress(data: &Vec<u8>) -> (r: Option<Vec<u8>>)
    ensures
        (exists|p: Seq<u8>| data@ == zlib_of(p)) ==> r is Some,
        r matches Some(out) ==> forall|p: Seq<u8>| data@ == zlib_of(p) ==> out@ == p,
{
    let mut dec = flate2::read::ZlibDecoder::new(data.as_slice());
    let mut out: Vec<u8> = Vec::new();
    match std::io::Read::read_to_end(&mut dec, &mut out) {
        Ok(_) => Some(out),
        Err(_) => None,
    }
}

/// The envelope for a packet body: without compression, the plain frame;
/// with it, an outer length, an inner uncompressed-size marker, and the raw
/// or deflated body depending on the threshold.
pub open spec fn envelope(body: Seq<u8>, threshold: Option<usize>) -> Seq<u8> {
    match threshold {
        Option::None => frame_plain(body),
        Option::Some(t) => if body.len() < t {
            vlq_enc((vlq_enc(0).len() + body.len()) as nat) + vlq_enc(0) + body
        } else {
            vlq_enc((vlq_enc(body.len()).len() + zlib_of(body).len()) as nat) + vlq_enc(
                body.len(),
            ) + zlib_of(body)
        },
    }
}

/// Whether a body of this size can be framed under this threshold.
pub open spec fn consumable(body: Seq<u8>, threshold: Option<usize>) -> bool {
    match threshold {
        Option::None => body.len() <= MAX_FRAME_LEN,
        Option::Some(t) => if body.len() < t {
            vlq_enc(0).len() + body.len() <= MAX_FRAME_LEN
        } else {
            body.len() <= MAX_FRAME_LEN && vlq_enc(body.len()).len() + zlib_of(body).len()
                <= MAX_FRAME_LEN
        },
    }
}

/// The exact outcome of decoding a frame body `b` whose frame leaves `rest`
/// in the staging buffer: the packet when it parses and fills the frame,
/// the exact error otherwise.
pub open spec fn body_outcome<P: PacketRead>(
    b: Seq<u8>,
    rest: Seq<u8>,
    unchanged: Seq<u8>,
    r: Result<Option<P>, WireError>,
    staging_after: Seq<u8>,
) -> bool {
    match P::wire_parse(b) {
        PRead::Val(p, q) => if q == b.len() {
            (r matches Ok(o) && o matches Some(x) && x.deep_view() == p) && staging_after == rest
        } else {
            r == Err::<Option<P>, WireError>(WireError::Framing(FramingKind::TrailingGarbage))
                && staging_after == unchanged
        },
        PRead::Fail(e) => r == Err::<Option<P>, WireError>(e) && staging_after == unchanged,
    }
}

/// The outgoing framer: serialize, wrap, deflate above the threshold,
/// encrypt when keyed.
pub struct PacketEncoder {
    encryptor: Option<StreamEncryptor>,
    staging_buf: Vec<u8>,
    compression_threshold: Option<usize>,
}

impl PacketEncoder {
    /// The compression threshold, when compression is on.
    pub closed spec fn spec_threshold(&self) -> Option<usize> {
        self.compression_threshold
    }

    /// The cipher's key and shift register, when encryption is on.
    pub closed spec fn spec_cipher(&self) -> Option<(Seq<u8>, Seq<u8>)> {
        match self.encryptor {
            Option::None => Option::None,
            Option::Some(e) => Option::Some((e.spec_key(), e.spec_register())),
        }
    }

    /// A fresh encoder: no compression, no encryption.
    pub fn new() -> (r: PacketEncoder)
        ensures
            r.spec_threshold() is None,
            r.spec_cipher() is None,
    {
        PacketEncoder {
            encryptor: None,
            staging_buf: Vec::new(),
            compression_threshold: None,
        }
    }

    /// Turn on encryption: the shared secret is both key and IV, and every
    /// byte emitted from now on passes through the cipher.
    pub fn set_encryption(&mut self, key: [u8; 16])
        ensures
            final(self).spec_cipher() == Some((key@, key@)),
            final(self).spec_threshold() == old(self).spec_threshold(),
    {
        self.encryptor = Some(StreamEncryptor::new(&key));
    }

    /// Turn on compression above `threshold` for every following packet.
    pub fn set_compression(&mut self, threshold: usize)
        ensures
            final(self).spec_threshold() == Some(threshold),
            final(self).spec_cipher() == old(self).spec_cipher(),
    {
        self.compression_threshold = Some(threshold);
    }

    /// Serialize `packet`, wrap it in the envelope, encrypt it when keyed,
    /// and append the wire bytes to `out_buffer`.
    pub fn consume<P: PacketWrite>(&mut self, out_buffer: &mut Vec<u8>, packet: &P) -> (r:
        Result<(), WireError>)
        ensures
            final(self).spec_threshold() == old(self).spec_threshold(),
            r is Ok <==> packet.wire_wf() && consumable(
                packet.wire_enc(),
                old(self).spec_threshold(),
            ),
            r is Err ==> final(out_buffer)@ == old(out_buffer)@ && final(self).spec_cipher()
                == old(self).spec_cipher(),
            r is Err ==> r == Err::<(), WireError>(
                if !packet.wire_wf() {
                    packet.wire_write_err()
                } else {
                    WireError::OverLimit
                },
            ),
            r is Ok ==> match old(self).spec_cipher() {
                Option::None => final(out_buffer)@ == old(out_buffer)@ + envelope(
                    packet.wire_enc(),
                    old(self).spec_threshold(),
                ) && final(self).spec_cipher() is None,
                Option::Some(st) => final(out_buffer)@ == old(out_buffer)@ + cfb8_encrypt(
                    st.0,
                    st.1,
                    envelope(packet.wire_enc(), old(self).spec_threshold()),
                ) && final(self).spec_cipher() == Some(
                    (
                        st.0,
                        cfb8_enc_register(
                            st.0,
                            st.1,
                            envelope(packet.wire_enc(), old(self).spec_threshold()),
                        ),
                    ),
                ),
            },
    {
        self.staging_buf.clear();
        match packet.pack_write(&mut self.staging_buf, crate::LATEST_PROTOCOL_VERSION) {
            Ok(u) => {},
            Err(e) => {
                self.staging_buf.clear();
                return Err(e);
            },
        }
        let th_opt: Option<usize> = self.compression_threshold;
        let mut env: Vec<u8> = Vec::new();
        match th_opt {
            Option::None => {
                if self.staging_buf.len() > MAX_FRAME_LEN {
                    self.staging_buf.clear();
                    return Err(WireError::OverLimit);
                }
                vlq_write(&mut env, self.staging_buf.len() as u128);
                env.extend_from_slice(self.staging_buf.as_slice());
                proof {
                    assert(env@ =~= envelope(packet.wire_enc(), Option::None));
                }
            },
            Option::Some(th) => {
                if self.staging_buf.len() >= th {
                    if self.staging_buf.len() > MAX_FRAME_LEN {
                        self.staging_buf.clear();
                        return Err(WireError::OverLimit);
                    }
                    let z: Vec<u8> = zlib_compress(&self.staging_buf);
                    let mut inner: Vec<u8> = Vec::new();
                    vlq_write(&mut inner, self.staging_buf.len() as u128);
                    proof {
                        assert(crate::net_io::pow128(5nat) == 0x8_0000_0000) by {
                            reveal_with_fuel(crate::net_io::pow128, 6);
                        };
                        crate::net_io::lemma_vlq_enc_len(self.staging_buf@.len(), 5);
                    }
                    if z.len() > MAX_FRAME_LEN - inner.len() {
                        self.staging_buf.clear();
                        return Err(WireError::OverLimit);
                    }
                    let total: usize = inner.len() + z.len();
                    vlq_write(&mut env, total as u128);
                    env.extend_from_slice(inner.as_slice());
                    env.extend_from_slice(z.as_slice());
                    proof {
                        assert(env@ =~= envelope(packet.wire_enc(), Option::Some(th)));
                    }
                } else {
                    let mut inner: Vec<u8> = Vec::new();
                    vlq_write(&mut inner, 0);
                    proof {
                        assert(vlq_enc(0).len() == 1);
                    }
                    if self.staging_buf.len() > MAX_FRAME_LEN - inner.len() {
                        self.staging_buf.clear();
                        return Err(WireError::OverLimit);
                    }
                    let total: usize = inner.len() + self.staging_buf.len();
                    vlq_write(&mut env, total as u128);
                    env.extend_from_slice(inner.as_slice());
                    env.extend_from_slice(self.staging_buf.as_slice());
                    proof {
                        assert(env@ =~= envelope(packet.wire_enc(), Option::Some(th)));
                    }
                }
            },
        }
        match &mut self.encryptor {
            Option::None => {},
            Option::Some(enc) => {
                enc.encrypt_buffer(&mut env);
            },
        }
        out_buffer.extend_from_slice(env.as_slice());
        self.staging_buf.clear();
        Ok(())
    }
}

/// The inbound framer: decrypt when keyed, accumulate, and peel whole
/// frames off the head of the staging buffer.
pub struct PacketDecoder {
    decryptor: Option<StreamDecryptor>,
    staging_buf: Vec<u8>,
    compression_threshold: Option<usize>,
}

impl PacketDecoder {
    /// The plaintext bytes accumulated and not yet consumed.
    pub closed spec fn spec_staging(&self) -> Seq<u8> {
        self.staging_buf@
    }

    /// The compression threshold, when compression is on.
    pub closed spec fn spec_threshold(&self) -> Option<usize> {
        self.compression_threshold
    }

    /// The cipher's key and shift register, when encryption is on.
    pub closed spec fn spec_cipher(&self) -> Option<(Seq<u8>, Seq<u8>)> {
        match self.decryptor {
            Option::None => Option::None,
            Option::Some(d) => Option::Some((d.spec_key(), d.spec_register())),
        }
    }

    /// A fresh decoder: no compression, no encryption, empty staging.
    pub fn new() -> (r: PacketDecoder)
        ensures
            r.spec_threshold() is None,
            r.spec_cipher() is None,
            r.spec_staging() == Seq::<u8>::empty(),
    {
        PacketDecoder {
            decryptor: None,
            staging_buf: Vec::new(),
            compression_threshold: None,
        }
    }

    /// Turn on decryption: the shared secret is both key and IV, and every
    /// byte received from now on passes through the cipher.
    pub fn set_encryption(&mut self, key: [u8; 16])
        ensures
            final(self).spec_cipher() == Some((key@, key@)),
            final(self).spec_threshold() == old(self).spec_threshold(),
            final(self).spec_staging() == old(self).spec_staging(),
    {
        self.decryptor = Some(StreamDecryptor::new(&key));
    }

    /// Turn on the compressed envelope for every following frame.
    pub fn set_compression(&mut self, threshold: usize)
        ensures
            final(self).spec_threshold() == Some(threshold),
            final(self).spec_cipher() == old(self).spec_cipher(),
            final(self).spec_staging() == old(self).spec_staging(),
    {
        self.compression_threshold = Some(threshold);
    }

    /// Receive wire bytes: decrypt them when keyed and append the plaintext
    /// to the staging buffer.
    pub fn digest(&mut self, packet_bytes: &[u8])
        ensures
            final(self).spec_threshold() == old(self).spec_threshold(),
            match old(self).spec_cipher() {
                Option::None => final(self).spec_staging() == old(self).spec_staging()
                    + packet_bytes@ && final(self).spec_cipher() is None,
                Option::Some(st) => final(self).spec_staging() == old(self).spec_staging()
                    + cfb8_decrypt(st.0, st.1, packet_bytes@) && final(self).spec_cipher()
                    == Some((st.0, cfb8_dec_register(st.0, st.1, packet_bytes@))),
            },
    {
        match &mut self.decryptor {
            Option::None => {
                self.staging_buf.extend_from_slice(packet_bytes);
            },
            Option::Some(dec) => {
                dec.decrypt_into(packet_bytes, &mut self.staging_buf);
            },
        }
    }

    /// Try to extract and decode one packet from the head of the staging
    /// buffer. Returns `None` while no complete frame has arrived.
    pub fn read<P: PacketRead>(&mut self) -> (r: Result<Option<P>, WireError>)
        ensures
            final(self).spec_threshold() == old(self).spec_threshold(),
            final(self).spec_cipher() == old(self).spec_cipher(),
            match outer_frame(old(self).spec_staging()) {
                OuterFrame::NeedMore => r matches Ok(o) && o is None && final(self).spec_staging()
                    == old(self).spec_staging(),
                OuterFrame::Bad(e) => r == Err::<Option<P>, WireError>(e)
                    && final(self).spec_staging() == old(self).spec_staging(),
                OuterFrame::Frame(payload, rest) => match old(self).spec_threshold() {
                    Option::None => body_outcome::<P>(
                        payload,
                        rest,
                        old(self).spec_staging(),
                        r,
                        final(self).spec_staging(),
                    ),
                    Option::Some(t) => match vlq_parse(payload, 5) {
                        VlqParse::Short => r == Err::<Option<P>, WireError>(
                            WireError::Io(IoKind::UnexpectedEof),
                        ) && final(self).spec_staging() == old(self).spec_staging(),
                        VlqParse::TooLong => r == Err::<Option<P>, WireError>(
                            WireError::Framing(FramingKind::VarIntTooLong),
                        ) && final(self).spec_staging() == old(self).spec_staging(),
                        VlqParse::Val(dv, m) => if vlq_as_i32(dv) <= 0 {
                            body_outcome::<P>(
                                payload.skip(m as int),
                                rest,
                                old(self).spec_staging(),
                                r,
                                final(self).spec_staging(),
                            )
                        } else {
                            (forall|b: Seq<u8>|
                                payload.skip(m as int) == zlib_of(b) ==> (if b.len() != vlq_as_i32(
                                    dv,
                                ) {
                                    r == Err::<Option<P>, WireError>(
                                        WireError::Framing(FramingKind::DecompressionSizeMismatch),
                                    ) && final(self).spec_staging() == old(self).spec_staging()
                                } else {
                                    body_outcome::<P>(
                                        b,
                                        rest,
                                        old(self).spec_staging(),
                                        r,
                                        final(self).spec_staging(),
                                    )
                                })) && (r matches Ok(o) ==> o is Some
                                && final(self).spec_staging() == rest) && (r is Err
                                ==> final(self).spec_staging() == old(self).spec_staging())
                        },
                    },
                },
            },
    {
        let slen: usize = self.staging_buf.len();
        proof {
            assert(self.staging_buf@.skip(0) =~= self.staging_buf@);
        }
        match vlq_read(&self.staging_buf, 0, 5) {
            Err(e) => {
                if matches!(e, WireError::Io(IoKind::UnexpectedEof)) {
                    Ok(None)
                } else {
                    Err(e)
                }
            },
            Ok((v, n)) => {
                let low: u32 = (v % 0x1_0000_0000) as u32;
                let len_i: i32 = #[verifier::truncate] (low as i32);
                if len_i < 0 {
                    return Err(WireError::Framing(FramingKind::NegativeLength));
                }
                let len: usize = len_i as usize;
                if slen - n < len {
                    return Ok(None);
                }
                let payload: Vec<u8> = copy_range(&self.staging_buf, n, len);
                proof {
                    assert(payload@ =~= self.staging_buf@.subrange(n as int, n + len));
                }
                let body: Vec<u8>;
                if self.compression_threshold.is_some() {
                    proof {
                        assert(payload@.skip(0) =~= payload@);
                    }
                    let (dv, m) = match vlq_read(&payload, 0, 5) {
                        Ok(p) => p,
                        Err(e) => {
                            return Err(e);
                        },
                    };
                    let dlow: u32 = (dv % 0x1_0000_0000) as u32;
                    let dlen_i: i32 = #[verifier::truncate] (dlow as i32);
                    if dlen_i > 0 {
                        let comp: Vec<u8> = copy_range(&payload, m, payload.len() - m);
                        proof {
                            assert(comp@ =~= payload@.skip(m as int));
                        }
                        match zlib_decompress(&comp) {
                            Option::None => {
                                return Err(WireError::Framing(FramingKind::BadZlibData));
                            },
                            Option::Some(out) => {
                                if out.len() != dlen_i as usize {
                                    return Err(
                                        WireError::Framing(FramingKind::DecompressionSizeMismatch),
                                    );
                                }
                                body = out;
                            },
                        }
                    } else {
                        body = copy_range(&payload, m, payload.len() - m);
                        proof {
                            assert(body@ =~= payload@.skip(m as int));
                        }
                    }
                } else {
                    body = payload;
                }
                let mut pos: usize = 0;
                proof {
                    assert(body@.skip(0) =~= body@);
                }
                match P::pack_read(&body, &mut pos, crate::LATEST_PROTOCOL_VERSION) {
                    Err(e) => Err(e),
                    Ok(p) => {
                        if pos != body.len() {
                            return Err(WireError::Framing(FramingKind::TrailingGarbage));
                        }
                        let remainder: Vec<u8> = copy_range(
                            &self.staging_buf,
                            n + len,
                            slen - (n + len),
                        );
                        proof {
                            assert(remainder@ =~= self.staging_buf@.skip(n + len));
                        }
                        self.staging_buf = remainder;
                        Ok(Some(p))
                    },
                }
            },
        }
    }
}

} // verus!

verus! {

/// Compression transparency: with the threshold set, the compressed
/// envelope of a well-formed packet splits back into an inner size marker
/// and a body that decodes to the packet itself, on either side of the
/// threshold. Together with `read`'s contract this pins the decoder's
/// result on such a stream to exactly the framed packet.
pub proof fn lemma_compression_transparency<P: PacketRead>(p: P, t: usize, rest: Seq<u8>)
    requires
        p.wire_wf(),
        consumable(p.wire_enc(), Some(t)),
    ensures
        ({
            let body = p.wire_enc();
            let staging = envelope(body, Some(t)) + rest;
            &&& (if body.len() < t {
                outer_frame(staging) == OuterFrame::Frame(vlq_enc(0) + body, rest) && vlq_parse(
                    vlq_enc(0) + body,
                    5,
                ) == VlqParse::Val(0nat, 1nat) && (vlq_enc(0) + body).skip(1) == body
            } else {
                outer_frame(staging) == OuterFrame::Frame(
                    vlq_enc(body.len()) + zlib_of(body),
                    rest,
                ) && vlq_parse(vlq_enc(body.len()) + zlib_of(body), 5) == VlqParse::Val(
                    body.len(),
                    vlq_enc(body.len()).len() as nat,
                ) && vlq_as_i32(body.len()) == body.len() && (vlq_enc(body.len()) + zlib_of(
                    body,
                )).skip(vlq_enc(body.len()).len() as int) == zlib_of(body)
            })
            &&& P::wire_parse(p.wire_enc()) == PRead::<P::V>::Val(
                p.deep_view(),
                p.wire_enc().len() as int,
            )
        }),
{
    let body = p.wire_enc();
    P::lemma_enc_parse_exact(p);
    if body.len() < t {
        let x = vlq_enc(0) + body;
        assert(envelope(body, Some(t)) =~= frame_plain(x));
        crate::network::framing::lemma_outer_frame_enc(x, rest);
        crate::net_io::lemma_vlq_parse_enc(0, body, 5);
        assert(vlq_enc(0).len() == 1);
        assert(x.skip(1) =~= body);
    } else {
        let zl = zlib_of(body);
        let x = vlq_enc(body.len()) + zl;
        assert(crate::net_io::pow128(5nat) == 0x8_0000_0000) by {
            reveal_with_fuel(crate::net_io::pow128, 6);
        };
        crate::net_io::lemma_vlq_enc_len(body.len(), 5);
        assert(envelope(body, Some(t)) =~= frame_plain(x));
        crate::network::framing::lemma_outer_frame_enc(x, rest);
        crate::net_io::lemma_vlq_parse_enc(body.len(), zl, 5);
        assert(x.skip(vlq_enc(body.len()).len() as int) =~= zl);
    }
}

} // verus!
