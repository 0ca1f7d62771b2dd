//! A minimal framer without compression or encryption: it frames outgoing
//! packets with a VarInt length prefix and extracts framed packets from an
//! accumulated byte stream.

use vstd::prelude::*;

use crate::error::{FramingKind, IoKind, WireError};
use crate::net_io::{copy_range, vlq_read, vlq_write, PacketRead, PacketWrite};
use crate::network::framing::{frame_next, frame_plain, FrameStep, MAX_FRAME_LEN};

verus! {

/// A plain packet framer: a staging buffer of received bytes.
#[derive(Debug, Clone)]
pub struct PacketProxy {
    staging: Vec<u8>,
}

impl PacketProxy {
    /// The bytes accumulated and not yet consumed.
    pub closed spec fn spec_staging(&self) -> Seq<u8> {
        self.staging@
    }

    /// An empty framer.
    pub fn new() -> (r: PacketProxy)
        ensures
            r.spec_staging() == Seq::<u8>::empty(),
    {
        PacketProxy { staging: Vec::new() }
    }

    /// Frame one packet into `buffer`: a VarInt length prefix, then the
    /// packet's encoding. Bytes already staged (by `accept`) are framed
    /// ahead of the packet; a proxy used only for writing stages none.
    pub fn encode<P: PacketWrite>(&mut self, buffer: &mut Vec<u8>, packet: &P) -> (r: Result<
        (),
        WireError,
    >)
        ensures
            final(self).spec_staging() == Seq::<u8>::empty(),
            r is Ok <==> packet.wire_wf() && old(self).spec_staging().len()
                + packet.wire_enc().len() <= MAX_FRAME_LEN,
            r is Ok ==> final(buffer)@ == old(buffer)@ + frame_plain(
                old(self).spec_staging() + packet.wire_enc(),
            ),
            r is Err ==> r == Err::<(), WireError>(
                if !packet.wire_wf() {
                    packet.wire_write_err()
                } else {
                    WireError::OverLimit
                },
            ) && final(buffer)@ == old(buffer)@,
    {
        match packet.pack_write(&mut self.staging, crate::LATEST_PROTOCOL_VERSION) {
            Ok(u) => {},
            Err(e) => {
                self.staging.clear();
                return Err(e);
            },
        }
        let len: usize = self.staging.len();
        if len > MAX_FRAME_LEN {
            self.staging.clear();
            return Err(WireError::OverLimit);
        }
        vlq_write(buffer, len as u128);
        buffer.extend_from_slice(self.staging.as_slice());
        self.staging.clear();
        proof {
            assert(buffer@ =~= old(buffer)@ + frame_plain(
                old(self).spec_staging() + packet.wire_enc(),
            ));
        }
        Ok(())
    }

    /// Append received bytes to the staging buffer.
    pub fn accept(&mut self, bytes: &[u8])
        ensures
            final(self).spec_staging() == old(self).spec_staging() + bytes@,
    {
        self.staging.extend_from_slice(bytes);
    }

    /// Try to extract one framed packet from the head of the staging buffer.
    /// Returns `None` while the buffer holds no complete frame.
    pub fn next<P: PacketRead>(&mut self) -> (r: Result<Option<P>, WireError>)
        ensures
            match frame_next::<P>(old(self).spec_staging()) {
                FrameStep::NeedMore => r matches Ok(o) && o is None && final(self).spec_staging()
                    == old(self).spec_staging(),
                FrameStep::Got(v, rest) => (r matches Ok(o) && o matches Some(p)
                    && p.deep_view() == v) && final(self).spec_staging() == rest,
                FrameStep::Bad(e) => r == Err::<Option<P>, WireError>(e)
                    && final(self).spec_staging() == old(self).spec_staging(),
            },
    {
        let slen: usize = self.staging.len();
        proof {
            assert(self.staging@.skip(0) =~= self.staging@);
        }
        match vlq_read(&self.staging, 0, 5) {
            Err(e) => {
                if matches!(e, WireError::Io(IoKind::UnexpectedEof)) {
                    Ok(None)
                } else {
                    Err(e)
                }
            },
            Ok((v, n)) => {
                let low: u32 = (v % 0x1_0000_0000) as u32;
                let len_i: i32 = #[verifier::truncate] (low as i32);
                if len_i < 0 {
                    return Err(WireError::Framing(FramingKind::NegativeLength));
                }
                let len: usize = len_i as usize;
                if slen - n < len {
                    return Ok(None);
                }
                let payload: Vec<u8> = copy_range(&self.staging, n, len);
                proof {
                    assert(payload@ =~= self.staging@.subrange(n as int, n + len));
                }
                let mut pos: usize = 0;
                proof {
                    assert(payload@.skip(0) =~= payload@);
                }
                match P::pack_read(&payload, &mut pos, crate::LATEST_PROTOCOL_VERSION) {
                    Err(e) => Err(e),
                    Ok(p) => {
                        if pos != len {
                            return Err(WireError::Framing(FramingKind::TrailingGarbage));
                        }
                        let remainder: Vec<u8> = copy_range(
                            &self.staging,
                            n + len,
                            slen - (n + len),
                        );
                        proof {
                            assert(remainder@ =~= self.staging@.skip(n + len));
                        }
                        self.staging = remainder;
                        Ok(Some(p))
                    },
                }
            },
        }
    }
}

} // verus!
