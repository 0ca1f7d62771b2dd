//! Frame-level specifications shared by the framers: the uncompressed
//! envelope, one step of frame extraction, and the streaming lemmas that
//! show frames come back exactly as they were framed, whatever the split.

use vstd::prelude::*;

use crate::error::{FramingKind, WireError};
use crate::net_io::{
    lemma_vlq_enc_len, lemma_vlq_parse_enc, pow128, vlq_as_i32, vlq_enc, vlq_parse, PacketRead,
    PacketWrite, PRead, VlqParse,
};

verus! {

/// The largest frame length the envelope's signed length prefix can carry.
pub const MAX_FRAME_LEN: usize = 0x7fff_ffff;

/// The uncompressed envelope: a VarInt length prefix, then the body.
pub open spec fn frame_plain(body: Seq<u8>) -> Seq<u8> {
    vlq_enc(body.len()) + body
}

/// One step of frame extraction from a staging buffer.
pub enum FrameStep<V> {
    /// The buffer holds no complete frame yet.
    NeedMore,
    /// A packet, and the staging bytes left after its frame.
    Got(V, Seq<u8>),
    /// The stream is unusable.
    Bad(WireError),
}

/// Extract one uncompressed frame from the head of `staging` and decode it.
pub open spec fn frame_next<P: PacketRead>(staging: Seq<u8>) -> FrameStep<P::V> {
    match vlq_parse(staging, 5) {
        VlqParse::Short => FrameStep::NeedMore,
        VlqParse::TooLong => FrameStep::Bad(WireError::Framing(FramingKind::VarIntTooLong)),
        VlqParse::Val(v, n) => {
            let len = vlq_as_i32(v);
            if len < 0 {
                FrameStep::Bad(WireError::Framing(FramingKind::NegativeLength))
            } else if staging.len() - n < len {
                FrameStep::NeedMore
            } else {
                let payload = staging.subrange(n as int, n + len);
                match P::wire_parse(payload) {
                    PRead::Val(p, m) => if m == len {
                        FrameStep::Got(p, staging.skip(n + len))
                    } else {
                        FrameStep::Bad(WireError::Framing(FramingKind::TrailingGarbage))
                    },
                    PRead::Fail(e) => FrameStep::Bad(e),
                }
            }
        },
    }
}

/// A strict prefix of a variable-length quantity's encoding parses as short.
pub proof fn lemma_vlq_prefix_short(v: nat, k: int, budget: nat)
    requires
        0 <= k < vlq_enc(v).len(),
        k <= budget,
    ensures
        vlq_parse(vlq_enc(v).subrange(0, k), budget) == VlqParse::Short,
    decreases v,
{
    if k > 0 {
        let t = vlq_enc(v).subrange(0, k);
        assert(v >= 128);
        assert(t[0] == (v % 128 + 128) as u8);
        assert(t.skip(1) =~= vlq_enc(v / 128).subrange(0, k - 1));
        lemma_vlq_prefix_short(v / 128, k - 1, (budget - 1) as nat);
    }
}

/// A whole frame followed by anything yields its packet and leaves the rest.
pub proof fn lemma_frame_next_enc<P: PacketRead>(p: P, rest: Seq<u8>)
    requires
        p.wire_wf(),
        p.wire_enc().len() <= MAX_FRAME_LEN,
    ensures
        frame_next::<P>(frame_plain(p.wire_enc()) + rest) == FrameStep::Got(p.deep_view(), rest),
{
    let body = p.wire_enc();
    let lb = body.len();
    assert(pow128(5nat) == 0x8_0000_0000) by {
        reveal_with_fuel(pow128, 6);
    };
    lemma_vlq_enc_len(lb, 5);
    let s = frame_plain(body) + rest;
    assert(s =~= vlq_enc(lb) + (body + rest));
    lemma_vlq_parse_enc(lb, body + rest, 5);
    let n = vlq_enc(lb).len() as int;
    assert(s.subrange(n, n + lb as int) =~= body);
    P::lemma_enc_parse_exact(p);
    assert(s.skip(n + lb as int) =~= rest);
}

/// A strict prefix of a frame yields no packet: the framer waits.
pub proof fn lemma_frame_next_prefix<P: PacketRead>(p: P, k: int)
    requires
        p.wire_wf(),
        p.wire_enc().len() <= MAX_FRAME_LEN,
        0 <= k < frame_plain(p.wire_enc()).len(),
    ensures
        frame_next::<P>(frame_plain(p.wire_enc()).subrange(0, k)) == FrameStep::<P::V>::NeedMore,
{
    let body = p.wire_enc();
    let lb = body.len();
    assert(pow128(5nat) == 0x8_0000_0000) by {
        reveal_with_fuel(pow128, 6);
    };
    lemma_vlq_enc_len(lb, 5);
    let pre = vlq_enc(lb);
    let t = frame_plain(body).subrange(0, k);
    if k < pre.len() {
        assert(t =~= pre.subrange(0, k));
        lemma_vlq_prefix_short(lb, k, 5);
    } else {
        assert(t =~= pre + body.subrange(0, k - pre.len()));
        lemma_vlq_parse_enc(lb, body.subrange(0, k - pre.len()), 5);
        assert(t.len() - pre.len() < lb);
    }
}

} // verus!

verus! {

/// Outer frame extraction alone: the length prefix and the framed payload,
/// before any look inside the payload.
pub enum OuterFrame {
    /// The buffer holds no complete frame yet.
    NeedMore,
    /// The framed payload, and the staging bytes after the frame.
    Frame(Seq<u8>, Seq<u8>),
    /// The stream is unusable.
    Bad(WireError),
}

/// Split one frame off the head of `staging`.
pub open spec fn outer_frame(staging: Seq<u8>) -> OuterFrame {
    match vlq_parse(staging, 5) {
        VlqParse::Short => OuterFrame::NeedMore,
        VlqParse::TooLong => OuterFrame::Bad(WireError::Framing(FramingKind::VarIntTooLong)),
        VlqParse::Val(v, n) => {
            let len = vlq_as_i32(v);
            if len < 0 {
                OuterFrame::Bad(WireError::Framing(FramingKind::NegativeLength))
            } else if staging.len() - n < len {
                OuterFrame::NeedMore
            } else {
                OuterFrame::Frame(staging.subrange(n as int, n + len), staging.skip(n + len))
            }
        },
    }
}

/// A whole frame followed by anything splits into its body and the rest.
pub proof fn lemma_outer_frame_enc(body: Seq<u8>, rest: Seq<u8>)
    requires
        body.len() <= MAX_FRAME_LEN,
    ensures
        outer_frame(frame_plain(body) + rest) == OuterFrame::Frame(body, rest),
{
    let lb = body.len();
    assert(pow128(5nat) == 0x8_0000_0000) by {
        reveal_with_fuel(pow128, 6);
    };
    lemma_vlq_enc_len(lb, 5);
    let s = frame_plain(body) + rest;
    assert(s =~= vlq_enc(lb) + (body + rest));
    lemma_vlq_parse_enc(lb, body + rest, 5);
    let n = vlq_enc(lb).len() as int;
    assert(s.subrange(n, n + lb as int) =~= body);
    assert(s.skip(n + lb as int) =~= rest);
}

/// A strict prefix of a frame is not yet a frame: the framer waits.
pub proof fn lemma_outer_frame_prefix(body: Seq<u8>, k: int)
    requires
        body.len() <= MAX_FRAME_LEN,
        0 <= k < frame_plain(body).len(),
    ensures
        outer_frame(frame_plain(body).subrange(0, k)) == OuterFrame::NeedMore,
{
    let lb = body.len();
    assert(pow128(5nat) == 0x8_0000_0000) by {
        reveal_with_fuel(pow128, 6);
    };
    lemma_vlq_enc_len(lb, 5);
    let pre = vlq_enc(lb);
    let t = frame_plain(body).subrange(0, k);
    if k < pre.len() {
        assert(t =~= pre.subrange(0, k));
        lemma_vlq_prefix_short(lb, k, 5);
    } else {
        assert(t =~= pre + body.subrange(0, k - pre.len()));
        lemma_vlq_parse_enc(lb, body.subrange(0, k - pre.len()), 5);
        assert(t.len() - pre.len() < lb);
    }
}

} // verus!

verus! {

/// The concatenated frames of a sequence of packets, in order.
pub open spec fn frames_enc<P: PacketWrite>(ps: Seq<P>) -> Seq<u8>
    decreases ps.len(),
{
    if ps.len() == 0 {
        Seq::empty()
    } else {
        frame_plain(ps[0].wire_enc()) + frames_enc(ps.skip(1))
    }
}

/// Framer streaming: a `digest` only appends, so however the wire stream
/// was split into chunks, the staging buffer holds the frames of `ps`
/// followed by the partial tail of a further frame. In that state each
/// read yields the next packet of `ps`, in order, leaving the remaining
/// frames; once only the partial tail is left, a read yields nothing.
pub proof fn lemma_framer_streaming<P: PacketRead>(ps: Seq<P>, tail: Seq<u8>)
    requires
        forall|i: int| 0 <= i < ps.len() ==> (#[trigger] ps[i]).wire_wf() && ps[i].wire_enc().len()
            <= MAX_FRAME_LEN,
        frame_next::<P>(tail) == FrameStep::<P::V>::NeedMore,
    ensures
        ps.len() == 0 ==> frame_next::<P>(frames_enc(ps) + tail) == FrameStep::<P::V>::NeedMore,
        ps.len() > 0 ==> frame_next::<P>(frames_enc(ps) + tail) == FrameStep::<P::V>::Got(
            ps[0].deep_view(),
            frames_enc(ps.skip(1)) + tail,
        ),
{
    if ps.len() == 0 {
        assert(frames_enc(ps) + tail =~= tail);
    } else {
        assert(frames_enc(ps) + tail =~= frame_plain(ps[0].wire_enc()) + (frames_enc(ps.skip(1))
            + tail));
        lemma_frame_next_enc(ps[0], frames_enc(ps.skip(1)) + tail);
    }
}

} // verus!

verus! {

/// The two views of framing agree: splitting the outer frame off and then
/// decoding its payload, as the connection decoder does, is exactly one
/// `frame_next` step, as the plain framer does.
pub proof fn lemma_frame_next_decomposed<P: PacketRead>(staging: Seq<u8>)
    ensures
        match outer_frame(staging) {
            OuterFrame::NeedMore => frame_next::<P>(staging) == FrameStep::<P::V>::NeedMore,
            OuterFrame::Bad(e) => frame_next::<P>(staging) == FrameStep::<P::V>::Bad(e),
            OuterFrame::Frame(payload, rest) => match P::wire_parse(payload) {
                PRead::Val(p, m) => if m == payload.len() {
                    frame_next::<P>(staging) == FrameStep::<P::V>::Got(p, rest)
                } else {
                    frame_next::<P>(staging) == FrameStep::<P::V>::Bad(
                        WireError::Framing(FramingKind::TrailingGarbage),
                    )
                },
                PRead::Fail(e) => frame_next::<P>(staging) == FrameStep::<P::V>::Bad(e),
            },
        },
{
}

} // verus!
