//! Wire primitives: the `PacketWrite` / `PacketRead` traits and their
//! implementations for the protocol's base types (variable-length integers,
//! fixed-width integers, booleans, strings, options, arrays).
//!
//! Every readable type carries a specification-level parser over byte
//! sequences; `pack_read` is proved to agree with it exactly, and every
//! writable type is proved to emit exactly its specification encoding.

use vstd::prelude::*;

use crate::error::{FramingKind, IoKind, MalformedKind, WireError};

verus! {

/// Outcome of a specification-level parse: a value (as its deep view) plus
/// the number of bytes consumed, or the exact error the decoder reports.
pub enum PRead<V> {
    Val(V, int),
    Fail(WireError),
}

/// A type that can be written to the wire.
pub trait PacketWrite: Sized {
    /// Whether this value fits the wire format's caps, so that writing succeeds.
    spec fn wire_wf(&self) -> bool;

    /// The exact bytes this value serializes to (meaningful when `wire_wf`).
    spec fn wire_enc(&self) -> Seq<u8>;

    /// The error a write of this value reports when it is not well-formed.
    /// A cap violation is `OverLimit`; composites report their first
    /// ill-formed part's error. Values that always fit never return it.
    open spec fn wire_write_err(&self) -> WireError {
        WireError::OverLimit
    }

    /// Append this value's encoding to `buffer`; an ill-formed value
    /// reports its error and leaves `buffer` untouched.
    fn pack_write(&self, buffer: &mut Vec<u8>, target_version: u32) -> (r: Result<
        (),
        WireError,
    >)
        ensures
            r is Ok <==> self.wire_wf(),
            self.wire_wf() ==> final(buffer)@ == old(buffer)@ + self.wire_enc(),
            !self.wire_wf() ==> r == Err::<(), WireError>(self.wire_write_err())
                && final(buffer)@ == old(buffer)@,
    ;
}

/// A type that can be read back from the wire.
pub trait PacketRead: PacketWrite + DeepView {
    /// The specification-level parser: what a decode from the head of `s`
    /// yields, as a deep view, and how many bytes it consumes.
    spec fn wire_parse(s: Seq<u8>) -> PRead<Self::V>;

    /// Decode one value from `data` at `*pos`, advancing `*pos` past it.
    fn pack_read(data: &Vec<u8>, pos: &mut usize, target_version: u32) -> (r: Result<
        Self,
        WireError,
    >)
        requires
            *old(pos) <= data@.len(),
        ensures
            match Self::wire_parse(data@.skip(*old(pos) as int)) {
                PRead::Val(v, n) => r matches Ok(x) && x.deep_view() == v && n >= 0
                    && *final(pos) == *old(pos) + n && *final(pos) <= data@.len(),
                PRead::Fail(e) => r == Err::<Self, WireError>(e),
            },
    ;

    /// Round trip on an exact buffer: parsing an encoding alone yields the
    /// encoded value and consumes the whole buffer.
    proof fn lemma_enc_parse_exact(v: Self)
        requires
            v.wire_wf(),
        ensures
            Self::wire_parse(v.wire_enc()) == PRead::Val(
                v.deep_view(),
                v.wire_enc().len() as int,
            ),
    ;
}

/// A readable type whose parser stops exactly at its encoding's boundary
/// even when further bytes follow. Every non-greedy type is one; only
/// trailing raw byte arrays (and packets ending in them) are not. Values of
/// these types may stand before other fields or array elements.
pub trait PrefixRead: PacketRead {
    /// Round trip: parsing an encoding followed by anything else yields the
    /// encoded value and consumes exactly the encoding.
    proof fn lemma_enc_parse(v: Self, rest: Seq<u8>)
        requires
            v.wire_wf(),
        ensures
            Self::wire_parse(v.wire_enc() + rest) == PRead::Val(
                v.deep_view(),
                v.wire_enc().len() as int,
            ),
    ;
}

// ---------------------------------------------------------------------------
// LEB128-style variable-length quantities (shared by VarInt and VarLong).
// ---------------------------------------------------------------------------

/// Outcome of parsing a variable-length quantity.
pub enum VlqParse {
    /// Value and number of bytes consumed.
    Val(nat, nat),
    /// The buffer ended before the quantity did.
    Short,
    /// The continuation bits ran past the allowed width.
    TooLong,
}

/// Encoding of `v` as 7-bit groups, least significant first, with the high
/// bit marking continuation.
pub open spec fn vlq_enc(v: nat) -> Seq<u8>
    decreases v,
{
    if v < 128 {
        seq![v as u8]
    } else {
        seq![(v % 128 + 128) as u8] + vlq_enc(v / 128)
    }
}

/// Parse a variable-length quantity from the head of `s`, allowing at most
/// `budget` bytes. A continuation chain that fills the whole budget fails
/// only once a further byte is present, matching a streaming decoder that
/// must read a byte before it can reject it.
pub open spec fn vlq_parse(s: Seq<u8>, budget: nat) -> VlqParse
    decreases budget,
{
    if s.len() == 0 {
        VlqParse::Short
    } else if budget == 0 {
        VlqParse::TooLong
    } else if s[0] < 128 {
        VlqParse::Val(s[0] as nat, 1)
    } else {
        match vlq_parse(s.skip(1), (budget - 1) as nat) {
            VlqParse::Val(v, n) => VlqParse::Val((s[0] - 128) as nat + 128 * v, n + 1),
            o => o,
        }
    }
}

/// 128 raised to `k`; bounds the range of a `k`-byte quantity.
pub open spec fn pow128(k: nat) -> nat
    decreases k,
{
    if k == 0 {
        1
    } else {
        128 * pow128((k - 1) as nat)
    }
}

/// An encoding is never longer than the byte budget that covers its value.
pub proof fn lemma_vlq_enc_len(v: nat, k: nat)
    requires
        k >= 1,
        v < pow128(k),
    ensures
        1 <= vlq_enc(v).len() <= k,
    decreases k,
{
    if v >= 128 {
        assert(v / 128 < pow128((k - 1) as nat)) by {
            assert(pow128(k) == 128 * pow128((k - 1) as nat));
        };
        assert(k >= 2) by {
            if k == 1 {
                assert(pow128(1nat) == 128);
            }
        };
        lemma_vlq_enc_len(v / 128, (k - 1) as nat);
    }
}

/// Parsing the encoding of `v`, followed by anything, yields `v` and
/// consumes exactly the encoding.
pub proof fn lemma_vlq_parse_enc(v: nat, rest: Seq<u8>, budget: nat)
    requires
        vlq_enc(v).len() <= budget,
    ensures
        vlq_parse(vlq_enc(v) + rest, budget) == VlqParse::Val(v, vlq_enc(v).len() as nat),
    decreases v,
{
    let s = vlq_enc(v) + rest;
    if v < 128 {
        assert(s[0] == v as u8);
    } else {
        let b: u8 = (v % 128 + 128) as u8;
        assert(s[0] == b);
        assert(b >= 128);
        assert(s.skip(1) =~= vlq_enc(v / 128) + rest);
        lemma_vlq_parse_enc(v / 128, rest, (budget - 1) as nat);
        assert((b - 128) as nat + 128 * (v / 128) == v);
    }
}

/// `pow128` is at least one.
pub proof fn lemma_pow128_pos(k: nat)
    ensures
        pow128(k) >= 1,
    decreases k,
{
    if k > 0 {
        lemma_pow128_pos((k - 1) as nat);
    }
}

/// A successful parse within `budget` bytes is bounded by `pow128(budget)`
/// and consumed at least one and at most `budget` bytes.
pub proof fn lemma_vlq_parse_bound(s: Seq<u8>, budget: nat)
    ensures
        vlq_parse(s, budget) matches VlqParse::Val(v, n) ==> v < pow128(budget) && 1 <= n
            <= budget && n <= s.len(),
    decreases budget,
{
    if s.len() > 0 && budget > 0 {
        lemma_pow128_pos((budget - 1) as nat);
        assert(pow128(budget) == 128 * pow128((budget - 1) as nat));
        assert(pow128(budget) >= 128) by (nonlinear_arith)
            requires
                pow128(budget) == 128 * pow128((budget - 1) as nat),
                pow128((budget - 1) as nat) >= 1,
        ;
        if s[0] >= 128 {
            lemma_vlq_parse_bound(s.skip(1), (budget - 1) as nat);
            if let VlqParse::Val(v, n) = vlq_parse(s.skip(1), (budget - 1) as nat) {
                assert((s[0] - 128) as nat + 128 * v < 128 + 128 * v);
                assert(128 + 128 * v <= 128 * (v + 1));
                assert(v + 1 <= pow128((budget - 1) as nat));
                assert(128 * (v + 1) <= 128 * pow128((budget - 1) as nat)) by (nonlinear_arith)
                    requires
                        v + 1 <= pow128((budget - 1) as nat),
                ;
            }
        }
    }
}

/// Write a variable-length quantity.
pub fn vlq_write(buffer: &mut Vec<u8>, v: u128)
    ensures
        final(buffer)@ == old(buffer)@ + vlq_enc(v as nat),
    decreases v,
{
    if v < 128 {
        buffer.push(v as u8);
        assert(buffer@ =~= old(buffer)@ + vlq_enc(v as nat));
    } else {
        let b: u8 = (v % 128 + 128) as u8;
        buffer.push(b);
        vlq_write(buffer, v / 128);
        assert(buffer@ =~= old(buffer)@ + vlq_enc(v as nat));
    }
}

/// Read a variable-length quantity of at most `budget` bytes from `data`
/// starting at `pos`; returns the value and the position after it.
pub fn vlq_read(data: &Vec<u8>, pos: usize, budget: u32) -> (r: Result<(u128, usize), WireError>)
    requires
        pos <= data@.len(),
        budget <= 10,
    ensures
        match vlq_parse(data@.skip(pos as int), budget as nat) {
            VlqParse::Val(v, n) => r matches Ok(p) && p.0 == v && p.1 == pos + n && p.1
                <= data@.len(),
            VlqParse::Short => r == Err::<(u128, usize), WireError>(
                WireError::Io(IoKind::UnexpectedEof),
            ),
            VlqParse::TooLong => r == Err::<(u128, usize), WireError>(
                WireError::Framing(FramingKind::VarIntTooLong),
            ),
        },
    decreases budget,
{
    proof {
        lemma_vlq_parse_bound(data@.skip(pos as int), budget as nat);
    }
    if pos == data.len() {
        return Err(WireError::Io(IoKind::UnexpectedEof));
    }
    if budget == 0 {
        return Err(WireError::Framing(FramingKind::VarIntTooLong));
    }
    let b = data[pos];
    if b < 128 {
        Ok((b as u128, pos + 1))
    } else {
        proof {
            assert(data@.skip(pos as int).skip(1) =~= data@.skip(pos as int + 1));
        }
        match vlq_read(data, pos + 1, budget - 1) {
            Ok((v, after)) => {
                proof {
                    lemma_vlq_parse_bound(data@.skip(pos as int + 1), (budget - 1) as nat);
                    assert(pow128((budget - 1) as nat) <= pow128(9nat)) by {
                        lemma_pow128_increases((budget - 1) as nat, 9nat);
                    };
                    assert(pow128(9nat) == 0x8000_0000_0000_0000) by {
                        reveal_with_fuel(pow128, 11);
                    };
                }
                let val: u128 = (b - 128) as u128 + 128 * v;
                Ok((val, after))
            },
            Err(e) => Err(e),
        }
    }
}

/// `pow128` grows with its exponent.
proof fn lemma_pow128_increases(a: nat, b: nat)
    requires
        a <= b,
    ensures
        pow128(a) <= pow128(b),
    decreases b,
{
    if a < b {
        lemma_pow128_increases(a, (b - 1) as nat);
        assert(pow128(b) == 128 * pow128((b - 1) as nat));
        assert(pow128((b - 1) as nat) <= 128 * pow128((b - 1) as nat)) by (nonlinear_arith)
            requires
                pow128((b - 1) as nat) >= 0,
        ;
    }
}

} // verus!

verus! {

// ---------------------------------------------------------------------------
// Big-endian fixed-width integers.
// ---------------------------------------------------------------------------

/// 256 raised to `k`; bounds the range of a `k`-byte fixed-width integer.
pub open spec fn pow256(k: nat) -> nat
    decreases k,
{
    if k == 0 {
        1
    } else {
        256 * pow256((k - 1) as nat)
    }
}

/// Big-endian encoding of `v mod 256^w` in exactly `w` bytes.
pub open spec fn be_enc(v: nat, w: nat) -> Seq<u8>
    decreases w,
{
    if w == 0 {
        Seq::empty()
    } else {
        be_enc(v / 256, (w - 1) as nat).push((v % 256) as u8)
    }
}

/// The value of a big-endian byte sequence.
pub open spec fn be_val(s: Seq<u8>) -> nat
    decreases s.len(),
{
    if s.len() == 0 {
        0
    } else {
        be_val(s.drop_last()) * 256 + s.last() as nat
    }
}

/// A `w`-byte big-endian encoding has length `w`.
pub proof fn lemma_be_enc_len(v: nat, w: nat)
    ensures
        be_enc(v, w).len() == w,
    decreases w,
{
    if w > 0 {
        lemma_be_enc_len(v / 256, (w - 1) as nat);
    }
}

/// Decoding inverts encoding for values in range.
pub proof fn lemma_be_val_enc(v: nat, w: nat)
    requires
        v < pow256(w),
    ensures
        be_val(be_enc(v, w)) == v,
    decreases w,
{
    if w > 0 {
        lemma_be_enc_len(v / 256, (w - 1) as nat);
        assert(be_enc(v, w).drop_last() =~= be_enc(v / 256, (w - 1) as nat));
        assert(v / 256 < pow256((w - 1) as nat)) by (nonlinear_arith)
            requires
                v < pow256(w),
                pow256(w) == 256 * pow256((w - 1) as nat),
        ;
        lemma_be_val_enc(v / 256, (w - 1) as nat);
    }
}

/// A decoded value is bounded by the width of its bytes.
pub proof fn lemma_be_val_bound(s: Seq<u8>)
    ensures
        be_val(s) < pow256(s.len() as nat),
    decreases s.len(),
{
    if s.len() > 0 {
        lemma_be_val_bound(s.drop_last());
        assert(be_val(s.drop_last()) * 256 + s.last() < 256 * pow256((s.len() - 1) as nat))
            by (nonlinear_arith)
            requires
                be_val(s.drop_last()) < pow256((s.len() - 1) as nat),
                s.last() < 256,
        ;
    }
}

/// Append the `w`-byte big-endian encoding of `v`.
fn be_write(buffer: &mut Vec<u8>, v: u128, w: usize)
    requires
        w <= 16,
    ensures
        final(buffer)@ == old(buffer)@ + be_enc(v as nat, w as nat),
    decreases w,
{
    if w == 0 {
        assert(buffer@ =~= old(buffer)@ + be_enc(v as nat, 0));
    } else {
        be_write(buffer, v / 256, w - 1);
        buffer.push((v % 256) as u8);
        assert(buffer@ =~= old(buffer)@ + be_enc(v as nat, w as nat));
    }
}

/// Read `w` big-endian bytes from `data` at `pos` as a value.
fn be_read(data: &Vec<u8>, pos: usize, w: usize) -> (r: Result<(u128, usize), WireError>)
    requires
        pos <= data@.len(),
        w <= 16,
    ensures
        data@.len() - pos < w ==> r == Err::<(u128, usize), WireError>(
            WireError::Io(IoKind::UnexpectedEof),
        ),
        data@.len() - pos >= w ==> (r matches Ok(p) && p.0 == be_val(
            data@.subrange(pos as int, pos + w),
        ) && p.1 == pos + w),
{
    if data.len() - pos < w {
        return Err(WireError::Io(IoKind::UnexpectedEof));
    }
    let mut acc: u128 = 0;
    let mut i: usize = 0;
    proof {
        lemma_pow256_le_max(0);
        assert(data@.subrange(pos as int, pos as int) =~= Seq::<u8>::empty());
    }
    while i < w
        invariant
            i <= w,
            w <= 16,
            pos + w <= data@.len(),
            data@.len() <= usize::MAX,
            acc == be_val(data@.subrange(pos as int, pos + i)),
            acc < pow256(i as nat),
        decreases w - i,
    {
        proof {
            lemma_pow256_le_max(i as nat + 1);
            assert(pow256(i as nat + 1) == 256 * pow256(i as nat));
            assert(acc * 256 + 256 <= 256 * pow256(i as nat)) by (nonlinear_arith)
                requires
                    acc < pow256(i as nat),
            ;
            assert(data@.subrange(pos as int, pos + i + 1).drop_last() =~= data@.subrange(
                pos as int,
                pos + i,
            ));
        }
        let b: u8 = data[pos + i];
        acc = acc * 256 + b as u128;
        i = i + 1;
    }
    Ok((acc, pos + w))
}

/// For widths up to sixteen bytes the value range fits in 128 bits.
proof fn lemma_pow256_le_max(k: nat)
    requires
        k <= 16,
    ensures
        pow256(k) <= 0x1_0000_0000_0000_0000_0000_0000_0000_0000,
    decreases 16nat - k,
{
    if k < 16 {
        lemma_pow256_le_max(k + 1);
        lemma_pow128_pos(0);
        assert(pow256(k + 1) == 256 * pow256(k));
        assert(pow256(k) <= 256 * pow256(k)) by (nonlinear_arith)
            requires
                pow256(k) >= 0,
        ;
    } else {
        assert(pow256(16nat) == 0x1_0000_0000_0000_0000_0000_0000_0000_0000) by {
            reveal_with_fuel(pow256, 17);
        };
    }
}

// ---------------------------------------------------------------------------
// VarInt and VarLong.
// ---------------------------------------------------------------------------

/// A signed 32-bit integer carried as a 1-to-5-byte variable-length quantity.
#[derive(Debug, Copy, Clone, Ord, PartialOrd, Eq, PartialEq, Structural)]
pub struct VarInt(pub i32);

/// A signed 64-bit integer carried as a 1-to-10-byte variable-length quantity.
#[derive(Debug, Copy, Clone, Ord, PartialOrd, Eq, PartialEq, Structural)]
pub struct VarLong(pub i64);

impl DeepView for VarInt {
    type V = VarInt;

    open spec fn deep_view(&self) -> VarInt {
        *self
    }
}

impl DeepView for VarLong {
    type V = VarLong;

    open spec fn deep_view(&self) -> VarLong {
        *self
    }
}

impl PacketWrite for VarInt {
    open spec fn wire_wf(&self) -> bool {
        true
    }

    open spec fn wire_enc(&self) -> Seq<u8> {
        vlq_enc((self.0 as u32) as nat)
    }

    fn pack_write(&self, buffer: &mut Vec<u8>, target_version: u32) -> (r: Result<
        (),
        WireError,
    >) {
        vlq_write(buffer, self.0 as u32 as u128);
        Ok(())
    }
}

impl PacketRead for VarInt {
    open spec fn wire_parse(s: Seq<u8>) -> PRead<VarInt> {
        match vlq_parse(s, 5) {
            VlqParse::Val(v, n) => PRead::Val(
                VarInt(((v % 0x1_0000_0000) as u32) as i32),
                n as int,
            ),
            VlqParse::Short => PRead::Fail(WireError::Io(IoKind::UnexpectedEof)),
            VlqParse::TooLong => PRead::Fail(WireError::Framing(FramingKind::VarIntTooLong)),
        }
    }

    fn pack_read(data: &Vec<u8>, pos: &mut usize, target_version: u32) -> (r: Result<
        VarInt,
        WireError,
    >) {
        match vlq_read(data, *pos, 5) {
            Ok((v, after)) => {
                *pos = after;
                let low: u32 = (v % 0x1_0000_0000) as u32;
                Ok(VarInt(#[verifier::truncate] (low as i32)))
            },
            Err(e) => Err(e),
        }
    }

    proof fn lemma_enc_parse_exact(v: Self) {
        Self::lemma_enc_parse(v, Seq::empty());
        assert(v.wire_enc() + Seq::<u8>::empty() =~= v.wire_enc());
    }
}

impl PrefixRead for VarInt {
    proof fn lemma_enc_parse(v: Self, rest: Seq<u8>) {
        let u = (v.0 as u32) as nat;
        assert(pow128(5nat) == 0x8_0000_0000) by {
            reveal_with_fuel(pow128, 6);
        };
        lemma_vlq_enc_len(u, 5);
        lemma_vlq_parse_enc(u, rest, 5);
        let x: i32 = v.0;
        assert(((x as u32) as i32) == x) by (bit_vector);
    }
}

impl PacketWrite for VarLong {
    open spec fn wire_wf(&self) -> bool {
        true
    }

    open spec fn wire_enc(&self) -> Seq<u8> {
        vlq_enc((self.0 as u64) as nat)
    }

    fn pack_write(&self, buffer: &mut Vec<u8>, target_version: u32) -> (r: Result<
        (),
        WireError,
    >) {
        vlq_write(buffer, self.0 as u64 as u128);
        Ok(())
    }
}

impl PacketRead for VarLong {
    open spec fn wire_parse(s: Seq<u8>) -> PRead<VarLong> {
        match vlq_parse(s, 10) {
            VlqParse::Val(v, n) => PRead::Val(
                VarLong(((v % 0x1_0000_0000_0000_0000) as u64) as i64),
                n as int,
            ),
            VlqParse::Short => PRead::Fail(WireError::Io(IoKind::UnexpectedEof)),
            VlqParse::TooLong => PRead::Fail(WireError::Framing(FramingKind::VarIntTooLong)),
        }
    }

    fn pack_read(data: &Vec<u8>, pos: &mut usize, target_version: u32) -> (r: Result<
        VarLong,
        WireError,
    >) {
        match vlq_read(data, *pos, 10) {
            Ok((v, after)) => {
                *pos = after;
                let low: u64 = (v % 0x1_0000_0000_0000_0000) as u64;
                Ok(VarLong(#[verifier::truncate] (low as i64)))
            },
            Err(e) => Err(e),
        }
    }

    proof fn lemma_enc_parse_exact(v: Self) {
        Self::lemma_enc_parse(v, Seq::empty());
        assert(v.wire_enc() + Seq::<u8>::empty() =~= v.wire_enc());
    }
}

impl PrefixRead for VarLong {
    proof fn lemma_enc_parse(v: Self, rest: Seq<u8>) {
        let u = (v.0 as u64) as nat;
        assert(pow128(10nat) == 0x40_0000_0000_0000_0000) by {
            reveal_with_fuel(pow128, 11);
        };
        lemma_vlq_enc_len(u, 10);
        lemma_vlq_parse_enc(u, rest, 10);
        let x: i64 = v.0;
        assert(((x as u64) as i64) == x) by (bit_vector);
    }
}

} // verus!

verus! {

/// Concrete ranges for the fixed widths the protocol uses.
pub proof fn lemma_pow256_vals()
    ensures
        pow256(1nat) == 0x100,
        pow256(2nat) == 0x1_0000,
        pow256(4nat) == 0x1_0000_0000,
        pow256(8nat) == 0x1_0000_0000_0000_0000,
        pow256(16nat) == 0x1_0000_0000_0000_0000_0000_0000_0000_0000,
{
    reveal_with_fuel(pow256, 17);
}

impl PacketWrite for u8 {
    open spec fn wire_wf(&self) -> bool {
        true
    }

    open spec fn wire_enc(&self) -> Seq<u8> {
        be_enc(*self as nat, 1)
    }

    fn pack_write(&self, buffer: &mut Vec<u8>, target_version: u32) -> (r: Result<
        (),
        WireError,
    >) {
        be_write(buffer, *self as u128, 1);
        Ok(())
    }
}

impl PacketRead for u8 {
    open spec fn wire_parse(s: Seq<u8>) -> PRead<u8> {
        if s.len() < 1 {
            PRead::Fail(WireError::Io(IoKind::UnexpectedEof))
        } else {
            PRead::Val(be_val(s.subrange(0, 1)) as u8, 1)
        }
    }

    fn pack_read(data: &Vec<u8>, pos: &mut usize, target_version: u32) -> (r: Result<
        u8,
        WireError,
    >) {
        match be_read(data, *pos, 1) {
            Ok((v, after)) => {
                proof {
                    lemma_be_val_bound(data@.subrange(*pos as int, *pos + 1));
                    lemma_pow256_vals();
                    assert(data@.skip(*pos as int).subrange(0, 1) =~= data@.subrange(
                        *pos as int,
                        *pos + 1,
                    ));
                }
                *pos = after;
                Ok(v as u8)
            },
            Err(e) => Err(e),
        }
    }

    proof fn lemma_enc_parse_exact(v: Self) {
        Self::lemma_enc_parse(v, Seq::empty());
        assert(v.wire_enc() + Seq::<u8>::empty() =~= v.wire_enc());
    }
}

impl PrefixRead for u8 {
    proof fn lemma_enc_parse(v: Self, rest: Seq<u8>) {
        lemma_be_enc_len(v as nat, 1);
        lemma_pow256_vals();
        lemma_be_val_enc(v as nat, 1);
        assert((be_enc(v as nat, 1) + rest).subrange(0, 1) =~= be_enc(v as nat, 1));
    }
}

impl PacketWrite for u16 {
    open spec fn wire_wf(&self) -> bool {
        true
    }

    open spec fn wire_enc(&self) -> Seq<u8> {
        be_enc(*self as nat, 2)
    }

    fn pack_write(&self, buffer: &mut Vec<u8>, target_version: u32) -> (r: Result<
        (),
        WireError,
    >) {
        be_write(buffer, *self as u128, 2);
        Ok(())
    }
}

impl PacketRead for u16 {
    open spec fn wire_parse(s: Seq<u8>) -> PRead<u16> {
        if s.len() < 2 {
            PRead::Fail(WireError::Io(IoKind::UnexpectedEof))
        } else {
            PRead::Val(be_val(s.subrange(0, 2)) as u16, 2)
        }
    }

    fn pack_read(data: &Vec<u8>, pos: &mut usize, target_version: u32) -> (r: Result<
        u16,
        WireError,
    >) {
        match be_read(data, *pos, 2) {
            Ok((v, after)) => {
                proof {
                    lemma_be_val_bound(data@.subrange(*pos as int, *pos + 2));
                    lemma_pow256_vals();
                    assert(data@.skip(*pos as int).subrange(0, 2) =~= data@.subrange(
                        *pos as int,
                        *pos + 2,
                    ));
                }
                *pos = after;
                Ok(v as u16)
            },
            Err(e) => Err(e),
        }
    }

    proof fn lemma_enc_parse_exact(v: Self) {
        Self::lemma_enc_parse(v, Seq::empty());
        assert(v.wire_enc() + Seq::<u8>::empty() =~= v.wire_enc());
    }
}

impl PrefixRead for u16 {
    proof fn lemma_enc_parse(v: Self, rest: Seq<u8>) {
        lemma_be_enc_len(v as nat, 2);
        lemma_pow256_vals();
        lemma_be_val_enc(v as nat, 2);
        assert((be_enc(v as nat, 2) + rest).subrange(0, 2) =~= be_enc(v as nat, 2));
    }
}

impl PacketWrite for u32 {
    open spec fn wire_wf(&self) -> bool {
        true
    }

    open spec fn wire_enc(&self) -> Seq<u8> {
        be_enc(*self as nat, 4)
    }

    fn pack_write(&self, buffer: &mut Vec<u8>, target_version: u32) -> (r: Result<
        (),
        WireError,
    >) {
        be_write(buffer, *self as u128, 4);
        Ok(())
    }
}

impl PacketRead for u32 {
    open spec fn wire_parse(s: Seq<u8>) -> PRead<u32> {
        if s.len() < 4 {
            PRead::Fail(WireError::Io(IoKind::UnexpectedEof))
        } else {
            PRead::Val(be_val(s.subrange(0, 4)) as u32, 4)
        }
    }

    fn pack_read(data: &Vec<u8>, pos: &mut usize, target_version: u32) -> (r: Result<
        u32,
        WireError,
    >) {
        match be_read(data, *pos, 4) {
            Ok((v, after)) => {
                proof {
                    lemma_be_val_bound(data@.subrange(*pos as int, *pos + 4));
                    lemma_pow256_vals();
                    assert(data@.skip(*pos as int).subrange(0, 4) =~= data@.subrange(
                        *pos as int,
                        *pos + 4,
                    ));
                }
                *pos = after;
                Ok(v as u32)
            },
            Err(e) => Err(e),
        }
    }

    proof fn lemma_enc_parse_exact(v: Self) {
        Self::lemma_enc_parse(v, Seq::empty());
        assert(v.wire_enc() + Seq::<u8>::empty() =~= v.wire_enc());
    }
}

impl PrefixRead for u32 {
    proof fn lemma_enc_parse(v: Self, rest: Seq<u8>) {
        lemma_be_enc_len(v as nat, 4);
        lemma_pow256_vals();
        lemma_be_val_enc(v as nat, 4);
        assert((be_enc(v as nat, 4) + rest).subrange(0, 4) =~= be_enc(v as nat, 4));
    }
}

impl PacketWrite for u64 {
    open spec fn wire_wf(&self) -> bool {
        true
    }

    open spec fn wire_enc(&self) -> Seq<u8> {
        be_enc(*self as nat, 8)
    }

    fn pack_write(&self, buffer: &mut Vec<u8>, target_version: u32) -> (r: Result<
        (),
        WireError,
    >) {
        be_write(buffer, *self as u128, 8);
        Ok(())
    }
}

impl PacketRead for u64 {
    open spec fn wire_parse(s: Seq<u8>) -> PRead<u64> {
        if s.len() < 8 {
            PRead::Fail(WireError::Io(IoKind::UnexpectedEof))
        } else {
            PRead::Val(be_val(s.subrange(0, 8)) as u64, 8)
        }
    }

    fn pack_read(data: &Vec<u8>, pos: &mut usize, target_version: u32) -> (r: Result<
        u64,
        WireError,
    >) {
        match be_read(data, *pos, 8) {
            Ok((v, after)) => {
                proof {
                    lemma_be_val_bound(data@.subrange(*pos as int, *pos + 8));
                    lemma_pow256_vals();
                    assert(data@.skip(*pos as int).subrange(0, 8) =~= data@.subrange(
                        *pos as int,
                        *pos + 8,
                    ));
                }
                *pos = after;
                Ok(v as u64)
            },
            Err(e) => Err(e),
        }
    }

    proof fn lemma_enc_parse_exact(v: Self) {
        Self::lemma_enc_parse(v, Seq::empty());
        assert(v.wire_enc() + Seq::<u8>::empty() =~= v.wire_enc());
    }
}

impl PrefixRead for u64 {
    proof fn lemma_enc_parse(v: Self, rest: Seq<u8>) {
        lemma_be_enc_len(v as nat, 8);
        lemma_pow256_vals();
        lemma_be_val_enc(v as nat, 8);
        assert((be_enc(v as nat, 8) + rest).subrange(0, 8) =~= be_enc(v as nat, 8));
    }
}

impl PacketWrite for u128 {
    open spec fn wire_wf(&self) -> bool {
        true
    }

    open spec fn wire_enc(&self) -> Seq<u8> {
        be_enc(*self as nat, 16)
    }

    fn pack_write(&self, buffer: &mut Vec<u8>, target_version: u32) -> (r: Result<
        (),
        WireError,
    >) {
        be_write(buffer, *self, 16);
        Ok(())
    }
}

impl PacketRead for u128 {
    open spec fn wire_parse(s: Seq<u8>) -> PRead<u128> {
        if s.len() < 16 {
            PRead::Fail(WireError::Io(IoKind::UnexpectedEof))
        } else {
            PRead::Val(be_val(s.subrange(0, 16)) as u128, 16)
        }
    }

    fn pack_read(data: &Vec<u8>, pos: &mut usize, target_version: u32) -> (r: Result<
        u128,
        WireError,
    >) {
        match be_read(data, *pos, 16) {
            Ok((v, after)) => {
                proof {
                    lemma_be_val_bound(data@.subrange(*pos as int, *pos + 16));
                    lemma_pow256_vals();
                    assert(data@.skip(*pos as int).subrange(0, 16) =~= data@.subrange(
                        *pos as int,
                        *pos + 16,
                    ));
                }
                *pos = after;
                Ok(v)
            },
            Err(e) => Err(e),
        }
    }

    proof fn lemma_enc_parse_exact(v: Self) {
        Self::lemma_enc_parse(v, Seq::empty());
        assert(v.wire_enc() + Seq::<u8>::empty() =~= v.wire_enc());
    }
}

impl PrefixRead for u128 {
    proof fn lemma_enc_parse(v: Self, rest: Seq<u8>) {
        lemma_be_enc_len(v as nat, 16);
        lemma_pow256_vals();
        lemma_be_val_enc(v as nat, 16);
        assert((be_enc(v as nat, 16) + rest).subrange(0, 16) =~= be_enc(v as nat, 16));
    }
}

} // verus!

verus! {

impl PacketWrite for i8 {
    open spec fn wire_wf(&self) -> bool {
        true
    }

    open spec fn wire_enc(&self) -> Seq<u8> {
        be_enc((*self as u8) as nat, 1)
    }

    fn pack_write(&self, buffer: &mut Vec<u8>, target_version: u32) -> (r: Result<
        (),
        WireError,
    >) {
        be_write(buffer, *self as u8 as u128, 1);
        Ok(())
    }
}

impl PacketRead for i8 {
    open spec fn wire_parse(s: Seq<u8>) -> PRead<i8> {
        if s.len() < 1 {
            PRead::Fail(WireError::Io(IoKind::UnexpectedEof))
        } else {
            PRead::Val((be_val(s.subrange(0, 1)) as u8) as i8, 1)
        }
    }

    fn pack_read(data: &Vec<u8>, pos: &mut usize, target_version: u32) -> (r: Result<
        i8,
        WireError,
    >) {
        match be_read(data, *pos, 1) {
            Ok((v, after)) => {
                proof {
                    lemma_be_val_bound(data@.subrange(*pos as int, *pos + 1));
                    lemma_pow256_vals();
                    assert(data@.skip(*pos as int).subrange(0, 1) =~= data@.subrange(
                        *pos as int,
                        *pos + 1,
                    ));
                }
                *pos = after;
                let low: u8 = v as u8;
                Ok(#[verifier::truncate] (low as i8))
            },
            Err(e) => Err(e),
        }
    }

    proof fn lemma_enc_parse_exact(v: Self) {
        Self::lemma_enc_parse(v, Seq::empty());
        assert(v.wire_enc() + Seq::<u8>::empty() =~= v.wire_enc());
    }
}

impl PrefixRead for i8 {
    proof fn lemma_enc_parse(v: Self, rest: Seq<u8>) {
        lemma_be_enc_len((v as u8) as nat, 1);
        lemma_pow256_vals();
        lemma_be_val_enc((v as u8) as nat, 1);
        assert((be_enc((v as u8) as nat, 1) + rest).subrange(0, 1) =~= be_enc(
            (v as u8) as nat,
            1,
        ));
        let x: i8 = v;
        assert(((x as u8) as i8) == x) by (bit_vector);
    }
}

impl PacketWrite for i16 {
    open spec fn wire_wf(&self) -> bool {
        true
    }

    open spec fn wire_enc(&self) -> Seq<u8> {
        be_enc((*self as u16) as nat, 2)
    }

    fn pack_write(&self, buffer: &mut Vec<u8>, target_version: u32) -> (r: Result<
        (),
        WireError,
    >) {
        be_write(buffer, *self as u16 as u128, 2);
        Ok(())
    }
}

impl PacketRead for i16 {
    open spec fn wire_parse(s: Seq<u8>) -> PRead<i16> {
        if s.len() < 2 {
            PRead::Fail(WireError::Io(IoKind::UnexpectedEof))
        } else {
            PRead::Val((be_val(s.subrange(0, 2)) as u16) as i16, 2)
        }
    }

    fn pack_read(data: &Vec<u8>, pos: &mut usize, target_version: u32) -> (r: Result<
        i16,
        WireError,
    >) {
        match be_read(data, *pos, 2) {
            Ok((v, after)) => {
                proof {
                    lemma_be_val_bound(data@.subrange(*pos as int, *pos + 2));
                    lemma_pow256_vals();
                    assert(data@.skip(*pos as int).subrange(0, 2) =~= data@.subrange(
                        *pos as int,
                        *pos + 2,
                    ));
                }
                *pos = after;
                let low: u16 = v as u16;
                Ok(#[verifier::truncate] (low as i16))
            },
            Err(e) => Err(e),
        }
    }

    proof fn lemma_enc_parse_exact(v: Self) {
        Self::lemma_enc_parse(v, Seq::empty());
        assert(v.wire_enc() + Seq::<u8>::empty() =~= v.wire_enc());
    }
}

impl PrefixRead for i16 {
    proof fn lemma_enc_parse(v: Self, rest: Seq<u8>) {
        lemma_be_enc_len((v as u16) as nat, 2);
        lemma_pow256_vals();
        lemma_be_val_enc((v as u16) as nat, 2);
        assert((be_enc((v as u16) as nat, 2) + rest).subrange(0, 2) =~= be_enc(
            (v as u16) as nat,
            2,
        ));
        let x: i16 = v;
        assert(((x as u16) as i16) == x) by (bit_vector);
    }
}

impl PacketWrite for i32 {
    open spec fn wire_wf(&self) -> bool {
        true
    }

    open spec fn wire_enc(&self) -> Seq<u8> {
        be_enc((*self as u32) as nat, 4)
    }

    fn pack_write(&self, buffer: &mut Vec<u8>, target_version: u32) -> (r: Result<
        (),
        WireError,
    >) {
        be_write(buffer, *self as u32 as u128, 4);
        Ok(())
    }
}

impl PacketRead for i32 {
    open spec fn wire_parse(s: Seq<u8>) -> PRead<i32> {
        if s.len() < 4 {
            PRead::Fail(WireError::Io(IoKind::UnexpectedEof))
        } else {
            PRead::Val((be_val(s.subrange(0, 4)) as u32) as i32, 4)
        }
    }

    fn pack_read(data: &Vec<u8>, pos: &mut usize, target_version: u32) -> (r: Result<
        i32,
        WireError,
    >) {
        match be_read(data, *pos, 4) {
            Ok((v, after)) => {
                proof {
                    lemma_be_val_bound(data@.subrange(*pos as int, *pos + 4));
                    lemma_pow256_vals();
                    assert(data@.skip(*pos as int).subrange(0, 4) =~= data@.subrange(
                        *pos as int,
                        *pos + 4,
                    ));
                }
                *pos = after;
                let low: u32 = v as u32;
                Ok(#[verifier::truncate] (low as i32))
            },
            Err(e) => Err(e),
        }
    }

    proof fn lemma_enc_parse_exact(v: Self) {
        Self::lemma_enc_parse(v, Seq::empty());
        assert(v.wire_enc() + Seq::<u8>::empty() =~= v.wire_enc());
    }
}

impl PrefixRead for i32 {
    proof fn lemma_enc_parse(v: Self, rest: Seq<u8>) {
        lemma_be_enc_len((v as u32) as nat, 4);
        lemma_pow256_vals();
        lemma_be_val_enc((v as u32) as nat, 4);
        assert((be_enc((v as u32) as nat, 4) + rest).subrange(0, 4) =~= be_enc(
            (v as u32) as nat,
            4,
        ));
        let x: i32 = v;
        assert(((x as u32) as i32) == x) by (bit_vector);
    }
}

impl PacketWrite for i64 {
    open spec fn wire_wf(&self) -> bool {
        true
    }

    open spec fn wire_enc(&self) -> Seq<u8> {
        be_enc((*self as u64) as nat, 8)
    }

    fn pack_write(&self, buffer: &mut Vec<u8>, target_version: u32) -> (r: Result<
        (),
        WireError,
    >) {
        be_write(buffer, *self as u64 as u128, 8);
        Ok(())
    }
}

impl PacketRead for i64 {
    open spec fn wire_parse(s: Seq<u8>) -> PRead<i64> {
        if s.len() < 8 {
            PRead::Fail(WireError::Io(IoKind::UnexpectedEof))
        } else {
            PRead::Val((be_val(s.subrange(0, 8)) as u64) as i64, 8)
        }
    }

    fn pack_read(data: &Vec<u8>, pos: &mut usize, target_version: u32) -> (r: Result<
        i64,
        WireError,
    >) {
        match be_read(data, *pos, 8) {
            Ok((v, after)) => {
                proof {
                    lemma_be_val_bound(data@.subrange(*pos as int, *pos + 8));
                    lemma_pow256_vals();
                    assert(data@.skip(*pos as int).subrange(0, 8) =~= data@.subrange(
                        *pos as int,
                        *pos + 8,
                    ));
                }
                *pos = after;
                let low: u64 = v as u64;
                Ok(#[verifier::truncate] (low as i64))
            },
            Err(e) => Err(e),
        }
    }

    proof fn lemma_enc_parse_exact(v: Self) {
        Self::lemma_enc_parse(v, Seq::empty());
        assert(v.wire_enc() + Seq::<u8>::empty() =~= v.wire_enc());
    }
}

impl PrefixRead for i64 {
    proof fn lemma_enc_parse(v: Self, rest: Seq<u8>) {
        lemma_be_enc_len((v as u64) as nat, 8);
        lemma_pow256_vals();
        lemma_be_val_enc((v as u64) as nat, 8);
        assert((be_enc((v as u64) as nat, 8) + rest).subrange(0, 8) =~= be_enc(
            (v as u64) as nat,
            8,
        ));
        let x: i64 = v;
        assert(((x as u64) as i64) == x) by (bit_vector);
    }
}

impl PacketWrite for i128 {
    open spec fn wire_wf(&self) -> bool {
        true
    }

    open spec fn wire_enc(&self) -> Seq<u8> {
        be_enc((*self as u128) as nat, 16)
    }

    fn pack_write(&self, buffer: &mut Vec<u8>, target_version: u32) -> (r: Result<
        (),
        WireError,
    >) {
        be_write(buffer, *self as u128, 16);
        Ok(())
    }
}

impl PacketRead for i128 {
    open spec fn wire_parse(s: Seq<u8>) -> PRead<i128> {
        if s.len() < 16 {
            PRead::Fail(WireError::Io(IoKind::UnexpectedEof))
        } else {
            PRead::Val((be_val(s.subrange(0, 16)) as u128) as i128, 16)
        }
    }

    fn pack_read(data: &Vec<u8>, pos: &mut usize, target_version: u32) -> (r: Result<
        i128,
        WireError,
    >) {
        match be_read(data, *pos, 16) {
            Ok((v, after)) => {
                proof {
                    lemma_be_val_bound(data@.subrange(*pos as int, *pos + 16));
                    lemma_pow256_vals();
                    assert(data@.skip(*pos as int).subrange(0, 16) =~= data@.subrange(
                        *pos as int,
                        *pos + 16,
                    ));
                }
                *pos = after;
                Ok(#[verifier::truncate] (v as i128))
            },
            Err(e) => Err(e),
        }
    }

    proof fn lemma_enc_parse_exact(v: Self) {
        Self::lemma_enc_parse(v, Seq::empty());
        assert(v.wire_enc() + Seq::<u8>::empty() =~= v.wire_enc());
    }
}

impl PrefixRead for i128 {
    proof fn lemma_enc_parse(v: Self, rest: Seq<u8>) {
        lemma_be_enc_len((v as u128) as nat, 16);
        lemma_pow256_vals();
        lemma_be_val_enc((v as u128) as nat, 16);
        assert((be_enc((v as u128) as nat, 16) + rest).subrange(0, 16) =~= be_enc(
            (v as u128) as nat,
            16,
        ));
        let x: i128 = v;
        assert(((x as u128) as i128) == x) by (bit_vector);
    }
}

impl PacketWrite for bool {
    open spec fn wire_wf(&self) -> bool {
        true
    }

    open spec fn wire_enc(&self) -> Seq<u8> {
        if *self {
            seq![1u8]
        } else {
            seq![0u8]
        }
    }

    fn pack_write(&self, buffer: &mut Vec<u8>, target_version: u32) -> (r: Result<
        (),
        WireError,
    >) {
        let b: u8 = if *self {
            1
        } else {
            0
        };
        buffer.push(b);
        proof {
            assert(buffer@ =~= old(buffer)@ + self.wire_enc());
        }
        Ok(())
    }
}

impl PacketRead for bool {
    open spec fn wire_parse(s: Seq<u8>) -> PRead<bool> {
        if s.len() < 1 {
            PRead::Fail(WireError::Io(IoKind::UnexpectedEof))
        } else {
            PRead::Val(s[0] == 1, 1)
        }
    }

    fn pack_read(data: &Vec<u8>, pos: &mut usize, target_version: u32) -> (r: Result<
        bool,
        WireError,
    >) {
        if *pos == data.len() {
            return Err(WireError::Io(IoKind::UnexpectedEof));
        }
        let b: u8 = data[*pos];
        *pos = *pos + 1;
        Ok(b == 1)
    }

    proof fn lemma_enc_parse_exact(v: Self) {
        Self::lemma_enc_parse(v, Seq::empty());
        assert(v.wire_enc() + Seq::<u8>::empty() =~= v.wire_enc());
    }
}

impl PrefixRead for bool {
    proof fn lemma_enc_parse(v: Self, rest: Seq<u8>) {
    }
}

} // verus!

verus! {

/// Cap on the wire length of a string, in UTF-8 bytes.
pub const MAX_STRING_SIZE: usize = 32767;

/// Cap on the element count of a wire array.
pub const MAX_ARRAY_SIZE: usize = 0x10_0000;

/// The signed 32-bit reading of a decoded variable-length quantity, as a
/// length prefix is interpreted.
pub open spec fn vlq_as_i32(v: nat) -> int {
    (((v % 0x1_0000_0000) as u32) as i32) as int
}

/// Copy `count` bytes of `data` starting at `start` into a fresh vector.
pub fn copy_range(data: &Vec<u8>, start: usize, count: usize) -> (r: Vec<u8>)
    requires
        start + count <= data@.len(),
    ensures
        r@ == data@.subrange(start as int, start + count),
{
    let dlen: usize = data.len();
    let mut out: Vec<u8> = Vec::new();
    let mut i: usize = 0;
    proof {
        assert(data@.len() == dlen);
        assert(out@ =~= data@.subrange(start as int, start as int));
    }
    while i < count
        invariant
            i <= count,
            start + count <= data@.len(),
            data@.len() <= usize::MAX,
            out@ == data@.subrange(start as int, start + i),
        decreases count - i,
    {
        let b: u8 = data[start + i];
        out.push(b);
        i = i + 1;
        proof {
            assert(out@ =~= data@.subrange(start as int, start + i));
        }
    }
    out
}

/// Relies on `String::from_utf8`: it accepts exactly the valid UTF-8 byte
/// sequences and yields the string whose UTF-8 encoding is the input.
#[verifier::external_body]
pub fn utf8_to_string(bytes: Vec<u8>) -> (r: Option<String>)
    ensures
        r is Some <==> vstd::utf8::valid_utf8(bytes@),
        r matches Some(s) ==> s@ == vstd::utf8::decode_utf8(bytes@),
{
    String::from_utf8(bytes).ok()
}

impl PacketWrite for String {
    open spec fn wire_wf(&self) -> bool {
        vstd::utf8::encode_utf8(self@).len() <= MAX_STRING_SIZE
    }

    open spec fn wire_enc(&self) -> Seq<u8> {
        vlq_enc(vstd::utf8::encode_utf8(self@).len()) + vstd::utf8::encode_utf8(self@)
    }

    fn pack_write(&self, buffer: &mut Vec<u8>, target_version: u32) -> (r: Result<
        (),
        WireError,
    >) {
        let bytes: &[u8] = self.as_str().as_bytes();
        let size: usize = bytes.len();
        if size > MAX_STRING_SIZE {
            return Err(WireError::OverLimit);
        }
        vlq_write(buffer, size as u128);
        buffer.extend_from_slice(bytes);
        proof {
            assert(buffer@ =~= old(buffer)@ + self.wire_enc());
        }
        Ok(())
    }
}

impl PacketRead for String {
    open spec fn wire_parse(s: Seq<u8>) -> PRead<Seq<char>> {
        match vlq_parse(s, 5) {
            VlqParse::Short => PRead::Fail(WireError::Io(IoKind::UnexpectedEof)),
            VlqParse::TooLong => PRead::Fail(WireError::Framing(FramingKind::VarIntTooLong)),
            VlqParse::Val(v, n) => {
                let size = vlq_as_i32(v);
                if size < 0 || size > MAX_STRING_SIZE as int {
                    PRead::Fail(WireError::OverLimit)
                } else if s.len() - n < size {
                    PRead::Fail(WireError::Io(IoKind::UnexpectedEof))
                } else if vstd::utf8::valid_utf8(s.subrange(n as int, n + size)) {
                    PRead::Val(vstd::utf8::decode_utf8(s.subrange(n as int, n + size)), n + size)
                } else {
                    PRead::Fail(WireError::Malformed(MalformedKind::BadUtf8))
                }
            },
        }
    }

    fn pack_read(data: &Vec<u8>, pos: &mut usize, target_version: u32) -> (r: Result<
        String,
        WireError,
    >) {
        let start: usize = *pos;
        match vlq_read(data, start, 5) {
            Err(e) => Err(e),
            Ok((v, after)) => {
                let low: u32 = (v % 0x1_0000_0000) as u32;
                let size_i: i32 = #[verifier::truncate] (low as i32);
                if size_i < 0 {
                    return Err(WireError::OverLimit);
                }
                let size: usize = size_i as usize;
                if size > MAX_STRING_SIZE {
                    return Err(WireError::OverLimit);
                }
                if data.len() - after < size {
                    return Err(WireError::Io(IoKind::UnexpectedEof));
                }
                let bytes: Vec<u8> = copy_range(data, after, size);
                proof {
                    let s = data@.skip(start as int);
                    let n = after - start;
                    assert(bytes@ =~= s.subrange(n as int, n + size));
                }
                match utf8_to_string(bytes) {
                    Some(st) => {
                        *pos = after + size;
                        Ok(st)
                    },
                    None => Err(WireError::Malformed(MalformedKind::BadUtf8)),
                }
            },
        }
    }

    proof fn lemma_enc_parse_exact(v: Self) {
        Self::lemma_enc_parse(v, Seq::empty());
        assert(v.wire_enc() + Seq::<u8>::empty() =~= v.wire_enc());
    }
}

impl PrefixRead for String {
    proof fn lemma_enc_parse(v: Self, rest: Seq<u8>) {
        lemma_str_enc_parse(v@, rest);
    }
}

/// A raw run of bytes, written as-is and read greedily to the end of the
/// enclosing frame; only meaningful as the trailing field of a packet.
#[derive(Debug, Clone, PartialEq)]
pub struct ByteArray(pub Vec<u8>);

impl DeepView for ByteArray {
    type V = Seq<u8>;

    open spec fn deep_view(&self) -> Seq<u8> {
        self.0@
    }
}

impl PacketWrite for ByteArray {
    open spec fn wire_wf(&self) -> bool {
        true
    }

    open spec fn wire_enc(&self) -> Seq<u8> {
        self.0@
    }

    fn pack_write(&self, buffer: &mut Vec<u8>, target_version: u32) -> (r: Result<
        (),
        WireError,
    >) {
        buffer.extend_from_slice(self.0.as_slice());
        Ok(())
    }
}

impl PacketRead for ByteArray {
    open spec fn wire_parse(s: Seq<u8>) -> PRead<Seq<u8>> {
        PRead::Val(s, s.len() as int)
    }

    fn pack_read(data: &Vec<u8>, pos: &mut usize, target_version: u32) -> (r: Result<
        ByteArray,
        WireError,
    >) {
        let bytes: Vec<u8> = copy_range(data, *pos, data.len() - *pos);
        proof {
            assert(bytes@ =~= data@.skip(*pos as int));
        }
        *pos = data.len();
        Ok(ByteArray(bytes))
    }

    proof fn lemma_enc_parse_exact(v: Self) {
    }
}

impl<T: PacketWrite> PacketWrite for Option<T> {
    open spec fn wire_wf(&self) -> bool {
        match self {
            Option::None => true,
            Option::Some(v) => v.wire_wf(),
        }
    }

    open spec fn wire_enc(&self) -> Seq<u8> {
        match self {
            Option::None => seq![0u8],
            Option::Some(v) => seq![1u8] + v.wire_enc(),
        }
    }

    open spec fn wire_write_err(&self) -> WireError {
        match self {
            Option::None => WireError::OverLimit,
            Option::Some(v) => v.wire_write_err(),
        }
    }

    fn pack_write(&self, buffer: &mut Vec<u8>, target_version: u32) -> (r: Result<
        (),
        WireError,
    >) {
        match self {
            Option::None => {
                buffer.push(0u8);
                proof {
                    assert(buffer@ =~= old(buffer)@ + self.wire_enc());
                }
                Ok(())
            },
            Option::Some(v) => {
                let mut scratch: Vec<u8> = Vec::new();
                match v.pack_write(&mut scratch, target_version) {
                    Ok(u) => {
                        buffer.push(1u8);
                        buffer.extend_from_slice(scratch.as_slice());
                        proof {
                            assert(buffer@ =~= old(buffer)@ + self.wire_enc());
                        }
                        Ok(())
                    },
                    Err(e) => Err(e),
                }
            },
        }
    }
}

impl<T: PacketRead> PacketRead for Option<T> {
    open spec fn wire_parse(s: Seq<u8>) -> PRead<Option<T::V>> {
        if s.len() == 0 {
            PRead::Fail(WireError::Io(IoKind::UnexpectedEof))
        } else if s[0] == 0 {
            PRead::Val(Option::None, 1)
        } else if s[0] == 1 {
            match T::wire_parse(s.skip(1)) {
                PRead::Val(v, n) => PRead::Val(Option::Some(v), n + 1),
                PRead::Fail(e) => PRead::Fail(e),
            }
        } else {
            PRead::Fail(WireError::Malformed(MalformedKind::BadOptionTag))
        }
    }

    fn pack_read(data: &Vec<u8>, pos: &mut usize, target_version: u32) -> (r: Result<
        Option<T>,
        WireError,
    >) {
        if *pos == data.len() {
            return Err(WireError::Io(IoKind::UnexpectedEof));
        }
        let tag: u8 = data[*pos];
        if tag == 0 {
            *pos = *pos + 1;
            Ok(None)
        } else if tag == 1 {
            proof {
                assert(data@.skip(*pos as int).skip(1) =~= data@.skip(*pos + 1));
            }
            *pos = *pos + 1;
            match T::pack_read(data, pos, target_version) {
                Ok(v) => Ok(Some(v)),
                Err(e) => Err(e),
            }
        } else {
            Err(WireError::Malformed(MalformedKind::BadOptionTag))
        }
    }

    proof fn lemma_enc_parse_exact(v: Self) {
        match v {
            Option::None => {
            },
            Option::Some(inner) => {
                T::lemma_enc_parse_exact(inner);
                assert((seq![1u8] + inner.wire_enc()).skip(1) =~= inner.wire_enc());
            },
        }
    }
}

impl<T: PrefixRead> PrefixRead for Option<T> {
    proof fn lemma_enc_parse(v: Self, rest: Seq<u8>) {
        match v {
            Option::None => {
                assert((seq![0u8] + rest)[0] == 0);
            },
            Option::Some(inner) => {
                T::lemma_enc_parse(inner, rest);
                assert(((seq![1u8] + inner.wire_enc()) + rest).skip(1) =~= inner.wire_enc()
                    + rest);
            },
        }
    }
}

} // verus!

verus! {

/// The deep views of a sequence of values, in order.
pub open spec fn seq_deep<T: DeepView>(s: Seq<T>) -> Seq<T::V> {
    Seq::new(s.len(), |i: int| s[i].deep_view())
}

/// Whether every element of a sequence fits the wire format.
pub open spec fn seq_wire_wf<T: PacketWrite>(elems: Seq<T>) -> bool {
    forall|i: int| 0 <= i < elems.len() ==> (#[trigger] elems[i]).wire_wf()
}

/// The error the first ill-formed element of a sequence reports.
pub open spec fn seq_wire_write_err<T: PacketWrite>(elems: Seq<T>) -> WireError
    decreases elems.len(),
{
    if elems.len() == 0 {
        WireError::OverLimit
    } else if !elems[0].wire_wf() {
        elems[0].wire_write_err()
    } else {
        seq_wire_write_err(elems.skip(1))
    }
}

/// When the elements before `k` are well-formed and `elems[k]` is not, the
/// sequence's write error is that element's.
pub proof fn lemma_seq_wire_write_err_first<T: PacketWrite>(elems: Seq<T>, k: int)
    requires
        0 <= k < elems.len(),
        forall|j: int| 0 <= j < k ==> (#[trigger] elems[j]).wire_wf(),
        !elems[k].wire_wf(),
    ensures
        seq_wire_write_err(elems) == elems[k].wire_write_err(),
    decreases k,
{
    if k > 0 {
        assert(elems.skip(1)[k - 1] == elems[k]);
        assert forall|j: int| 0 <= j < k - 1 implies (#[trigger] elems.skip(1)[j]).wire_wf() by {
            assert(elems.skip(1)[j] == elems[j + 1]);
        };
        lemma_seq_wire_write_err_first(elems.skip(1), k - 1);
    }
}

/// The concatenated encodings of a sequence of values, in order.
pub open spec fn seq_wire_enc<T: PacketWrite>(elems: Seq<T>) -> Seq<u8>
    decreases elems.len(),
{
    if elems.len() == 0 {
        Seq::empty()
    } else {
        elems[0].wire_enc() + seq_wire_enc(elems.skip(1))
    }
}

/// Parse `k` consecutive values from the head of `s`.
pub open spec fn seq_wire_parse<T: PacketRead>(s: Seq<u8>, k: nat) -> PRead<Seq<T::V>>
    decreases k,
{
    if k == 0 {
        PRead::Val(Seq::empty(), 0)
    } else {
        match T::wire_parse(s) {
            PRead::Val(v, n) => match seq_wire_parse::<T>(s.skip(n), (k - 1) as nat) {
                PRead::Val(vs, m) => PRead::Val(seq![v] + vs, n + m),
                PRead::Fail(e) => PRead::Fail(e),
            },
            PRead::Fail(e) => PRead::Fail(e),
        }
    }
}

/// Extending a sequence by one value appends that value's encoding.
pub proof fn lemma_seq_wire_enc_push<T: PacketWrite>(elems: Seq<T>, x: T)
    ensures
        seq_wire_enc(elems.push(x)) == seq_wire_enc(elems) + x.wire_enc(),
    decreases elems.len(),
{
    if elems.len() == 0 {
        assert(elems.push(x)[0] == x);
        assert(elems.push(x).skip(1) =~= Seq::<T>::empty());
        assert(seq_wire_enc(Seq::<T>::empty()) =~= Seq::<u8>::empty());
        assert(seq_wire_enc(elems.push(x)) == x.wire_enc() + Seq::<u8>::empty());
        assert(seq_wire_enc(elems) =~= Seq::<u8>::empty());
        assert(x.wire_enc() + Seq::<u8>::empty() =~= Seq::<u8>::empty() + x.wire_enc());
    } else {
        assert(elems.push(x)[0] == elems[0]);
        assert(elems.push(x).skip(1) =~= elems.skip(1).push(x));
        lemma_seq_wire_enc_push(elems.skip(1), x);
        assert(seq_wire_enc(elems.push(x)) == elems[0].wire_enc() + (seq_wire_enc(
            elems.skip(1),
        ) + x.wire_enc()));
        assert((elems[0].wire_enc() + (seq_wire_enc(elems.skip(1)) + x.wire_enc())) =~= ((
        elems[0].wire_enc() + seq_wire_enc(elems.skip(1))) + x.wire_enc()));
    }
}

/// Parsing the concatenated encodings of well-formed values, followed by
/// anything, yields those values and consumes exactly their encodings.
pub proof fn lemma_seq_enc_parse<T: PrefixRead>(elems: Seq<T>, rest: Seq<u8>)
    requires
        seq_wire_wf(elems),
    ensures
        seq_wire_parse::<T>(seq_wire_enc(elems) + rest, elems.len() as nat) == PRead::Val(
            seq_deep(elems),
            seq_wire_enc(elems).len() as int,
        ),
    decreases elems.len(),
{
    if elems.len() == 0 {
        assert(seq_deep(elems) =~= Seq::<T::V>::empty());
    } else {
        let e0 = elems[0];
        let tail_bytes = seq_wire_enc(elems.skip(1)) + rest;
        T::lemma_enc_parse(e0, tail_bytes);
        assert(seq_wire_enc(elems) + rest =~= e0.wire_enc() + tail_bytes);
        let n0 = e0.wire_enc().len() as int;
        assert((e0.wire_enc() + tail_bytes).skip(n0) =~= tail_bytes);
        assert(seq_wire_wf(elems.skip(1))) by {
            assert forall|i: int| 0 <= i < elems.skip(1).len() implies (#[trigger] elems.skip(
                1,
            )[i]).wire_wf() by {
                assert(elems.skip(1)[i] == elems[i + 1]);
            };
        };
        lemma_seq_enc_parse::<T>(elems.skip(1), rest);
        assert(seq![e0.deep_view()] + seq_deep(elems.skip(1)) =~= seq_deep(elems));
    }
}

impl<T: PacketWrite> PacketWrite for Vec<T> {
    open spec fn wire_wf(&self) -> bool {
        self@.len() <= MAX_ARRAY_SIZE && seq_wire_wf(self@)
    }

    open spec fn wire_enc(&self) -> Seq<u8> {
        vlq_enc(self@.len()) + seq_wire_enc(self@)
    }

    open spec fn wire_write_err(&self) -> WireError {
        if self@.len() > MAX_ARRAY_SIZE {
            WireError::OverLimit
        } else {
            seq_wire_write_err(self@)
        }
    }

    fn pack_write(&self, buffer: &mut Vec<u8>, target_version: u32) -> (r: Result<
        (),
        WireError,
    >) {
        let size: usize = self.len();
        if size > MAX_ARRAY_SIZE {
            return Err(WireError::OverLimit);
        }
        let mut scratch: Vec<u8> = Vec::new();
        proof {
            assert(self@.subrange(0, 0) =~= Seq::<T>::empty());
            assert(scratch@ =~= seq_wire_enc(self@.subrange(0, 0)));
        }
        let mut k: usize = 0;
        while k < size
            invariant
                k <= size,
                size == self@.len(),
                size <= MAX_ARRAY_SIZE,
                seq_wire_wf(self@.subrange(0, k as int)),
                scratch@ == seq_wire_enc(self@.subrange(0, k as int)),
            decreases size - k,
        {
            match (&self[k]).pack_write(&mut scratch, target_version) {
                Ok(u) => {
                    proof {
                        lemma_seq_wire_enc_push(self@.subrange(0, k as int), self@[k as int]);
                        assert(self@.subrange(0, k as int).push(self@[k as int]) =~= self@
                            .subrange(0, k + 1));
                        assert(seq_wire_wf(self@.subrange(0, k + 1))) by {
                            assert forall|i: int| 0 <= i < k + 1 implies (#[trigger] self@
                                .subrange(0, k + 1)[i]).wire_wf() by {
                                if i < k {
                                    assert(self@.subrange(0, k + 1)[i] == self@.subrange(
                                        0,
                                        k as int,
                                    )[i]);
                                }
                            };
                        };
                        assert(scratch@ =~= seq_wire_enc(self@.subrange(0, k + 1)));
                    }
                },
                Err(e) => {
                    proof {
                        assert(!self@[k as int].wire_wf());
                        assert(!self.wire_wf());
                        assert forall|j: int| 0 <= j < k implies (#[trigger] self@[j]).wire_wf()
                            by {
                            assert(self@.subrange(0, k as int)[j] == self@[j]);
                        };
                        lemma_seq_wire_write_err_first(self@, k as int);
                    }
                    return Err(e);
                },
            }
            k = k + 1;
        }
        vlq_write(buffer, size as u128);
        buffer.extend_from_slice(scratch.as_slice());
        proof {
            assert(self@.subrange(0, size as int) =~= self@);
            assert(buffer@ =~= old(buffer)@ + self.wire_enc());
        }
        Ok(())
    }
}

impl<T: PrefixRead> PacketRead for Vec<T> {
    open spec fn wire_parse(s: Seq<u8>) -> PRead<Seq<T::V>> {
        match vlq_parse(s, 5) {
            VlqParse::Short => PRead::Fail(WireError::Io(IoKind::UnexpectedEof)),
            VlqParse::TooLong => PRead::Fail(WireError::Framing(FramingKind::VarIntTooLong)),
            VlqParse::Val(v, n) => {
                let size = vlq_as_i32(v);
                if size < 0 || size > MAX_ARRAY_SIZE as int {
                    PRead::Fail(WireError::OverLimit)
                } else {
                    match seq_wire_parse::<T>(s.skip(n as int), size as nat) {
                        PRead::Val(vs, m) => PRead::Val(vs, n + m),
                        PRead::Fail(e) => PRead::Fail(e),
                    }
                }
            },
        }
    }

    #[verifier::loop_isolation(false)]
    fn pack_read(data: &Vec<u8>, pos: &mut usize, target_version: u32) -> (r: Result<
        Vec<T>,
        WireError,
    >) {
        let start: usize = *pos;
        match vlq_read(data, start, 5) {
            Err(e) => Err(e),
            Ok((v, after)) => {
                let low: u32 = (v % 0x1_0000_0000) as u32;
                let cnt_i: i32 = #[verifier::truncate] (low as i32);
                if cnt_i < 0 {
                    return Err(WireError::OverLimit);
                }
                let cnt: usize = cnt_i as usize;
                if cnt > MAX_ARRAY_SIZE {
                    return Err(WireError::OverLimit);
                }
                let ghost s0 = data@.skip(after as int);
                let mut vals: Vec<T> = Vec::new();
                let mut k: usize = 0;
                *pos = after;
                proof {
                    assert(vals.deep_view() =~= Seq::<T::V>::empty());
                    assert(vals.deep_view() + seq_deep(Seq::<T>::empty()) =~= vals.deep_view());
                }
                while k < cnt
                    invariant
                        k <= cnt,
                        vals@.len() == k,
                        after <= *pos,
                        *pos <= data@.len(),
                        s0 == data@.skip(after as int),
                        match seq_wire_parse::<T>(data@.skip(*pos as int), (cnt - k) as nat) {
                            PRead::Val(vs, m) => seq_wire_parse::<T>(s0, cnt as nat)
                                == PRead::Val(vals.deep_view() + vs, (*pos - after) + m),
                            PRead::Fail(e) => seq_wire_parse::<T>(s0, cnt as nat)
                                == PRead::<Seq<T::V>>::Fail(e),
                        },
                    decreases cnt - k,
                {
                    let p: usize = *pos;
                    match T::pack_read(data, pos, target_version) {
                        Err(e) => {
                            proof {
                                assert(data@.skip(start as int).skip((after - start) as int)
                                    =~= s0);
                            }
                            return Err(e);
                        },
                        Ok(x) => {
                            proof {
                                let tp = T::wire_parse(data@.skip(p as int));
                                if let PRead::Val(vv, n) = tp {
                                    assert(data@.skip(p as int).skip(n) =~= data@.skip(p + n));
                                    let b = seq_wire_parse::<T>(
                                        data@.skip(p + n),
                                        (cnt - k - 1) as nat,
                                    );
                                    assert(seq_deep(vals@.push(x)) =~= vals.deep_view() + seq![
                                        x.deep_view(),
                                    ]);
                                    if let PRead::Val(vs2, m2) = b {
                                        assert((vals.deep_view() + seq![vv]) + vs2 =~= vals
                                            .deep_view() + (seq![vv] + vs2));
                                    }
                                }
                            }
                            vals.push(x);
                            k = k + 1;
                        },
                    }
                }
                proof {
                    assert(seq_deep(Seq::<T>::empty()) =~= Seq::<T::V>::empty());
                    assert(vals.deep_view() + Seq::<T::V>::empty() =~= vals.deep_view());
                    assert(data@.skip(start as int).skip((after - start) as int) =~= data@.skip(
                        after as int,
                    ));
                }
                Ok(vals)
            },
        }
    }

    proof fn lemma_enc_parse_exact(v: Self) {
        Self::lemma_enc_parse(v, Seq::empty());
        assert(v.wire_enc() + Seq::<u8>::empty() =~= v.wire_enc());
    }
}

impl<T: PrefixRead> PrefixRead for Vec<T> {
    proof fn lemma_enc_parse(v: Self, rest: Seq<u8>) {
        let lv = v@.len();
        assert(pow128(5nat) == 0x8_0000_0000) by {
            reveal_with_fuel(pow128, 6);
        };
        lemma_vlq_enc_len(lv, 5);
        let s = v.wire_enc() + rest;
        let body = seq_wire_enc(v@);
        assert(s =~= vlq_enc(lv) + (body + rest));
        lemma_vlq_parse_enc(lv, body + rest, 5);
        let n = vlq_enc(lv).len() as int;
        assert(s.skip(n) =~= body + rest);
        lemma_seq_enc_parse::<T>(v@, rest);
        assert(seq_deep(v@) =~= v.deep_view());
    }
}

} // verus!

verus! {

/// The wire encoding of a character sequence as a length-prefixed string.
pub open spec fn str_wire_enc(chars: Seq<char>) -> Seq<u8> {
    vlq_enc(vstd::utf8::encode_utf8(chars).len()) + vstd::utf8::encode_utf8(chars)
}

/// Parsing a string encoding under the cap, followed by anything, yields
/// exactly those characters.
pub proof fn lemma_str_enc_parse(chars: Seq<char>, rest: Seq<u8>)
    requires
        vstd::utf8::encode_utf8(chars).len() <= MAX_STRING_SIZE,
    ensures
        <String as PacketRead>::wire_parse(str_wire_enc(chars) + rest) == PRead::<Seq<char>>::Val(
            chars,
            str_wire_enc(chars).len() as int,
        ),
{
    let b = vstd::utf8::encode_utf8(chars);
    let lb = b.len();
    assert(pow128(5nat) == 0x8_0000_0000) by {
        reveal_with_fuel(pow128, 6);
    };
    lemma_vlq_enc_len(lb, 5);
    let s = str_wire_enc(chars) + rest;
    assert(s =~= vlq_enc(lb) + (b + rest));
    lemma_vlq_parse_enc(lb, b + rest, 5);
    let n = vlq_enc(lb).len() as int;
    assert(s.subrange(n, n + lb as int) =~= b);
    vstd::utf8::encode_utf8_valid_utf8(chars);
    vstd::utf8::encode_utf8_decode_utf8(chars);
}

} // verus!

pub mod packet;

verus! {

/// Skipping twice from the front is one longer skip.
pub broadcast proof fn lemma_skip_skip(s: Seq<u8>, a: int, b: int)
    requires
        0 <= a,
        0 <= b,
        a + b <= s.len(),
    ensures
        #[trigger] s.skip(a).skip(b) == s.skip(a + b),
{
    assert(s.skip(a).skip(b) =~= s.skip(a + b));
}

} // verus!

verus! {

impl From<i32> for VarInt {
    fn from(v: i32) -> (r: VarInt) {
        VarInt(v)
    }
}

impl vstd::std_specs::convert::FromSpecImpl<i32> for VarInt {
    open spec fn obeys_from_spec() -> bool {
        true
    }

    open spec fn from_spec(v: i32) -> VarInt {
        VarInt(v)
    }
}

impl From<VarInt> for i32 {
    fn from(v: VarInt) -> (r: i32) {
        v.0
    }
}

impl vstd::std_specs::convert::FromSpecImpl<VarInt> for i32 {
    open spec fn obeys_from_spec() -> bool {
        true
    }

    open spec fn from_spec(v: VarInt) -> i32 {
        v.0
    }
}

impl From<i64> for VarLong {
    fn from(v: i64) -> (r: VarLong) {
        VarLong(v)
    }
}

impl vstd::std_specs::convert::FromSpecImpl<i64> for VarLong {
    open spec fn obeys_from_spec() -> bool {
        true
    }

    open spec fn from_spec(v: i64) -> VarLong {
        VarLong(v)
    }
}

impl From<VarLong> for i64 {
    fn from(v: VarLong) -> (r: i64) {
        v.0
    }
}

impl vstd::std_specs::convert::FromSpecImpl<VarLong> for i64 {
    open spec fn obeys_from_spec() -> bool {
        true
    }

    open spec fn from_spec(v: VarLong) -> i64 {
        v.0
    }
}

} // verus!
