//! Chat components, carried opaquely as length-prefixed UTF-8 JSON text.
//!
//! The chat model itself is an external collaborator; this crate only frames
//! a component's JSON bytes on the wire, under its own size cap.

use vstd::prelude::*;

use crate::error::{IoKind, MalformedKind, WireError};
use crate::net_io::{
    copy_range, str_wire_enc, utf8_to_string, vlq_as_i32, vlq_enc, vlq_read, vlq_write,
    vlq_parse, PacketRead, PacketWrite, PRead, PrefixRead, VlqParse,
};
use crate::net_io::{lemma_vlq_enc_len, lemma_vlq_parse_enc, pow128};
use vstd::utf8::{decode_utf8, encode_utf8, valid_utf8};

verus! {

/// Cap on a component's JSON text, in UTF-8 bytes.
pub const MAX_COMPONENT_JSON_SIZE: usize = 262144;

/// A chat component: opaque JSON text.
#[derive(Debug, Clone, PartialEq, Eq, Hash)]
pub struct Component {
    json: String,
}

impl Component {
    /// The component's JSON text, as characters.
    pub closed spec fn spec_json(&self) -> Seq<char> {
        self.json@
    }

    /// Wrap already-encoded JSON text as a component.
    pub fn from_json(json: String) -> (r: Component)
        ensures
            r.spec_json() == json@,
    {
        Component { json }
    }

    /// The component's JSON text.
    pub fn json(&self) -> (r: &String)
        ensures
            r@ == self.spec_json(),
    {
        &self.json
    }
}

impl DeepView for Component {
    type V = Seq<char>;

    open spec fn deep_view(&self) -> Seq<char> {
        self.spec_json()
    }
}

impl PacketWrite for Component {
    open spec fn wire_wf(&self) -> bool {
        encode_utf8(self.spec_json()).len() <= MAX_COMPONENT_JSON_SIZE
    }

    open spec fn wire_enc(&self) -> Seq<u8> {
        str_wire_enc(self.spec_json())
    }

    fn pack_write(&self, buffer: &mut Vec<u8>, target_version: u32) -> (r: Result<
        (),
        WireError,
    >) {
        let bytes: &[u8] = self.json.as_str().as_bytes();
        let size: usize = bytes.len();
        if size > MAX_COMPONENT_JSON_SIZE {
            return Err(WireError::OverLimit);
        }
        vlq_write(buffer, size as u128);
        buffer.extend_from_slice(bytes);
        proof {
            assert(buffer@ =~= old(buffer)@ + self.wire_enc());
        }
        Ok(())
    }
}

impl PacketRead for Component {
    open spec fn wire_parse(s: Seq<u8>) -> PRead<Seq<char>> {
        match vlq_parse(s, 5) {
            VlqParse::Short => PRead::Fail(WireError::Io(IoKind::UnexpectedEof)),
            VlqParse::TooLong => PRead::Fail(
                WireError::Framing(crate::error::FramingKind::VarIntTooLong),
            ),
            VlqParse::Val(v, n) => {
                let size = vlq_as_i32(v);
                if size < 0 || size > MAX_COMPONENT_JSON_SIZE as int {
                    PRead::Fail(WireError::OverLimit)
                } else if s.len() - n < size {
                    PRead::Fail(WireError::Io(IoKind::UnexpectedEof))
                } else if valid_utf8(s.subrange(n as int, n + size)) {
                    PRead::Val(decode_utf8(s.subrange(n as int, n + size)), n + size)
                } else {
                    PRead::Fail(WireError::Malformed(MalformedKind::BadUtf8))
                }
            },
        }
    }

    fn pack_read(data: &Vec<u8>, pos: &mut usize, target_version: u32) -> (r: Result<
        Component,
        WireError,
    >) {
        let start: usize = *pos;
        match vlq_read(data, start, 5) {
            Err(e) => Err(e),
            Ok((v, after)) => {
                let low: u32 = (v % 0x1_0000_0000) as u32;
                let size_i: i32 = #[verifier::truncate] (low as i32);
                if size_i < 0 {
                    return Err(WireError::OverLimit);
                }
                let size: usize = size_i as usize;
                if size > MAX_COMPONENT_JSON_SIZE {
                    return Err(WireError::OverLimit);
                }
                if data.len() - after < size {
                    return Err(WireError::Io(IoKind::UnexpectedEof));
                }
                let bytes: Vec<u8> = copy_range(data, after, size);
                proof {
                    let s = data@.skip(start as int);
                    let n = after - start;
                    assert(bytes@ =~= s.subrange(n as int, n + size));
                }
                match utf8_to_string(bytes) {
                    Some(st) => {
                        *pos = after + size;
                        Ok(Component { json: st })
                    },
                    None => Err(WireError::Malformed(MalformedKind::BadUtf8)),
                }
            },
        }
    }

    proof fn lemma_enc_parse_exact(v: Self) {
        Self::lemma_enc_parse(v, Seq::empty());
        assert(v.wire_enc() + Seq::<u8>::empty() =~= v.wire_enc());
    }
}

impl PrefixRead for Component {
    proof fn lemma_enc_parse(v: Self, rest: Seq<u8>) {
        let b = encode_utf8(v.spec_json());
        let lb = b.len();
        assert(pow128(5nat) == 0x8_0000_0000) by {
            reveal_with_fuel(pow128, 6);
        };
        lemma_vlq_enc_len(lb, 5);
        let s = v.wire_enc() + rest;
        assert(s =~= vlq_enc(lb) + (b + rest));
        lemma_vlq_parse_enc(lb, b + rest, 5);
        let n = vlq_enc(lb).len() as int;
        assert(s.subrange(n, n + lb as int) =~= b);
        vstd::utf8::encode_utf8_valid_utf8(v.spec_json());
        vstd::utf8::encode_utf8_decode_utf8(v.spec_json());
    }
}

} // verus!

verus! {

/// The JSON escape of one character inside a string literal: quote and
/// backslash are escaped, the common control characters take their short
/// forms, the rest of the control range takes `\u00XX`, and every other
/// character stands for itself.
pub open spec fn esc_char(c: char) -> Seq<char> {
    if c == '"' {
        seq!['\\', '"']
    } else if c == '\\' {
        seq!['\\', '\\']
    } else if c as u32 == 10 {
        seq!['\\', 'n']
    } else if c as u32 == 13 {
        seq!['\\', 'r']
    } else if c as u32 == 9 {
        seq!['\\', 't']
    } else if (c as u32) < 32 {
        seq!['\\', 'u', '0', '0', crate::util::hex_digit((c as u32 / 16) as nat),
            crate::util::hex_digit((c as u32 % 16) as nat)]
    } else {
        seq![c]
    }
}

/// Whether `c` stands for itself inside a JSON string literal.
pub open spec fn json_safe_char(c: char) -> bool {
    c != '"' && c != '\\' && (c as u32) >= 32
}

/// The body of the JSON string literal for `s`.
pub open spec fn json_escape(s: Seq<char>) -> Seq<char>
    decreases s.len(),
{
    if s.len() == 0 {
        Seq::empty()
    } else {
        esc_char(s[0]) + json_escape(s.skip(1))
    }
}

/// The full JSON string literal for `s`, quotes included.
pub open spec fn json_string(s: Seq<char>) -> Seq<char> {
    seq!['"'] + json_escape(s) + seq!['"']
}

/// Escaping distributes over concatenation.
pub proof fn lemma_json_escape_append(a: Seq<char>, b: Seq<char>)
    ensures
        json_escape(a + b) == json_escape(a) + json_escape(b),
    decreases a.len(),
{
    if a.len() == 0 {
        assert(a + b =~= b);
        assert(json_escape(a) =~= Seq::<char>::empty());
        assert(Seq::<char>::empty() + json_escape(b) =~= json_escape(b));
    } else {
        assert((a + b)[0] == a[0]);
        assert((a + b).skip(1) =~= a.skip(1) + b);
        lemma_json_escape_append(a.skip(1), b);
        assert(esc_char(a[0]) + (json_escape(a.skip(1)) + json_escape(b)) =~= (esc_char(a[0])
            + json_escape(a.skip(1))) + json_escape(b));
    }
}

/// A run of safe characters escapes to itself.
pub proof fn lemma_json_escape_safe(s: Seq<char>)
    requires
        forall|i: int| 0 <= i < s.len() ==> json_safe_char(#[trigger] s[i]),
    ensures
        json_escape(s) == s,
    decreases s.len(),
{
    if s.len() > 0 {
        assert(esc_char(s[0]) =~= seq![s[0]]);
        lemma_json_escape_safe(s.skip(1));
        assert(seq![s[0]] + s.skip(1) =~= s);
    }
}

/// The escape of one unsafe character, as a string.
fn esc_unsafe(c: char) -> (r: String)
    requires
        !json_safe_char(c),
    ensures
        r@ == esc_char(c),
{
    let u: u32 = c as u32;
    if u == 34 {
        proof {
            reveal_strlit("\\\"");
            assert("\\\""@ =~= seq!['\\', '"']);
        }
        String::from_str("\\\"")
    } else if u == 92 {
        proof {
            reveal_strlit("\\\\");
            assert("\\\\"@ =~= seq!['\\', '\\']);
        }
        String::from_str("\\\\")
    } else if u == 10 {
        proof {
            reveal_strlit("\\n");
            assert("\\n"@ =~= seq!['\\', 'n']);
        }
        String::from_str("\\n")
    } else if u == 13 {
        proof {
            reveal_strlit("\\r");
            assert("\\r"@ =~= seq!['\\', 'r']);
        }
        String::from_str("\\r")
    } else if u == 9 {
        proof {
            reveal_strlit("\\t");
            assert("\\t"@ =~= seq!['\\', 't']);
        }
        String::from_str("\\t")
    } else {
        proof {
            reveal_strlit("\\u00");
            assert("\\u00"@ =~= seq!['\\', 'u', '0', '0']);
        }
        let hi: String = crate::util::hex_pad_string((u / 16) as u128, 1);
        let lo: String = crate::util::hex_pad_string((u % 16) as u128, 1);
        let r: String = String::from_str("\\u00").concat(hi.as_str()).concat(lo.as_str());
        proof {
            reveal_with_fuel(crate::util::hex_pad, 3);
            assert(crate::util::hex_pad((u / 16) as nat, 1) =~= seq![
                crate::util::hex_digit((u / 16) as nat),
            ]);
            assert(crate::util::hex_pad((u % 16) as nat, 1) =~= seq![
                crate::util::hex_digit((u % 16) as nat),
            ]);
            assert(r@ =~= esc_char(c));
        }
        r
    }
}

/// Whether `c` stands for itself inside a JSON string literal.
fn json_safe(c: char) -> (b: bool)
    ensures
        b == json_safe_char(c),
{
    let u: u32 = c as u32;
    u != 34 && u != 92 && u >= 32
}

/// The body of the JSON string literal for `s`.
#[verifier::loop_isolation(false)]
pub fn json_escape_str(s: &str) -> (r: String)
    ensures
        r@ == json_escape(s@),
{
    let n: usize = s.unicode_len();
    let mut acc: String = String::new();
    let mut start: usize = 0;
    let mut i: usize = 0;
    proof {
        assert(s@.subrange(0, 0) =~= Seq::<char>::empty());
    }
    while i < n
        invariant
            start <= i <= n,
            acc@ == json_escape(s@.subrange(0, start as int)),
            forall|j: int| start <= j < i ==> json_safe_char(#[trigger] s@[j]),
        decreases n - i,
    {
        let c: char = s.get_char(i);
        if json_safe(c) {
            i = i + 1;
        } else {
            let run: &str = s.substring_char(start, i);
            let acc2: String = acc.concat(run);
            let acc3: String = acc2.concat(esc_unsafe(c).as_str());
            proof {
                lemma_json_escape_append(s@.subrange(0, start as int), s@.subrange(
                    start as int,
                    i as int,
                ));
                lemma_json_escape_safe(s@.subrange(start as int, i as int));
                assert(s@.subrange(0, start as int) + s@.subrange(start as int, i as int) =~= s@
                    .subrange(0, i as int));
                lemma_json_escape_append(s@.subrange(0, i as int), seq![s@[i as int]]);
                assert(s@.subrange(0, i as int) + seq![s@[i as int]] =~= s@.subrange(
                    0,
                    i + 1,
                ));
                assert(seq![s@[i as int]].skip(1) =~= Seq::<char>::empty());
                assert(json_escape(Seq::<char>::empty()) =~= Seq::<char>::empty());
                assert(esc_char(s@[i as int]) + Seq::<char>::empty() =~= esc_char(
                    s@[i as int],
                ));
                assert(json_escape(seq![s@[i as int]]) =~= esc_char(s@[i as int]));
                assert(acc3@ =~= json_escape(s@.subrange(0, i + 1)));
            }
            acc = acc3;
            start = i + 1;
            i = i + 1;
        }
    }
    let run: &str = s.substring_char(start, n);
    let r: String = acc.concat(run);
    proof {
        lemma_json_escape_append(s@.subrange(0, start as int), s@.subrange(start as int, n as int));
        lemma_json_escape_safe(s@.subrange(start as int, n as int));
        assert(s@.subrange(0, start as int) + s@.subrange(start as int, n as int) =~= s@.subrange(
            0,
            n as int,
        ));
        assert(s@.subrange(0, n as int) =~= s@);
    }
    r
}

/// The full JSON string literal for `s`, quotes included.
pub fn json_string_of(s: &str) -> (r: String)
    ensures
        r@ == json_string(s@),
{
    proof {
        reveal_strlit("\"");
        assert("\""@ =~= seq!['"']);
    }
    let r: String = String::from_str("\"").concat(json_escape_str(s).as_str()).concat("\"");
    proof {
        assert(r@ =~= json_string(s@));
    }
    r
}

impl Component {
    /// A plain text component: `{"text":...}` with the text escaped.
    pub fn plain(text: &str) -> (r: Component)
        ensures
            r.spec_json() == "{\"text\":"@ + json_string(text@) + "}"@,
    {
        let body: String = String::from_str("{\"text\":").concat(
            json_string_of(text).as_str(),
        ).concat("}");
        Component { json: body }
    }
}

} // verus!
