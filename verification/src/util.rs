//! Domain identifiers of the form `namespace:path`, with their validators.
//!
//! A namespace is one or more of `a-z`, `0-9`, `.`, `_`, `-`; a path allows
//! the same characters plus `/`. `parse` splits on the first colon and
//! requires both halves to validate.

use vstd::prelude::*;

use crate::error::{MalformedKind, WireError};
use crate::net_io::{PacketRead, PacketWrite, PrefixRead, PRead, MAX_STRING_SIZE};

verus! {

/// Whether `c` may appear in a namespace: `a-z`, `0-9`, `.`, `_` or `-`.
pub open spec fn is_ns_char(c: char) -> bool {
    let u = c as u32;
    (97 <= u && u <= 122) || (48 <= u && u <= 57) || u == 46 || u == 95 || u == 45
}

/// Whether `c` may appear in a path: a namespace character or `/`.
pub open spec fn is_path_char(c: char) -> bool {
    is_ns_char(c) || c as u32 == 47
}

/// A namespace: nonempty, namespace characters only.
pub open spec fn valid_namespace(s: Seq<char>) -> bool {
    s.len() >= 1 && forall|i: int| 0 <= i < s.len() ==> is_ns_char(#[trigger] s[i])
}

/// A path: nonempty, path characters only.
pub open spec fn valid_path(s: Seq<char>) -> bool {
    s.len() >= 1 && forall|i: int| 0 <= i < s.len() ==> is_path_char(#[trigger] s[i])
}

/// Whether splitting `s` at position `i` yields a valid identifier: a valid
/// namespace, a colon, then a valid path.
pub open spec fn valid_split(s: Seq<char>, i: int) -> bool {
    0 <= i < s.len() && s[i] as u32 == 58 && valid_namespace(s.subrange(0, i)) && valid_path(
        s.subrange(i + 1, s.len() as int),
    )
}

/// Whether `s` is a well-formed `namespace:path` identifier string.
pub open spec fn valid_identifier(s: Seq<char>) -> bool {
    exists|i: int| valid_split(s, i)
}

/// A colon can stand at only one valid split point, because neither half's
/// alphabet contains a colon.
pub proof fn lemma_split_unique(s: Seq<char>, i: int, j: int)
    requires
        valid_split(s, i),
        valid_split(s, j),
    ensures
        i == j,
{
    if i < j {
        assert(s.subrange(0, j)[i] == s[i]);
        assert(is_ns_char(s[i]));
    } else if j < i {
        assert(s.subrange(0, i)[j] == s[j]);
        assert(is_ns_char(s[j]));
    }
}

/// The split position of a valid identifier string.
pub open spec fn split_of(s: Seq<char>) -> int {
    choose|i: int| valid_split(s, i)
}

/// The namespace half of a valid identifier string.
pub open spec fn namespace_of(s: Seq<char>) -> Seq<char> {
    s.subrange(0, split_of(s))
}

/// The path half of a valid identifier string.
pub open spec fn path_of(s: Seq<char>) -> Seq<char> {
    s.subrange(split_of(s) + 1, s.len() as int)
}

/// A validated `namespace:path` identifier.
#[derive(Debug, Clone, PartialEq, Eq, Hash)]
pub struct Identifier {
    namespace: String,
    path: String,
}

/// Something that is addressed by an identifier.
pub trait Identified {
    /// The identifier of this value.
    fn id(&self) -> Identifier;
}

/// Whether `c` is a namespace character.
fn ns_char(c: char) -> (b: bool)
    ensures
        b == is_ns_char(c),
{
    let u: u32 = c as u32;
    (97 <= u && u <= 122) || (48 <= u && u <= 57) || u == 46 || u == 95 || u == 45
}

/// Whether `c` is a path character.
fn path_char(c: char) -> (b: bool)
    ensures
        b == is_path_char(c),
{
    let u: u32 = c as u32;
    ns_char(c) || u == 47
}

/// Whether `s` is a valid namespace.
fn check_namespace(s: &str) -> (b: bool)
    ensures
        b == valid_namespace(s@),
{
    let n: usize = s.unicode_len();
    if n == 0 {
        return false;
    }
    let mut i: usize = 0;
    while i < n
        invariant
            i <= n,
            n == s@.len(),
            forall|j: int| 0 <= j < i ==> is_ns_char(#[trigger] s@[j]),
        decreases n - i,
    {
        let c: char = s.get_char(i);
        if !ns_char(c) {
            return false;
        }
        i = i + 1;
    }
    true
}

/// Whether `s` is a valid path.
fn check_path(s: &str) -> (b: bool)
    ensures
        b == valid_path(s@),
{
    let n: usize = s.unicode_len();
    if n == 0 {
        return false;
    }
    let mut i: usize = 0;
    while i < n
        invariant
            i <= n,
            n == s@.len(),
            forall|j: int| 0 <= j < i ==> is_path_char(#[trigger] s@[j]),
        decreases n - i,
    {
        let c: char = s.get_char(i);
        if !path_char(c) {
            return false;
        }
        i = i + 1;
    }
    true
}

impl Identifier {
    /// The namespace half, as characters.
    pub closed spec fn spec_namespace(&self) -> Seq<char> {
        self.namespace@
    }

    /// The path half, as characters.
    pub closed spec fn spec_path(&self) -> Seq<char> {
        self.path@
    }

    /// The identifier's invariant: both halves validate.
    pub open spec fn wf(&self) -> bool {
        valid_namespace(self.spec_namespace()) && valid_path(self.spec_path())
    }

    /// Build an identifier from its two halves, validating both.
    pub fn new(namespace: String, path: String) -> (r: Result<Identifier, WireError>)
        ensures
            r is Ok <==> valid_namespace(namespace@) && valid_path(path@),
            r matches Ok(id) ==> id.spec_namespace() == namespace@ && id.spec_path() == path@ && id.wf(),
            r is Err ==> r == Err::<Identifier, WireError>(
                WireError::Malformed(MalformedKind::InvalidIdentifier),
            ),
    {
        if check_namespace(namespace.as_str()) && check_path(path.as_str()) {
            Ok(Identifier { namespace, path })
        } else {
            Err(WireError::Malformed(MalformedKind::InvalidIdentifier))
        }
    }

    /// Build an identifier in the `soulflame` namespace.
    pub fn soulflame(path: String) -> (r: Result<Identifier, WireError>)
        ensures
            r is Ok <==> valid_path(path@),
            r matches Ok(id) ==> id.spec_namespace() == "soulflame"@ && id.spec_path() == path@ && id.wf(),
            r is Err ==> r == Err::<Identifier, WireError>(
                WireError::Malformed(MalformedKind::InvalidIdentifier),
            ),
    {
        proof {
            reveal_strlit("soulflame");
        }
        if check_path(path.as_str()) {
            Ok(Identifier { namespace: String::from_str("soulflame"), path })
        } else {
            Err(WireError::Malformed(MalformedKind::InvalidIdentifier))
        }
    }

    /// Build an identifier in the `minecraft` namespace.
    pub fn minecraft(path: String) -> (r: Result<Identifier, WireError>)
        ensures
            r is Ok <==> valid_path(path@),
            r matches Ok(id) ==> id.spec_namespace() == "minecraft"@ && id.spec_path() == path@ && id.wf(),
            r is Err ==> r == Err::<Identifier, WireError>(
                WireError::Malformed(MalformedKind::InvalidIdentifier),
            ),
    {
        proof {
            reveal_strlit("minecraft");
        }
        if check_path(path.as_str()) {
            Ok(Identifier { namespace: String::from_str("minecraft"), path })
        } else {
            Err(WireError::Malformed(MalformedKind::InvalidIdentifier))
        }
    }

    /// The path half.
    pub fn path(&self) -> (r: String)
        ensures
            r@ == self.spec_path(),
    {
        self.path.clone()
    }

    /// The namespace half.
    pub fn namespace(&self) -> (r: String)
        ensures
            r@ == self.spec_namespace(),
    {
        self.namespace.clone()
    }

    /// Split `from` on its first colon and validate both halves.
    #[verifier::loop_isolation(false)]
    pub fn parse(from: String) -> (r: Result<Identifier, WireError>)
        ensures
            r is Ok <==> valid_identifier(from@),
            r matches Ok(id) ==> id.wf() && exists|i: int|
                valid_split(from@, i) && id.spec_namespace() == from@.subrange(0, i) && id.spec_path()
                    == from@.subrange(i + 1, from@.len() as int),
            r is Err ==> r == Err::<Identifier, WireError>(
                WireError::Malformed(MalformedKind::InvalidIdentifier),
            ),
    {
        let s: &str = from.as_str();
        let n: usize = s.unicode_len();
        let mut i: usize = 0;
        let mut col: usize = n;
        while i < n && col == n
            invariant
                i <= n,
                col == n || (col < i && s@[col as int] as u32 == 58),
                forall|j: int| 0 <= j < i && j != col ==> (#[trigger] s@[j]) as u32 != 58,
            decreases n - i,
        {
            let c: char = s.get_char(i);
            if c as u32 == 58 {
                col = i;
            }
            i = i + 1;
        }
        if col == n {
            proof {
                assert forall|k: int| !valid_split(from@, k) by {
                    if 0 <= k < from@.len() {
                        assert(from@[k] as u32 != 58);
                    }
                };
            }
            return Err(WireError::Malformed(MalformedKind::InvalidIdentifier));
        }
        let ns_str: &str = s.substring_char(0, col);
        let p_str: &str = s.substring_char(col + 1, n);
        if check_namespace(ns_str) && check_path(p_str) {
            proof {
                assert(valid_split(from@, col as int));
            }
            Ok(Identifier { namespace: ns_str.to_owned(), path: p_str.to_owned() })
        } else {
            proof {
                assert forall|k: int| !valid_split(from@, k) by {
                    if 0 <= k < from@.len() && from@[k] as u32 == 58 {
                        if k < col as int {
                            assert(from@[k] as u32 != 58);
                        } else if k > col as int {
                            if valid_namespace(from@.subrange(0, k)) {
                                assert(is_ns_char(from@.subrange(0, k)[col as int]));
                            }
                        }
                    }
                };
            }
            Err(WireError::Malformed(MalformedKind::InvalidIdentifier))
        }
    }

    /// The identifier as its `namespace:path` string.
    pub fn to_string(&self) -> (r: String)
        ensures
            r@ == self.spec_namespace() + seq![':'] + self.spec_path(),
    {
        proof {
            reveal_strlit(":");
            assert(":"@ =~= seq![':']);
        }
        let joined: String = self.namespace.clone().concat(":");
        let r: String = joined.concat(self.path.as_str());
        proof {
            assert((self.namespace@ + ":"@) + self.path@ =~= self.namespace@ + seq![':']
                + self.path@);
        }
        r
    }
}

} // verus!

verus! {

impl DeepView for Identifier {
    type V = (Seq<char>, Seq<char>);

    open spec fn deep_view(&self) -> (Seq<char>, Seq<char>) {
        (self.spec_namespace(), self.spec_path())
    }
}

impl Identifier {
    /// The identifier's full `namespace:path` character sequence.
    pub open spec fn spec_full(&self) -> Seq<char> {
        self.spec_namespace() + seq![':'] + self.spec_path()
    }
}

impl PacketWrite for Identifier {
    open spec fn wire_wf(&self) -> bool {
        self.wf() && vstd::utf8::encode_utf8(self.spec_full()).len() <= MAX_STRING_SIZE
    }

    open spec fn wire_enc(&self) -> Seq<u8> {
        crate::net_io::str_wire_enc(self.spec_full())
    }

    open spec fn wire_write_err(&self) -> WireError {
        if !self.wf() {
            WireError::Malformed(MalformedKind::InvalidIdentifier)
        } else {
            WireError::OverLimit
        }
    }

    fn pack_write(&self, buffer: &mut Vec<u8>, target_version: u32) -> (r: Result<
        (),
        WireError,
    >) {
        if !(check_namespace(self.namespace.as_str()) && check_path(self.path.as_str())) {
            return Err(WireError::Malformed(MalformedKind::InvalidIdentifier));
        }
        let st: String = self.to_string();
        st.pack_write(buffer, target_version)
    }
}

impl PacketRead for Identifier {
    open spec fn wire_parse(s: Seq<u8>) -> PRead<(Seq<char>, Seq<char>)> {
        match <String as PacketRead>::wire_parse(s) {
            PRead::Val(chars, n) => if valid_identifier(chars) {
                PRead::Val((namespace_of(chars), path_of(chars)), n)
            } else {
                PRead::Fail(WireError::Malformed(MalformedKind::InvalidIdentifier))
            },
            PRead::Fail(e) => PRead::Fail(e),
        }
    }

    fn pack_read(data: &Vec<u8>, pos: &mut usize, target_version: u32) -> (r: Result<
        Identifier,
        WireError,
    >) {
        match <String as PacketRead>::pack_read(data, pos, target_version) {
            Err(e) => Err(e),
            Ok(st) => {
                let ghost chars = st@;
                match Identifier::parse(st) {
                    Ok(id) => {
                        proof {
                            let i = choose|i: int|
                                valid_split(chars, i) && id.spec_namespace() == chars.subrange(
                                    0,
                                    i,
                                ) && id.spec_path() == chars.subrange(i + 1, chars.len() as int);
                            lemma_split_unique(chars, i, split_of(chars));
                        }
                        Ok(id)
                    },
                    Err(e) => Err(WireError::Malformed(MalformedKind::InvalidIdentifier)),
                }
            },
        }
    }

    proof fn lemma_enc_parse_exact(v: Self) {
        Self::lemma_enc_parse(v, Seq::empty());
        assert(v.wire_enc() + Seq::<u8>::empty() =~= v.wire_enc());
    }
}

impl PrefixRead for Identifier {
    proof fn lemma_enc_parse(v: Self, rest: Seq<u8>) {
        let full = v.spec_full();
        crate::net_io::lemma_str_enc_parse(full, rest);
        let k = v.spec_namespace().len() as int;
        assert(valid_split(full, k)) by {
            assert(full[k] == ':');
            assert(':' as u32 == 58);
            assert(full.subrange(0, k) =~= v.spec_namespace());
            assert(full.subrange(k + 1, full.len() as int) =~= v.spec_path());
        };
        lemma_split_unique(full, k, split_of(full));
        assert(namespace_of(full) == v.spec_namespace());
        assert(path_of(full) == v.spec_path());
    }
}

} // verus!

verus! {

/// The character for one digit value, `0-9` then `a-f`.
pub open spec fn hex_digit(d: nat) -> char {
    if d == 0 {
        '0'
    } else if d == 1 {
        '1'
    } else if d == 2 {
        '2'
    } else if d == 3 {
        '3'
    } else if d == 4 {
        '4'
    } else if d == 5 {
        '5'
    } else if d == 6 {
        '6'
    } else if d == 7 {
        '7'
    } else if d == 8 {
        '8'
    } else if d == 9 {
        '9'
    } else if d == 10 {
        'a'
    } else if d == 11 {
        'b'
    } else if d == 12 {
        'c'
    } else if d == 13 {
        'd'
    } else if d == 14 {
        'e'
    } else if d == 15 {
        'f'
    } else {
        '0'
    }
}

/// The decimal form of `n`, most significant digit first.
pub open spec fn dec_str(n: nat) -> Seq<char>
    decreases n,
{
    if n < 10 {
        seq![hex_digit(n)]
    } else {
        dec_str(n / 10) + seq![hex_digit(n % 10)]
    }
}

/// The decimal form of a signed value.
pub open spec fn int_dec(v: int) -> Seq<char> {
    if v < 0 {
        seq!['-'] + dec_str((-v) as nat)
    } else {
        dec_str(v as nat)
    }
}

/// `n` in hexadecimal, zero-padded to `w` digits.
pub open spec fn hex_pad(n: nat, w: nat) -> Seq<char>
    decreases w,
{
    if w == 0 {
        Seq::empty()
    } else {
        hex_pad(n / 16, (w - 1) as nat) + seq![hex_digit(n % 16)]
    }
}

/// The hyphenated lower-case text form of a UUID's 128 bits.
pub open spec fn uuid_str(id: u128) -> Seq<char> {
    hex_pad((id as nat) / 0x1000000000000000000000000, 8) + seq!['-'] + hex_pad(
        ((id as nat) / 0x100000000000000000000) % 0x10000,
        4,
    ) + seq!['-'] + hex_pad(((id as nat) / 0x10000000000000000) % 0x10000, 4) + seq!['-']
        + hex_pad(((id as nat) / 0x1000000000000) % 0x10000, 4) + seq!['-'] + hex_pad(
        (id as nat) % 0x1000000000000,
        12,
    )
}

/// The character for one digit value, as a string slice.
fn digit_slice(d: usize) -> (r: &'static str)
    requires
        d < 16,
    ensures
        r@ == seq![hex_digit(d as nat)],
{
    let hex: &'static str = "0123456789abcdef";
    proof {
        reveal_strlit("0123456789abcdef");
    }
    let r: &'static str = hex.substring_char(d, d + 1);
    proof {
        assert(r@ =~= seq![hex_digit(d as nat)]);
    }
    r
}

/// Render `n` in decimal.
pub fn dec_u64(n: u64) -> (r: String)
    ensures
        r@ == dec_str(n as nat),
    decreases n,
{
    if n < 10 {
        String::from_str(digit_slice(n as usize))
    } else {
        let rest: String = dec_u64(n / 10);
        let r: String = rest.concat(digit_slice((n % 10) as usize));
        proof {
            assert(r@ =~= dec_str(n as nat));
        }
        r
    }
}

/// Render a signed 32-bit value in decimal.
pub fn i32_dec_string(v: i32) -> (r: String)
    ensures
        r@ == int_dec(v as int),
{
    if v < 0 {
        let m: u64 = (-(v as i64)) as u64;
        proof {
            reveal_strlit("-");
            assert("-"@ =~= seq!['-']);
        }
        let r: String = String::from_str("-").concat(dec_u64(m).as_str());
        proof {
            assert(r@ =~= int_dec(v as int));
        }
        r
    } else {
        dec_u64(v as u64)
    }
}

/// Render a signed 64-bit value in decimal.
pub fn i64_dec_string(v: i64) -> (r: String)
    ensures
        r@ == int_dec(v as int),
{
    if v < 0 {
        let m: u64 = if v == i64::MIN {
            0x8000_0000_0000_0000u64
        } else {
            (-v) as u64
        };
        proof {
            reveal_strlit("-");
            assert("-"@ =~= seq!['-']);
        }
        let r: String = String::from_str("-").concat(dec_u64(m).as_str());
        proof {
            assert(r@ =~= int_dec(v as int));
        }
        r
    } else {
        dec_u64(v as u64)
    }
}

/// Render `n` in hexadecimal, zero-padded to `w` digits.
pub fn hex_pad_string(n: u128, w: usize) -> (r: String)
    ensures
        r@ == hex_pad(n as nat, w as nat),
    decreases w,
{
    if w == 0 {
        let r: String = String::new();
        proof {
            assert(r@ =~= hex_pad(n as nat, 0));
        }
        r
    } else {
        let rest: String = hex_pad_string(n / 16, w - 1);
        let r: String = rest.concat(digit_slice((n % 16) as usize));
        proof {
            assert(r@ =~= hex_pad(n as nat, w as nat));
        }
        r
    }
}

/// Render a UUID's 128 bits in the hyphenated lower-case form.
pub fn uuid_string(id: u128) -> (r: String)
    ensures
        r@ == uuid_str(id),
{
    proof {
        reveal_strlit("-");
        assert("-"@ =~= seq!['-']);
    }
    let a: String = hex_pad_string(id / 0x1000000000000000000000000, 8);
    let b: String = hex_pad_string((id / 0x100000000000000000000) % 0x10000, 4);
    let c: String = hex_pad_string((id / 0x10000000000000000) % 0x10000, 4);
    let d: String = hex_pad_string((id / 0x1000000000000) % 0x10000, 4);
    let e: String = hex_pad_string(id % 0x1000000000000, 12);
    let r: String = a.concat("-").concat(b.as_str()).concat("-").concat(c.as_str()).concat(
        "-",
    ).concat(d.as_str()).concat("-").concat(e.as_str());
    proof {
        assert(r@ =~= uuid_str(id));
    }
    r
}

} // verus!
