//! AES-128-CFB8 stream ciphers with persistent state, as the protocol's
//! encryption layer uses them: the 16-byte shared secret serves as both key
//! and initialisation vector, and the cipher state runs on across packets.
//!
//! The model: a cipher's state is its key and its 16-byte shift register.
//! Each byte of keystream is the first byte of the AES encryption of the
//! register; the register then drops its oldest byte and takes the
//! ciphertext byte. Only the AES block computation itself is trusted; the
//! byte-by-byte feedback is carried out and verified here.

use vstd::prelude::*;

use aes::Aes128;
use cfb8::cipher::KeyIvInit;
use cfb8::{Decryptor, Encryptor};

verus! {

/// The first byte of the AES-128 encryption of `register` under `key`:
/// the CFB8 keystream byte. Named, never spelled out; `aes::Aes128` is the
/// only code that computes it.
pub uninterp spec fn aes128_keystream_byte(key: Seq<u8>, register: Seq<u8>) -> u8;

/// Holds the outside encrypting cipher. Verus cannot declare
/// `cfb8::Encryptor` itself, because its generic parameter carries an
/// outside trait bound, so the value is held opaquely.
#[verifier::external_body]
pub struct RawCfb8Encryptor {
    inner: Encryptor<Aes128>,
}

/// Holds the outside decrypting cipher, opaquely, for the same reason.
#[verifier::external_body]
pub struct RawCfb8Decryptor {
    inner: Decryptor<Aes128>,
}

/// The register after one ciphertext byte: drop the oldest, take the byte.
pub open spec fn cfb8_shift(register: Seq<u8>, c: u8) -> Seq<u8> {
    register.skip(1).push(c)
}

/// The ciphertext of `plain` under `key`, starting from `register`.
pub open spec fn cfb8_encrypt(key: Seq<u8>, register: Seq<u8>, plain: Seq<u8>) -> Seq<u8>
    decreases plain.len(),
{
    if plain.len() == 0 {
        Seq::empty()
    } else {
        let c = plain[0] ^ aes128_keystream_byte(key, register);
        seq![c] + cfb8_encrypt(key, cfb8_shift(register, c), plain.skip(1))
    }
}

/// The register after encrypting `plain` from `register`.
pub open spec fn cfb8_enc_register(key: Seq<u8>, register: Seq<u8>, plain: Seq<u8>) -> Seq<u8>
    decreases plain.len(),
{
    if plain.len() == 0 {
        register
    } else {
        let c = plain[0] ^ aes128_keystream_byte(key, register);
        cfb8_enc_register(key, cfb8_shift(register, c), plain.skip(1))
    }
}

/// The plaintext of `cipher` under `key`, starting from `register`.
pub open spec fn cfb8_decrypt(key: Seq<u8>, register: Seq<u8>, cipher: Seq<u8>) -> Seq<u8>
    decreases cipher.len(),
{
    if cipher.len() == 0 {
        Seq::empty()
    } else {
        let p = cipher[0] ^ aes128_keystream_byte(key, register);
        seq![p] + cfb8_decrypt(key, cfb8_shift(register, cipher[0]), cipher.skip(1))
    }
}

/// The register after decrypting `cipher` from `register`: it advances by
/// the ciphertext bytes, exactly as the encrypting side's does.
pub open spec fn cfb8_dec_register(key: Seq<u8>, register: Seq<u8>, cipher: Seq<u8>) -> Seq<u8>
    decreases cipher.len(),
{
    if cipher.len() == 0 {
        register
    } else {
        cfb8_dec_register(key, cfb8_shift(register, cipher[0]), cipher.skip(1))
    }
}

/// Encryption continuity: a decryptor that starts in step with the
/// encryptor recovers the plaintext, and both registers stay in step.
pub proof fn lemma_cfb8_roundtrip(key: Seq<u8>, register: Seq<u8>, plain: Seq<u8>)
    ensures
        cfb8_decrypt(key, register, cfb8_encrypt(key, register, plain)) == plain,
        cfb8_dec_register(key, register, cfb8_encrypt(key, register, plain))
            == cfb8_enc_register(key, register, plain),
    decreases plain.len(),
{
    if plain.len() > 0 {
        let k = aes128_keystream_byte(key, register);
        let p0 = plain[0];
        let c = p0 ^ k;
        assert((p0 ^ k) ^ k == p0) by (bit_vector);
        let cip = cfb8_encrypt(key, register, plain);
        assert(cip[0] == c);
        assert(cip.skip(1) =~= cfb8_encrypt(key, cfb8_shift(register, c), plain.skip(1)));
        lemma_cfb8_roundtrip(key, cfb8_shift(register, c), plain.skip(1));
        assert(cfb8_decrypt(key, register, cip) =~= plain);
    } else {
        assert(cfb8_decrypt(key, register, cfb8_encrypt(key, register, plain)) =~= plain);
    }
}

/// An encrypting AES-128-CFB8 cipher and its model state.
pub struct StreamEncryptor {
    inner: RawCfb8Encryptor,
    key: Ghost<Seq<u8>>,
    register: Ghost<Seq<u8>>,
}

/// A decrypting AES-128-CFB8 cipher and its model state.
pub struct StreamDecryptor {
    inner: RawCfb8Decryptor,
    key: Ghost<Seq<u8>>,
    register: Ghost<Seq<u8>>,
}

/// Relies on `cfb8::Encryptor::<aes::Aes128>::new_from_slices`: sixteen-byte
/// key and IV are accepted, and the IV becomes the initial shift register.
#[verifier::external_body]
fn mk_encryptor(key: &[u8; 16]) -> RawCfb8Encryptor {
    RawCfb8Encryptor {
        inner: Encryptor::<Aes128>::new_from_slices(key, key).expect(
            "a 16-byte key and IV fit AES-128-CFB8",
        ),
    }
}

/// Relies on `cfb8::Decryptor::<aes::Aes128>::new_from_slices`: sixteen-byte
/// key and IV are accepted, and the IV becomes the initial shift register.
#[verifier::external_body]
fn mk_decryptor(key: &[u8; 16]) -> RawCfb8Decryptor {
    RawCfb8Decryptor {
        inner: Decryptor::<Aes128>::new_from_slices(key, key).expect(
            "a 16-byte key and IV fit AES-128-CFB8",
        ),
    }
}

impl StreamEncryptor {
    /// The cipher's key.
    pub closed spec fn spec_key(&self) -> Seq<u8> {
        self.key@
    }

    /// The cipher's shift register.
    pub closed spec fn spec_register(&self) -> Seq<u8> {
        self.register@
    }

    /// A fresh cipher: the shared secret is both key and register.
    pub fn new(key: &[u8; 16]) -> (r: StreamEncryptor)
        ensures
            r.spec_key() == key@,
            r.spec_register() == key@,
    {
        StreamEncryptor { inner: mk_encryptor(key), key: Ghost(key@), register: Ghost(key@) }
    }

    /// Relies on `cfb8::Encryptor::<aes::Aes128>::encrypt` on one byte: the
    /// ciphertext byte is the plaintext xored with the first byte of the
    /// AES encryption of the shift register, and the register then shifts
    /// the ciphertext byte in.
    #[verifier::external_body]
    fn encrypt_byte(&mut self, p: u8) -> (c: u8)
        ensures
            c == (p ^ aes128_keystream_byte(old(self).spec_key(), old(self).spec_register())),
            final(self).spec_key() == old(self).spec_key(),
            final(self).spec_register() == cfb8_shift(old(self).spec_register(), c),
    {
        let mut buf = [p];
        self.inner.inner.encrypt(&mut buf);
        buf[0]
    }

    /// Encrypt a buffer in place, advancing the cipher state byte by byte.
    pub fn encrypt_buffer(&mut self, data: &mut Vec<u8>)
        ensures
            final(data)@ == cfb8_encrypt(
                old(self).spec_key(),
                old(self).spec_register(),
                old(data)@,
            ),
            final(self).spec_key() == old(self).spec_key(),
            final(self).spec_register() == cfb8_enc_register(
                old(self).spec_key(),
                old(self).spec_register(),
                old(data)@,
            ),
    {
        let ghost key = self.spec_key();
        let ghost reg0 = self.spec_register();
        let ghost plain0 = data@;
        let n: usize = data.len();
        let mut i: usize = 0;
        proof {
            assert(plain0.skip(0) =~= plain0);
            assert(data@.subrange(0, 0) =~= Seq::<u8>::empty());
            assert(Seq::<u8>::empty() + cfb8_encrypt(key, reg0, plain0) =~= cfb8_encrypt(
                key,
                reg0,
                plain0,
            ));
        }
        while i < n
            invariant
                i <= n,
                n == data@.len(),
                data@.len() == plain0.len(),
                self.spec_key() == key,
                data@.skip(i as int) == plain0.skip(i as int),
                cfb8_encrypt(key, reg0, plain0) == data@.subrange(0, i as int) + cfb8_encrypt(
                    key,
                    self.spec_register(),
                    plain0.skip(i as int),
                ),
                cfb8_enc_register(key, reg0, plain0) == cfb8_enc_register(
                    key,
                    self.spec_register(),
                    plain0.skip(i as int),
                ),
            decreases n - i,
        {
            let ghost reg_i = self.spec_register();
            let p: u8 = data[i];
            let c: u8 = self.encrypt_byte(p);
            data.set(i, c);
            proof {
                assert(plain0.skip(i as int)[0] == p);
                assert(plain0.skip(i as int).skip(1) =~= plain0.skip(i + 1));
                assert(data@.subrange(0, i + 1) =~= data@.subrange(0, i as int).push(c));
                assert(data@.skip(i + 1) =~= plain0.skip(i + 1));
                assert(data@.subrange(0, i as int).push(c) + cfb8_encrypt(
                    key,
                    self.spec_register(),
                    plain0.skip(i + 1),
                ) =~= data@.subrange(0, i as int) + (seq![c] + cfb8_encrypt(
                    key,
                    self.spec_register(),
                    plain0.skip(i + 1),
                )));
            }
            i = i + 1;
        }
        proof {
            assert(plain0.skip(n as int) =~= Seq::<u8>::empty());
            assert(data@.subrange(0, n as int) =~= data@);
            assert(data@ + Seq::<u8>::empty() =~= data@);
        }
    }
}

impl StreamDecryptor {
    /// The cipher's key.
    pub closed spec fn spec_key(&self) -> Seq<u8> {
        self.key@
    }

    /// The cipher's shift register.
    pub closed spec fn spec_register(&self) -> Seq<u8> {
        self.register@
    }

    /// A fresh cipher: the shared secret is both key and register.
    pub fn new(key: &[u8; 16]) -> (r: StreamDecryptor)
        ensures
            r.spec_key() == key@,
            r.spec_register() == key@,
    {
        StreamDecryptor { inner: mk_decryptor(key), key: Ghost(key@), register: Ghost(key@) }
    }

    /// Relies on `cfb8::Decryptor::<aes::Aes128>::decrypt` on one byte: the
    /// plaintext byte is the ciphertext xored with the first byte of the
    /// AES encryption of the shift register, and the register then shifts
    /// the ciphertext byte in.
    #[verifier::external_body]
    fn decrypt_byte(&mut self, c: u8) -> (p: u8)
        ensures
            p == (c ^ aes128_keystream_byte(old(self).spec_key(), old(self).spec_register())),
            final(self).spec_key() == old(self).spec_key(),
            final(self).spec_register() == cfb8_shift(old(self).spec_register(), c),
    {
        let mut buf = [c];
        self.inner.inner.decrypt(&mut buf);
        buf[0]
    }

    /// Decrypt received bytes, appending the plaintext to `out` and
    /// advancing the cipher state byte by byte.
    pub fn decrypt_into(&mut self, cipher: &[u8], out: &mut Vec<u8>)
        ensures
            final(out)@ == old(out)@ + cfb8_decrypt(
                old(self).spec_key(),
                old(self).spec_register(),
                cipher@,
            ),
            final(self).spec_key() == old(self).spec_key(),
            final(self).spec_register() == cfb8_dec_register(
                old(self).spec_key(),
                old(self).spec_register(),
                cipher@,
            ),
    {
        let ghost key = self.spec_key();
        let ghost reg0 = self.spec_register();
        let n: usize = cipher.len();
        let mut i: usize = 0;
        while i < n
            invariant
                i <= n,
                n == cipher@.len(),
                self.spec_key() == key,
                out@ == old(out)@ + cfb8_decrypt(key, reg0, cipher@.subrange(0, i as int)),
                self.spec_register() == cfb8_dec_register(
                    key,
                    reg0,
                    cipher@.subrange(0, i as int),
                ),
            decreases n - i,
        {
            let c: u8 = cipher[i];
            let p: u8 = self.decrypt_byte(c);
            out.push(p);
            proof {
                lemma_cfb8_decrypt_snoc(key, reg0, cipher@.subrange(0, i as int), c);
                assert(cipher@.subrange(0, i + 1) =~= cipher@.subrange(0, i as int).push(c));
            }
            i = i + 1;
        }
        proof {
            assert(cipher@.subrange(0, n as int) =~= cipher@);
        }
    }
}

/// Decrypting one more byte extends the plaintext by one byte computed from
/// the register the prior ciphertext left behind.
proof fn lemma_cfb8_decrypt_snoc(key: Seq<u8>, register: Seq<u8>, cipher: Seq<u8>, c: u8)
    ensures
        cfb8_decrypt(key, register, cipher.push(c)) == cfb8_decrypt(key, register, cipher).push(
            (c ^ aes128_keystream_byte(key, cfb8_dec_register(key, register, cipher))),
        ),
        cfb8_dec_register(key, register, cipher.push(c)) == cfb8_shift(
            cfb8_dec_register(key, register, cipher),
            c,
        ),
    decreases cipher.len(),
{
    let t = cipher.push(c);
    if cipher.len() == 0 {
        let p = c ^ aes128_keystream_byte(key, register);
        assert(t[0] == c);
        assert(t.skip(1) =~= Seq::<u8>::empty());
        assert(cfb8_dec_register(key, cfb8_shift(register, c), t.skip(1)) == cfb8_shift(
            register,
            c,
        ));
        assert(cfb8_decrypt(key, cfb8_shift(register, c), t.skip(1)) =~= Seq::<u8>::empty());
        assert(cfb8_decrypt(key, register, t) =~= seq![p]);
        assert(cfb8_decrypt(key, register, cipher) =~= Seq::<u8>::empty());
        assert(cfb8_decrypt(key, register, cipher).push(p) =~= seq![p]);
    } else {
        let h = cipher[0];
        let sh = cfb8_shift(register, h);
        let p0 = h ^ aes128_keystream_byte(key, register);
        assert(t[0] == h);
        assert(t.skip(1) =~= cipher.skip(1).push(c));
        lemma_cfb8_decrypt_snoc(key, sh, cipher.skip(1), c);
        assert(cfb8_dec_register(key, register, cipher) == cfb8_dec_register(
            key,
            sh,
            cipher.skip(1),
        ));
        assert(cfb8_dec_register(key, register, t) == cfb8_dec_register(key, sh, t.skip(1)));
        let y = c ^ aes128_keystream_byte(key, cfb8_dec_register(key, register, cipher));
        assert(cfb8_decrypt(key, register, t) == seq![p0] + cfb8_decrypt(key, sh, t.skip(1)));
        assert(cfb8_decrypt(key, sh, t.skip(1)) == cfb8_decrypt(key, sh, cipher.skip(1)).push(
            y,
        ));
        assert(cfb8_decrypt(key, register, cipher) == seq![p0] + cfb8_decrypt(
            key,
            sh,
            cipher.skip(1),
        ));
        assert(seq![p0] + cfb8_decrypt(key, sh, cipher.skip(1)).push(y) =~= (seq![p0]
            + cfb8_decrypt(key, sh, cipher.skip(1))).push(y));
    }
}

} // verus!

verus! {

/// Check a negotiated shared secret's size: only sixteen bytes fit the
/// AES-128-CFB8 setup.
pub fn shared_secret_from_bytes(bytes: &Vec<u8>) -> (r: Result<[u8; 16], crate::error::WireError>)
    ensures
        r is Ok <==> bytes@.len() == 16,
        r matches Ok(k) ==> k@ == bytes@,
        r is Err ==> r == Err::<[u8; 16], crate::error::WireError>(crate::error::WireError::Cipher),
{
    if bytes.len() != 16 {
        return Err(crate::error::WireError::Cipher);
    }
    let key: [u8; 16] = [
        bytes[0],
        bytes[1],
        bytes[2],
        bytes[3],
        bytes[4],
        bytes[5],
        bytes[6],
        bytes[7],
        bytes[8],
        bytes[9],
        bytes[10],
        bytes[11],
        bytes[12],
        bytes[13],
        bytes[14],
        bytes[15],
    ];
    proof {
        assert(key@ =~= bytes@);
    }
    Ok(key)
}

} // verus!
