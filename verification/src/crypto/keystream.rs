//! Keystream ciphers: RC4-MD5, ChaCha20 and Salsa20.
//!
//! Each of these ciphers XORs the data with a keystream that is a function
//! of key, IV and byte position alone.  The keystreams are drawn from
//! outside crates and named; the XOR and all position bookkeeping are
//! verified here.

use vstd::prelude::*;
use crate::crypto::CryptoMode;
use crate::crypto::cipher::{md5_digest, md5_of, CipherType};

verus! {

/// The RC4 keystream byte at position `i` for a key.
pub uninterp spec fn rc4_ks_byte(key: Seq<u8>, i: nat) -> u8;

/// The ChaCha20 keystream byte at position `i` for a key and an 8-byte nonce.
pub uninterp spec fn chacha20_ks_byte(key: Seq<u8>, nonce: Seq<u8>, i: nat) -> u8;

/// The Salsa20 keystream byte at position `i` for a key and an 8-byte nonce.
pub uninterp spec fn salsa20_ks_byte(key: Seq<u8>, nonce: Seq<u8>, i: nat) -> u8;

/// Relies on the `rc4` crate: `unchecked_write_keystream` fills the buffer
/// with the RC4 keystream, a function of the key alone.
#[verifier::external_body]
fn rc4_keystream(key: &[u8], n: usize) -> (r: Vec<u8>)
    requires
        1 <= key@.len() <= 256,
    ensures
        r@.len() == n,
        forall|i: int| 0 <= i < n ==> r@[i] == rc4_ks_byte(key@, i as nat),
{
    let mut buf = vec![0u8; n];
    if let Ok(mut c) = <rc4::Rc4 as rc4::KeyInit>::new_from_slice(key) {
        rc4::StreamCipher::unchecked_write_keystream(&mut c, &mut buf);
    }
    buf
}

/// Relies on the `chacha20` crate (`ChaCha20Legacy`, the 8-byte-nonce
/// variant): after seeking to `pos`, `unchecked_write_keystream` fills the
/// buffer with the keystream, a function of key, nonce and position alone.
#[verifier::external_body]
fn chacha20_keystream(key: &[u8], nonce: &[u8], pos: usize, n: usize) -> (r: Vec<u8>)
    requires
        key@.len() == 32,
        nonce@.len() == 8,
    ensures
        r@.len() == n,
        forall|i: int| 0 <= i < n ==> r@[i] == chacha20_ks_byte(key@, nonce@, (pos + i) as nat),
{
    let mut buf = vec![0u8; n];
    if let Ok(mut c) = <chacha20::ChaCha20Legacy as chacha20::cipher::KeyIvInit>::new_from_slices(
        key,
        nonce,
    ) {
        let _ = chacha20::cipher::StreamCipherSeek::try_seek(&mut c, pos as u64);
        chacha20::cipher::StreamCipher::unchecked_write_keystream(&mut c, &mut buf);
    }
    buf
}

/// Relies on the `salsa20` crate: after seeking to `pos`,
/// `unchecked_write_keystream` fills the buffer with the keystream, a
/// function of key, nonce and position alone.
#[verifier::external_body]
fn salsa20_keystream(key: &[u8], nonce: &[u8], pos: usize, n: usize) -> (r: Vec<u8>)
    requires
        key@.len() == 32,
        nonce@.len() == 8,
    ensures
        r@.len() == n,
        forall|i: int| 0 <= i < n ==> r@[i] == salsa20_ks_byte(key@, nonce@, (pos + i) as nat),
{
    let mut buf = vec![0u8; n];
    if let Ok(mut c) = <salsa20::Salsa20 as salsa20::cipher::KeyIvInit>::new_from_slices(
        key,
        nonce,
    ) {
        let _ = salsa20::cipher::StreamCipherSeek::try_seek(&mut c, pos as u64);
        salsa20::cipher::StreamCipher::unchecked_write_keystream(&mut c, &mut buf);
    }
    buf
}

/// Which methods this module implements.
pub open spec fn is_ks_method(t: CipherType) -> bool {
    t is Rc4Md5 || t is ChaCha20 || t is Salsa20
}

/// The keystream byte of a method at position `i`.  RC4-MD5 keys RC4 with
/// `MD5(key || iv)`.
pub open spec fn spec_ks_byte(t: CipherType, key: Seq<u8>, iv: Seq<u8>, i: nat) -> u8 {
    match t {
        CipherType::Rc4Md5 => rc4_ks_byte(md5_of(key + iv), i),
        CipherType::ChaCha20 => chacha20_ks_byte(key, iv, i),
        CipherType::Salsa20 => salsa20_ks_byte(key, iv, i),
        _ => 0,
    }
}

/// `data` XORed with the keystream starting at position `off`.
pub open spec fn spec_xor_ks(
    t: CipherType,
    key: Seq<u8>,
    iv: Seq<u8>,
    off: nat,
    data: Seq<u8>,
) -> Seq<u8> {
    Seq::new(data.len(), |i: int| data[i] ^ spec_ks_byte(t, key, iv, (off + i) as nat))
}

/// XOR is an involution.
pub proof fn lemma_xor_involution(a: u8, b: u8)
    ensures
        (a ^ b) ^ b == a,
{
    assert((a ^ b) ^ b == a) by (bit_vector);
}

/// Applying the same keystream twice gives the data back; this is why one
/// transform serves both directions of a keystream cipher.
pub proof fn lemma_ks_round_trip(
    t: CipherType,
    key: Seq<u8>,
    iv: Seq<u8>,
    off: nat,
    data: Seq<u8>,
)
    ensures
        spec_xor_ks(t, key, iv, off, spec_xor_ks(t, key, iv, off, data)) == data,
{
    let once = spec_xor_ks(t, key, iv, off, data);
    let twice = spec_xor_ks(t, key, iv, off, once);
    assert forall|i: int| 0 <= i < data.len() implies twice[i] == data[i] by {
        lemma_xor_involution(data[i], spec_ks_byte(t, key, iv, (off + i) as nat));
    }
    assert(twice =~= data);
}

/// One direction of a keystream cipher: identity plus the current position.
pub struct KeystreamCipher {
    pub kind: CipherType,
    pub mode: CryptoMode,
    pub key: Vec<u8>,
    pub iv: Vec<u8>,
    pub pos: usize,
}

impl KeystreamCipher {
    pub open spec fn wf(&self) -> bool {
        &&& is_ks_method(self.kind)
        &&& match self.kind {
            CipherType::Rc4Md5 => self.key@.len() == 16 && self.iv@.len() == 16,
            CipherType::ChaCha20 => self.key@.len() == 32 && self.iv@.len() == 8,
            CipherType::Salsa20 => self.key@.len() == 32 && self.iv@.len() == 8,
            _ => false,
        }
    }

    /// Starts the keystream at position zero.
    pub fn new(kind: CipherType, key: &[u8], iv: &[u8], mode: CryptoMode) -> (c: KeystreamCipher)
        requires
            match kind {
                CipherType::Rc4Md5 => key@.len() == 16 && iv@.len() == 16,
                CipherType::ChaCha20 => key@.len() == 32 && iv@.len() == 8,
                CipherType::Salsa20 => key@.len() == 32 && iv@.len() == 8,
                _ => false,
            },
        ensures
            c.wf(),
            c.kind == kind,
            c.mode == mode,
            c.key@ == key@,
            c.iv@ == iv@,
            c.pos == 0,
    {
        KeystreamCipher {
            kind,
            mode,
            key: vstd::slice::slice_to_vec(key),
            iv: vstd::slice::slice_to_vec(iv),
            pos: 0,
        }
    }

    /// XORs `data` with the keystream at the current position, appending the
    /// result to `out` and advancing the position.
    pub fn update(&mut self, data: &[u8], out: &mut Vec<u8>)
        requires
            old(self).wf(),
            old(self).pos + data@.len() <= usize::MAX,
        ensures
            final(self).wf(),
            final(self).kind == old(self).kind,
            final(self).mode == old(self).mode,
            final(self).key@ == old(self).key@,
            final(self).iv@ == old(self).iv@,
            final(self).pos == old(self).pos + data@.len(),
            final(out)@ == old(out)@ + spec_xor_ks(
                old(self).kind,
                old(self).key@,
                old(self).iv@,
                old(self).pos as nat,
                data@,
            ),
    {
        let ks: Vec<u8> = match self.kind {
            CipherType::Rc4Md5 => {
                let mut keyiv: Vec<u8> = Vec::new();
                keyiv.extend_from_slice(self.key.as_slice());
                keyiv.extend_from_slice(self.iv.as_slice());
                let rc4key = md5_digest(keyiv.as_slice());
                proof {
                    assert(keyiv@ =~= self.key@ + self.iv@);
                }
                let whole = rc4_keystream(rc4key.as_slice(), self.pos + data.len());
                let tail = vstd::slice::slice_to_vec(
                    vstd::slice::slice_subrange(whole.as_slice(), self.pos, self.pos + data.len()),
                );
                tail
            },
            CipherType::ChaCha20 => chacha20_keystream(
                self.key.as_slice(),
                self.iv.as_slice(),
                self.pos,
                data.len(),
            ),
            CipherType::Salsa20 => salsa20_keystream(
                self.key.as_slice(),
                self.iv.as_slice(),
                self.pos,
                data.len(),
            ),
            _ => {
                proof {
                    assert(false);
                }
                Vec::new()
            },
        };
        proof {
            assert(ks@.len() == data@.len());
            assert(forall|i: int|
                0 <= i < data@.len() ==> ks@[i] == spec_ks_byte(
                    self.kind,
                    self.key@,
                    self.iv@,
                    (self.pos + i) as nat,
                ));
        }
        let mut i: usize = 0;
        while i < data.len()
            invariant
                i <= data@.len(),
                ks@.len() == data@.len(),
                forall|j: int|
                    0 <= j < data@.len() ==> ks@[j] == spec_ks_byte(
                        self.kind,
                        self.key@,
                        self.iv@,
                        (self.pos + j) as nat,
                    ),
                out@ == old(out)@ + spec_xor_ks(
                    self.kind,
                    self.key@,
                    self.iv@,
                    self.pos as nat,
                    data@.take(i as int),
                ),
            decreases data@.len() - i,
        {
            out.push(data[i] ^ ks[i]);
            proof {
                assert(out@ =~= old(out)@ + spec_xor_ks(
                    self.kind,
                    self.key@,
                    self.iv@,
                    self.pos as nat,
                    data@.take(i + 1),
                ));
            }
            i = i + 1;
        }
        proof {
            assert(data@.take(data@.len() as int) =~= data@);
        }
        self.pos = self.pos + data.len();
    }
}

} // verus!
