//! AES CFB mode (128-bit feedback).
//!
//! The AES block function comes from an outside crate and is named; the CFB
//! chaining itself — keystream block `E(register)`, register fed with the
//! previous ciphertext block — is implemented and verified here.

use vstd::prelude::*;
use aes::cipher::{Array, BlockCipherEncrypt, KeyInit};
use crate::crypto::CryptoMode;
use crate::crypto::cipher::CipherType;
use crate::crypto::keystream::lemma_xor_involution;

verus! {

/// What AES-128 makes of one 16-byte block under a 16-byte key.
pub uninterp spec fn aes128_block(key: Seq<u8>, block: Seq<u8>) -> Seq<u8>;

/// What AES-192 makes of one 16-byte block under a 24-byte key.
pub uninterp spec fn aes192_block(key: Seq<u8>, block: Seq<u8>) -> Seq<u8>;

/// What AES-256 makes of one 16-byte block under a 32-byte key.
pub uninterp spec fn aes256_block(key: Seq<u8>, block: Seq<u8>) -> Seq<u8>;

/// Relies on the `aes` crate's `Aes128::encrypt_block`: a function of key
/// and block alone, one 16-byte block out.
#[verifier::external_body]
fn aes128_encrypt_block(key: &[u8], block: &[u8]) -> (r: Vec<u8>)
    requires
        key@.len() == 16,
        block@.len() == 16,
    ensures
        r@.len() == 16,
        r@ == aes128_block(key@, block@),
{
    let (Ok(c), Ok(mut blk)) = (aes::Aes128::new_from_slice(key), Array::try_from(block)) else {
        return Vec::new();
    };
    c.encrypt_block(&mut blk);
    blk.as_slice().to_vec()
}

/// Relies on the `aes` crate's `Aes192::encrypt_block`: a function of key
/// and block alone, one 16-byte block out.
#[verifier::external_body]
fn aes192_encrypt_block(key: &[u8], block: &[u8]) -> (r: Vec<u8>)
    requires
        key@.len() == 24,
        block@.len() == 16,
    ensures
        r@.len() == 16,
        r@ == aes192_block(key@, block@),
{
    let (Ok(c), Ok(mut blk)) = (aes::Aes192::new_from_slice(key), Array::try_from(block)) else {
        return Vec::new();
    };
    c.encrypt_block(&mut blk);
    blk.as_slice().to_vec()
}

/// Relies on the `aes` crate's `Aes256::encrypt_block`: a function of key
/// and block alone, one 16-byte block out.
#[verifier::external_body]
fn aes256_encrypt_block(key: &[u8], block: &[u8]) -> (r: Vec<u8>)
    requires
        key@.len() == 32,
        block@.len() == 16,
    ensures
        r@.len() == 16,
        r@ == aes256_block(key@, block@),
{
    let (Ok(c), Ok(mut blk)) = (aes::Aes256::new_from_slice(key), Array::try_from(block)) else {
        return Vec::new();
    };
    c.encrypt_block(&mut blk);
    blk.as_slice().to_vec()
}

/// Which methods this module implements.
pub open spec fn is_cfb_method(t: CipherType) -> bool {
    t is Aes128Cfb || t is Aes192Cfb || t is Aes256Cfb
}

/// The key size the block cipher expects.
pub open spec fn cfb_key_len(t: CipherType) -> nat {
    match t {
        CipherType::Aes128Cfb => 16,
        CipherType::Aes192Cfb => 24,
        CipherType::Aes256Cfb => 32,
        _ => 0,
    }
}

/// The block function of a CFB method.
pub open spec fn cfb_block_enc(t: CipherType, key: Seq<u8>, block: Seq<u8>) -> Seq<u8> {
    match t {
        CipherType::Aes128Cfb => aes128_block(key, block),
        CipherType::Aes192Cfb => aes192_block(key, block),
        CipherType::Aes256Cfb => aes256_block(key, block),
        _ => Seq::empty(),
    }
}

/// The feedback register for byte position `i`, given the ciphertext prefix
/// `c`: the IV for the first block, afterwards the previous ciphertext block.
pub open spec fn cfb_reg(iv: Seq<u8>, c: Seq<u8>, i: int) -> Seq<u8> {
    if i < 16 {
        iv
    } else {
        c.subrange(16 * (i / 16) - 16, 16 * (i / 16))
    }
}

/// The keystream byte for position `i`.
pub open spec fn cfb_ks_byte(t: CipherType, key: Seq<u8>, iv: Seq<u8>, c: Seq<u8>, i: int) -> u8 {
    cfb_block_enc(t, key, cfb_reg(iv, c, i))[i % 16]
}

/// CFB encryption of a whole plaintext: each ciphertext byte is the
/// plaintext byte XOR the keystream byte for its position.
pub open spec fn spec_cfb_encrypt(t: CipherType, key: Seq<u8>, iv: Seq<u8>, p: Seq<u8>) -> Seq<u8>
    decreases p.len(),
{
    if p.len() == 0 {
        Seq::empty()
    } else {
        let c0 = spec_cfb_encrypt(t, key, iv, p.drop_last());
        c0.push(p.last() ^ cfb_ks_byte(t, key, iv, c0, p.len() - 1))
    }
}

/// CFB decryption of a whole ciphertext.
pub open spec fn spec_cfb_decrypt(t: CipherType, key: Seq<u8>, iv: Seq<u8>, c: Seq<u8>) -> Seq<u8> {
    Seq::new(c.len(), |i: int| c[i] ^ cfb_ks_byte(t, key, iv, c, i))
}

pub proof fn lemma_cfb_enc_len(t: CipherType, key: Seq<u8>, iv: Seq<u8>, p: Seq<u8>)
    ensures
        spec_cfb_encrypt(t, key, iv, p).len() == p.len(),
    decreases p.len(),
{
    if p.len() > 0 {
        lemma_cfb_enc_len(t, key, iv, p.drop_last());
    }
}

/// The keystream byte for position `i` depends only on the ciphertext
/// before position `i`'s block.
pub proof fn lemma_cfb_ks_stable(
    t: CipherType,
    key: Seq<u8>,
    iv: Seq<u8>,
    c1: Seq<u8>,
    c2: Seq<u8>,
    i: int,
)
    requires
        0 <= i,
        16 * (i / 16) <= c1.len() <= c2.len(),
        c2.take(c1.len() as int) == c1,
    ensures
        cfb_ks_byte(t, key, iv, c1, i) == cfb_ks_byte(t, key, iv, c2, i),
{
    if i >= 16 {
        assert(c1.subrange(16 * (i / 16) - 16, 16 * (i / 16)) =~= c2.subrange(
            16 * (i / 16) - 16,
            16 * (i / 16),
        )) by {
            assert(forall|j: int|
                0 <= j < c1.len() ==> c1[j] == #[trigger] c2.take(c1.len() as int)[j]);
        }
    }
}

/// Encrypting a longer plaintext extends the ciphertext of a prefix.
pub proof fn lemma_cfb_enc_prefix(t: CipherType, key: Seq<u8>, iv: Seq<u8>, p: Seq<u8>, n: int)
    requires
        0 <= n <= p.len(),
    ensures
        spec_cfb_encrypt(t, key, iv, p).take(n) == spec_cfb_encrypt(t, key, iv, p.take(n)),
    decreases p.len(),
{
    lemma_cfb_enc_len(t, key, iv, p);
    if n == p.len() {
        assert(p.take(n) =~= p);
        assert(spec_cfb_encrypt(t, key, iv, p).take(n) =~= spec_cfb_encrypt(t, key, iv, p));
    } else {
        let c0 = spec_cfb_encrypt(t, key, iv, p.drop_last());
        lemma_cfb_enc_len(t, key, iv, p.drop_last());
        assert(spec_cfb_encrypt(t, key, iv, p).take(n) =~= c0.take(n));
        lemma_cfb_enc_prefix(t, key, iv, p.drop_last(), n);
        assert(p.drop_last().take(n) =~= p.take(n));
    }
}

/// Each ciphertext byte satisfies the CFB equation with respect to the
/// whole ciphertext.
pub proof fn lemma_cfb_enc_index(t: CipherType, key: Seq<u8>, iv: Seq<u8>, p: Seq<u8>, i: int)
    requires
        0 <= i < p.len(),
    ensures
        spec_cfb_encrypt(t, key, iv, p)[i] == (p[i] ^ cfb_ks_byte(
            t,
            key,
            iv,
            spec_cfb_encrypt(t, key, iv, p),
            i,
        )),
    decreases p.len(),
{
    let c = spec_cfb_encrypt(t, key, iv, p);
    let c0 = spec_cfb_encrypt(t, key, iv, p.drop_last());
    lemma_cfb_enc_len(t, key, iv, p);
    lemma_cfb_enc_len(t, key, iv, p.drop_last());
    assert(c.take(c0.len() as int) =~= c0);
    if i == p.len() - 1 {
        lemma_cfb_ks_stable(t, key, iv, c0, c, i);
    } else {
        lemma_cfb_enc_index(t, key, iv, p.drop_last(), i);
        lemma_cfb_ks_stable(t, key, iv, c0, c, i);
    }
}

/// Decryption only looks at earlier blocks, so it is stable under
/// extending the ciphertext.
pub proof fn lemma_cfb_dec_prefix(t: CipherType, key: Seq<u8>, iv: Seq<u8>, c1: Seq<u8>, c2: Seq<u8>)
    requires
        c1.len() <= c2.len(),
        c2.take(c1.len() as int) == c1,
    ensures
        spec_cfb_decrypt(t, key, iv, c2).take(c1.len() as int) == spec_cfb_decrypt(t, key, iv, c1),
{
    assert forall|i: int| 0 <= i < c1.len() implies spec_cfb_decrypt(t, key, iv, c2)[i]
        == spec_cfb_decrypt(t, key, iv, c1)[i] by {
        assert(c1[i] == c2.take(c1.len() as int)[i]);
        assert(16 * (i / 16) <= i);
        lemma_cfb_ks_stable(t, key, iv, c1, c2, i);
    }
    assert(spec_cfb_decrypt(t, key, iv, c2).take(c1.len() as int) =~= spec_cfb_decrypt(
        t,
        key,
        iv,
        c1,
    ));
}

/// What a CFB instance emits for a whole input stream: the ciphertext when
/// encrypting, the plaintext when decrypting.
pub open spec fn cfb_output(
    t: CipherType,
    mode: CryptoMode,
    key: Seq<u8>,
    iv: Seq<u8>,
    input: Seq<u8>,
) -> Seq<u8> {
    match mode {
        CryptoMode::Encrypt => spec_cfb_encrypt(t, key, iv, input),
        CryptoMode::Decrypt => spec_cfb_decrypt(t, key, iv, input),
    }
}

/// Dispatches to the method's block function.
fn block_encrypt(kind: CipherType, key: &[u8], block: &[u8]) -> (r: Vec<u8>)
    requires
        is_cfb_method(kind),
        key@.len() == cfb_key_len(kind),
        block@.len() == 16,
    ensures
        r@.len() == 16,
        r@ == cfb_block_enc(kind, key@, block@),
{
    match kind {
        CipherType::Aes128Cfb => aes128_encrypt_block(key, block),
        CipherType::Aes192Cfb => aes192_encrypt_block(key, block),
        CipherType::Aes256Cfb => aes256_encrypt_block(key, block),
        _ => {
            proof {
                assert(false);
            }
            Vec::new()
        },
    }
}

/// One direction of an AES-CFB transform.
///
/// The state is the feedback register of the current block, the keystream
/// block it encrypts to, and the ciphertext bytes of the current partial
/// block; `hist` records every input byte processed.
pub struct CfbCipher {
    pub kind: CipherType,
    pub mode: CryptoMode,
    pub key: Vec<u8>,
    pub iv: Vec<u8>,
    pub pos: usize,
    pub reg: Vec<u8>,
    pub ksblk: Vec<u8>,
    pub pending: Vec<u8>,
    pub hist: Ghost<Seq<u8>>,
}

impl CfbCipher {
    /// The ciphertext of everything processed so far.
    pub open spec fn spec_ciphertext(&self) -> Seq<u8> {
        match self.mode {
            CryptoMode::Encrypt => spec_cfb_encrypt(self.kind, self.key@, self.iv@, self.hist@),
            CryptoMode::Decrypt => self.hist@,
        }
    }

    pub open spec fn wf(&self) -> bool {
        let c = self.spec_ciphertext();
        let pos = self.pos as int;
        let blk = pos - (pos % 16);
        &&& is_cfb_method(self.kind)
        &&& self.key@.len() == cfb_key_len(self.kind)
        &&& self.iv@.len() == 16
        &&& self.hist@.len() == pos
        &&& c.len() == pos
        &&& self.pending@ == c.subrange(blk, pos)
        &&& self.reg@ == cfb_reg(self.iv@, c, pos)
        &&& self.reg@.len() == 16
        &&& self.ksblk@ == cfb_block_enc(self.kind, self.key@, self.reg@)
        &&& self.ksblk@.len() == 16
    }

    /// Starts a CFB transform with the register loaded with the IV.
    pub fn new(kind: CipherType, key: &[u8], iv: &[u8], mode: CryptoMode) -> (c: CfbCipher)
        requires
            is_cfb_method(kind),
            key@.len() == cfb_key_len(kind),
            iv@.len() == 16,
        ensures
            c.wf(),
            c.kind == kind,
            c.mode == mode,
            c.key@ == key@,
            c.iv@ == iv@,
            c.hist@ == Seq::<u8>::empty(),
            c.pos == 0,
    {
        let ksblk = block_encrypt(kind, key, iv);
        let c = CfbCipher {
            kind,
            mode,
            key: vstd::slice::slice_to_vec(key),
            iv: vstd::slice::slice_to_vec(iv),
            pos: 0,
            reg: vstd::slice::slice_to_vec(iv),
            ksblk,
            pending: Vec::new(),
            hist: Ghost(Seq::empty()),
        };
        proof {
            assert(c.spec_ciphertext().len() == 0);
            assert(c.pending@ =~= c.spec_ciphertext().subrange(0, 0));
        }
        c
    }

    /// Transforms `data`, appending the output to `out` and advancing the
    /// stream state.
    pub fn update(&mut self, data: &[u8], out: &mut Vec<u8>)
        requires
            old(self).wf(),
            old(self).pos + data@.len() <= usize::MAX,
        ensures
            final(self).wf(),
            final(self).kind == old(self).kind,
            final(self).mode == old(self).mode,
            final(self).key@ == old(self).key@,
            final(self).iv@ == old(self).iv@,
            final(self).hist@ == old(self).hist@ + data@,
            final(self).pos == old(self).pos + data@.len(),
            final(out)@ == old(out)@ + cfb_output(
                old(self).kind,
                old(self).mode,
                old(self).key@,
                old(self).iv@,
                old(self).hist@ + data@,
            ).skip(old(self).pos as int),
    {
        let ghost k0 = self.kind;
        let ghost m0 = self.mode;
        let ghost key0 = self.key@;
        let ghost iv0 = self.iv@;
        let ghost h0 = self.hist@;
        let ghost pos0 = self.pos as int;
        proof {
            assert((h0 + data@.take(0)) =~= h0);
            match m0 {
                CryptoMode::Encrypt => {
                    lemma_cfb_enc_len(k0, key0, iv0, h0);
                },
                CryptoMode::Decrypt => {},
            }
            assert(out@ =~= out@ + cfb_output(k0, m0, key0, iv0, h0).skip(pos0));
        }
        let mut i: usize = 0;
        while i < data.len()
            invariant
                i <= data@.len(),
                self.wf(),
                self.kind == k0,
                self.mode == m0,
                self.key@ == key0,
                self.iv@ == iv0,
                self.hist@ == h0 + data@.take(i as int),
                self.pos == pos0 + i,
                pos0 == h0.len(),
                pos0 + data@.len() <= usize::MAX,
                out@ == old(out)@ + cfb_output(k0, m0, key0, iv0, h0 + data@.take(i as int)).skip(
                    pos0,
                ),
            decreases data@.len() - i,
        {
            let ghost hist1 = self.hist@;
            let ghost c1 = self.spec_ciphertext();
            let ghost pos1 = self.pos as int;
            let d = data[i];
            let pi = self.pending.len();
            proof {
                assert(self.pending@.len() == pos1 % 16);
                assert(pi < 16);
            }
            let ks = self.ksblk[pi];
            proof {
                assert(ks == cfb_ks_byte(k0, key0, iv0, c1, pos1)) by {
                    assert(self.reg@ == cfb_reg(iv0, c1, pos1));
                    assert(self.ksblk@ == cfb_block_enc(k0, key0, self.reg@));
                    assert(pos1 % 16 == pi);
                }
            }
            let o = d ^ ks;
            out.push(o);
            let cb = match self.mode {
                CryptoMode::Encrypt => o,
                CryptoMode::Decrypt => d,
            };
            self.pending.push(cb);
            self.hist = Ghost(self.hist@ + seq![d]);
            self.pos = self.pos + 1;
            let ghost hist2 = self.hist@;
            let ghost c2 = self.spec_ciphertext();
            let ghost pos2 = self.pos as int;
            proof {
                assert(hist2.drop_last() =~= hist1);
                assert(hist2.last() == d);
                match m0 {
                    CryptoMode::Encrypt => {
                        lemma_cfb_enc_len(k0, key0, iv0, hist1);
                        lemma_cfb_enc_len(k0, key0, iv0, hist2);
                        assert(c2 == spec_cfb_encrypt(k0, key0, iv0, hist2));
                        assert(c2 == c1.push(d ^ cfb_ks_byte(k0, key0, iv0, c1, pos1)));
                        assert(c2 == c1.push(cb));
                    },
                    CryptoMode::Decrypt => {
                        assert(c2 =~= c1.push(cb));
                    },
                }
                assert(c2 == c1.push(cb));
                assert(c2.len() == pos2);
                assert(c2.take(pos1) =~= c1);
            }
            if self.pending.len() == 16 {
                let nk = block_encrypt(self.kind, self.key.as_slice(), self.pending.as_slice());
                self.ksblk = nk;
                self.reg = vstd::slice::slice_to_vec(self.pending.as_slice());
                self.pending = Vec::new();
                proof {
                    assert(pos2 % 16 == 0);
                    assert(self.reg@ =~= c2.subrange(pos2 - 16, pos2)) by {
                        assert(self.reg@ == c1.subrange(pos1 - (pos1 % 16), pos1).push(cb));
                        assert(pos2 - 16 == pos1 - (pos1 % 16));
                    }
                    assert(self.reg@ == cfb_reg(iv0, c2, pos2));
                    assert(self.pending@ =~= c2.subrange(pos2, pos2));
                }
            } else {
                proof {
                    assert(pos2 % 16 == pi + 1);
                    assert(pos2 - pos2 % 16 == pos1 - pos1 % 16);
                    assert(self.pending@ =~= c2.subrange(pos2 - pos2 % 16, pos2)) by {
                        assert(self.pending@ == c1.subrange(pos1 - (pos1 % 16), pos1).push(cb));
                    }
                    assert(self.reg@ == cfb_reg(iv0, c2, pos2)) by {
                        assert(pos2 / 16 == pos1 / 16);
                        if pos1 >= 16 {
                            assert(cfb_reg(iv0, c2, pos2) =~= cfb_reg(iv0, c1, pos1));
                        }
                    }
                }
            }
            proof {
                // The freshly pushed output byte is the next byte of the
                // whole-stream transform.
                match m0 {
                    CryptoMode::Encrypt => {
                        assert((h0 + data@.take(i + 1)) =~= hist2);
                        lemma_cfb_enc_len(k0, key0, iv0, hist2);
                        assert(c2.skip(pos0) =~= c1.skip(pos0) + seq![o]);
                        assert(out@ =~= old(out)@ + cfb_output(k0, m0, key0, iv0, hist2).skip(
                            pos0,
                        ));
                    },
                    CryptoMode::Decrypt => {
                        assert((h0 + data@.take(i + 1)) =~= hist2);
                        let dec1 = spec_cfb_decrypt(k0, key0, iv0, c1);
                        let dec2 = spec_cfb_decrypt(k0, key0, iv0, c2);
                        lemma_cfb_dec_prefix(k0, key0, iv0, c1, c2);
                        assert(dec2[pos1] == o) by {
                            lemma_cfb_ks_stable(k0, key0, iv0, c1, c2, pos1);
                        }
                        assert(dec2.skip(pos0) =~= dec1.skip(pos0) + seq![o]) by {
                            assert(dec2.take(pos1) == dec1);
                            assert(forall|j: int|
                                0 <= j < pos1 ==> dec1[j] == #[trigger] dec2.take(pos1)[j]);
                        }
                        assert(out@ =~= old(out)@ + cfb_output(k0, m0, key0, iv0, hist2).skip(
                            pos0,
                        ));
                    },
                }
            }
            i = i + 1;
        }
        proof {
            assert((h0 + data@.take(data@.len() as int)) =~= h0 + data@);
        }
    }
}

/// CFB round trip: decrypting an encryption returns the plaintext.
pub proof fn lemma_cfb_round_trip(t: CipherType, key: Seq<u8>, iv: Seq<u8>, p: Seq<u8>)
    ensures
        spec_cfb_decrypt(t, key, iv, spec_cfb_encrypt(t, key, iv, p)) == p,
{
    let c = spec_cfb_encrypt(t, key, iv, p);
    lemma_cfb_enc_len(t, key, iv, p);
    let back = spec_cfb_decrypt(t, key, iv, c);
    assert forall|i: int| 0 <= i < p.len() implies back[i] == p[i] by {
        lemma_cfb_enc_index(t, key, iv, p, i);
        lemma_xor_involution(p[i], cfb_ks_byte(t, key, iv, c, i));
    }
    assert(back =~= p);
}

} // verus!
