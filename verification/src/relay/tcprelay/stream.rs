//! Encrypted stream framing: the per-connection IV prefix and the running
//! transform behind it.
//!
//! [`EncryptedWriter`] turns plaintext into wire bytes, emitting the IV in
//! the clear before the first ciphertext byte.  [`DecryptedReader`] consumes
//! wire bytes, taking the first `iv_size` bytes as the sender's IV and
//! decrypting the rest.

use vstd::prelude::*;
use crate::crypto::CryptoMode;
use crate::crypto::cipher::{spec_iv_size, spec_key_size, CipherType};
use crate::crypto::stream::{
    lemma_cipher_round_trip, lemma_transform_len, lemma_transform_prefix, new_stream,
    spec_transform, StreamCipherVariant,
};
use crate::error::Error;

verus! {

/// The plaintext a wire stream decodes to: everything after the IV prefix,
/// decrypted under that IV.
pub open spec fn spec_decode_wire(t: CipherType, key: Seq<u8>, wire: Seq<u8>) -> Seq<u8> {
    spec_transform(
        t,
        key,
        wire.take(spec_iv_size(t) as int),
        CryptoMode::Decrypt,
        wire.skip(spec_iv_size(t) as int),
    )
}

/// IV cleartext prefix, and both sides agree: the wire bytes of a
/// connection begin with the sender's IV unmodified, and decoding the wire
/// under the first `iv_size` bytes returns exactly the plaintext that was
/// written.
pub proof fn lemma_wire_round_trip(t: CipherType, key: Seq<u8>, iv: Seq<u8>, plain: Seq<u8>)
    requires
        iv.len() == spec_iv_size(t),
    ensures
        (iv + spec_transform(t, key, iv, CryptoMode::Encrypt, plain)).take(
            spec_iv_size(t) as int,
        ) == iv,
        spec_decode_wire(t, key, iv + spec_transform(t, key, iv, CryptoMode::Encrypt, plain))
            == plain,
{
    let wire = iv + spec_transform(t, key, iv, CryptoMode::Encrypt, plain);
    assert(wire.take(spec_iv_size(t) as int) =~= iv);
    assert(wire.skip(spec_iv_size(t) as int) =~= spec_transform(
        t,
        key,
        iv,
        CryptoMode::Encrypt,
        plain,
    ));
    lemma_cipher_round_trip(t, key, iv, plain);
}

/// The encrypt side of a connection: a running encryptor plus the IV that
/// is sent in the clear before any ciphertext.
pub struct EncryptedWriter {
    pub cipher: StreamCipherVariant,
    pub iv: Vec<u8>,
    pub iv_sent: bool,
}

impl EncryptedWriter {
    /// Every plaintext byte accepted so far.
    pub open spec fn spec_plain(&self) -> Seq<u8> {
        self.cipher.spec_hist()
    }

    /// Every wire byte emitted so far.
    pub open spec fn spec_wire(&self) -> Seq<u8> {
        if self.iv_sent {
            self.iv@ + spec_transform(
                self.cipher.spec_method(),
                self.cipher.spec_key(),
                self.cipher.spec_iv(),
                CryptoMode::Encrypt,
                self.cipher.spec_hist(),
            )
        } else {
            Seq::empty()
        }
    }

    pub open spec fn wf(&self) -> bool {
        &&& self.cipher.wf()
        &&& self.cipher.spec_mode() == CryptoMode::Encrypt
        &&& self.iv@.len() == spec_iv_size(self.cipher.spec_method())
        &&& self.cipher.spec_iv() == self.iv@
        &&& !self.iv_sent ==> self.cipher.spec_hist() == Seq::<u8>::empty()
    }

    /// Builds the writer around a fresh IV; nothing is emitted yet.
    pub fn new(t: CipherType, key: &[u8], iv: Vec<u8>) -> (w: EncryptedWriter)
        requires
            key@.len() == spec_key_size(t),
            iv@.len() == spec_iv_size(t),
        ensures
            w.wf(),
            w.cipher.spec_method() == t,
            w.cipher.spec_key() == key@,
            w.iv@ == iv@,
            !w.iv_sent,
            w.spec_plain() == Seq::<u8>::empty(),
            w.spec_wire() == Seq::<u8>::empty(),
    {
        let cipher = new_stream(t, key, iv.as_slice(), CryptoMode::Encrypt);
        EncryptedWriter { cipher, iv, iv_sent: false }
    }

    /// Accepts plaintext and returns the bytes to put on the wire: on the
    /// first call the IV, then ciphertext.
    pub fn write(&mut self, data: &[u8]) -> (w: Vec<u8>)
        requires
            old(self).wf(),
            old(self).spec_plain().len() + data@.len() <= usize::MAX,
        ensures
            final(self).wf(),
            final(self).iv_sent,
            final(self).iv@ == old(self).iv@,
            final(self).cipher.same_id(&old(self).cipher),
            final(self).spec_plain() == old(self).spec_plain() + data@,
            final(self).spec_wire() == old(self).spec_wire() + w@,
    {
        let ghost t = self.cipher.spec_method();
        let ghost key = self.cipher.spec_key();
        let ghost iv = self.cipher.spec_iv();
        let ghost h0 = self.cipher.spec_hist();
        let mut w: Vec<u8> = Vec::new();
        if !self.iv_sent {
            w.extend_from_slice(self.iv.as_slice());
            self.iv_sent = true;
        }
        let _ = self.cipher.update(data, &mut w);
        proof {
            lemma_transform_len(t, key, iv, CryptoMode::Encrypt, h0);
            lemma_transform_len(t, key, iv, CryptoMode::Encrypt, h0 + data@);
            lemma_transform_prefix(t, key, iv, CryptoMode::Encrypt, h0, data@);
            assert(self.spec_wire() =~= old(self).spec_wire() + w@);
        }
        w
    }
}

/// The decrypt side of a connection: accumulates the IV off the wire, then
/// decrypts everything after it.
pub struct DecryptedReader {
    pub method: CipherType,
    pub key: Vec<u8>,
    pub ivbuf: Vec<u8>,
    pub cipher: Option<StreamCipherVariant>,
    pub wire: Ghost<Seq<u8>>,
}

impl DecryptedReader {
    /// The plaintext decoded so far: empty until the IV is complete.
    pub open spec fn spec_plain(&self) -> Seq<u8> {
        if self.wire@.len() < spec_iv_size(self.method) {
            Seq::empty()
        } else {
            spec_decode_wire(self.method, self.key@, self.wire@)
        }
    }

    pub open spec fn wf(&self) -> bool {
        &&& self.key@.len() == spec_key_size(self.method)
        &&& if self.wire@.len() < spec_iv_size(self.method) {
            self.cipher is None && self.ivbuf@ == self.wire@
        } else {
            match self.cipher {
                Some(c) => {
                    &&& c.wf()
                    &&& c.spec_method() == self.method
                    &&& c.spec_mode() == CryptoMode::Decrypt
                    &&& c.spec_key() == self.key@
                    &&& c.spec_iv() == self.wire@.take(spec_iv_size(self.method) as int)
                    &&& c.spec_hist() == self.wire@.skip(spec_iv_size(self.method) as int)
                    &&& self.ivbuf@ == self.wire@.take(spec_iv_size(self.method) as int)
                },
                None => false,
            }
        }
    }

    /// Builds the reader; for methods without an IV the decryptor starts
    /// immediately.
    pub fn new(t: CipherType, key: Vec<u8>) -> (r: DecryptedReader)
        requires
            key@.len() == spec_key_size(t),
        ensures
            r.wf(),
            r.method == t,
            r.key@ == key@,
            r.wire@ == Seq::<u8>::empty(),
            r.spec_plain() == Seq::<u8>::empty(),
    {
        let ivs = t.iv_size();
        if ivs == 0 {
            let empty_iv: Vec<u8> = Vec::new();
            let cipher = new_stream(t, key.as_slice(), empty_iv.as_slice(), CryptoMode::Decrypt);
            let r = DecryptedReader {
                method: t,
                key,
                ivbuf: Vec::new(),
                cipher: Some(cipher),
                wire: Ghost(Seq::empty()),
            };
            proof {
                assert(r.wire@.take(0) =~= Seq::<u8>::empty());
                assert(r.wire@.skip(0) =~= Seq::<u8>::empty());
                assert(r.spec_plain() =~= Seq::<u8>::empty());
            }
            r
        } else {
            DecryptedReader {
                method: t,
                key,
                ivbuf: Vec::new(),
                cipher: None,
                wire: Ghost(Seq::empty()),
            }
        }
    }

    /// Whether the full IV has been read off the wire.
    pub fn iv_complete(&self) -> (r: bool)
        requires
            self.wf(),
        ensures
            r <==> self.wire@.len() >= spec_iv_size(self.method),
    {
        self.cipher.is_some()
    }

    /// Consumes wire bytes, returning the plaintext they decode to.  Bytes
    /// that are still part of the IV produce no output.
    pub fn feed(&mut self, chunk: &[u8]) -> (out: Vec<u8>)
        requires
            old(self).wf(),
            old(self).wire@.len() + chunk@.len() <= usize::MAX,
        ensures
            final(self).wf(),
            final(self).method == old(self).method,
            final(self).key@ == old(self).key@,
            final(self).wire@ == old(self).wire@ + chunk@,
            final(self).spec_plain() == old(self).spec_plain() + out@,
    {
        let ghost t = self.method;
        let ghost key = self.key@;
        let ghost w0 = self.wire@;
        let ivs = self.method.iv_size();
        let mut out: Vec<u8> = Vec::new();
        let is_streaming = self.cipher.is_some();
        if !is_streaming {
            let need = ivs - self.ivbuf.len();
            if chunk.len() < need {
                self.ivbuf.extend_from_slice(chunk);
                self.wire = Ghost(self.wire@ + chunk@);
                proof {
                    assert(self.ivbuf@ =~= self.wire@);
                    assert(self.spec_plain() =~= old(self).spec_plain() + out@);
                }
                return out;
            }
            let head = vstd::slice::slice_subrange(chunk, 0, need);
            let rest = vstd::slice::slice_subrange(chunk, need, chunk.len());
            self.ivbuf.extend_from_slice(head);
            self.wire = Ghost(self.wire@ + chunk@);
            proof {
                assert(self.ivbuf@ =~= self.wire@.take(ivs as int));
                assert(rest@ =~= self.wire@.skip(ivs as int));
            }
            let mut cipher = new_stream(
                self.method,
                self.key.as_slice(),
                self.ivbuf.as_slice(),
                CryptoMode::Decrypt,
            );
            let _ = cipher.update(rest, &mut out);
            self.cipher = Some(cipher);
            proof {
                assert((Seq::<u8>::empty() + rest@) =~= rest@);
                assert(spec_transform(t, key, self.ivbuf@, CryptoMode::Decrypt, rest@).skip(0)
                    =~= spec_transform(t, key, self.ivbuf@, CryptoMode::Decrypt, rest@));
                assert(old(self).spec_plain() =~= Seq::<u8>::empty());
                assert(self.spec_plain() =~= old(self).spec_plain() + out@);
            }
            out
        } else {
            let ghost iv = match &self.cipher {
                Some(c) => c.spec_iv(),
                None => Seq::empty(),
            };
            let ghost h0 = match &self.cipher {
                Some(c) => c.spec_hist(),
                None => Seq::empty(),
            };
            match &mut self.cipher {
                Some(c) => {
                    let _ = c.update(chunk, &mut out);
                },
                None => {
                    proof {
                        assert(false);
                    }
                },
            }
            self.wire = Ghost(self.wire@ + chunk@);
            proof {
                lemma_transform_len(t, key, iv, CryptoMode::Decrypt, h0);
                lemma_transform_len(t, key, iv, CryptoMode::Decrypt, h0 + chunk@);
                lemma_transform_prefix(t, key, iv, CryptoMode::Decrypt, h0, chunk@);
                assert(self.wire@.take(ivs as int) =~= w0.take(ivs as int));
                assert(self.wire@.skip(ivs as int) =~= h0 + chunk@);
                assert(old(self).spec_plain() == spec_transform(
                    t,
                    key,
                    iv,
                    CryptoMode::Decrypt,
                    h0,
                ));
                assert(self.spec_plain() =~= old(self).spec_plain() + out@) by {
                    assert(self.spec_plain() == spec_transform(
                        t,
                        key,
                        iv,
                        CryptoMode::Decrypt,
                        h0 + chunk@,
                    ));
                    assert(out@ == spec_transform(t, key, iv, CryptoMode::Decrypt, h0 + chunk@)
                        .skip(h0.len() as int));
                }
            }
            out
        }
    }

    /// Called at end of stream: a connection that ends before the full IV
    /// arrived is an unexpected EOF.
    pub fn finish(&self) -> (r: Result<(), Error>)
        requires
            self.wf(),
        ensures
            r is Ok <==> self.wire@.len() >= spec_iv_size(self.method),
            r is Err ==> r == Err::<(), Error>(Error::UnexpectedEof),
    {
        if self.cipher.is_some() {
            Ok(())
        } else {
            Err(Error::UnexpectedEof)
        }
    }
}

} // verus!
