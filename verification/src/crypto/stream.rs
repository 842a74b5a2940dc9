//! Stream cipher variants and the cipher factory.
//!
//! [`StreamCipherVariant`] gathers every supported transform behind one
//! incremental `update`/`finalize` interface, and [`new_stream`] builds the
//! transform for a method, key material, IV and direction.

use vstd::prelude::*;
use crate::crypto::CryptoMode;
use crate::crypto::cipher::{spec_iv_size, spec_key_size, CipherType};
use crate::crypto::cfb::{
    cfb_output, is_cfb_method, lemma_cfb_round_trip, CfbCipher,
};
use crate::crypto::dummy::DummyCipher;
use crate::crypto::keystream::{
    is_ks_method, lemma_ks_round_trip, spec_xor_ks, KeystreamCipher,
};
use crate::crypto::table::{lemma_table_round_trip, spec_table_transform, TableCipher};
use crate::error::Error;

verus! {

/// What a method's transform makes of a whole input stream, from its start.
pub open spec fn spec_transform(
    t: CipherType,
    key: Seq<u8>,
    iv: Seq<u8>,
    mode: CryptoMode,
    data: Seq<u8>,
) -> Seq<u8> {
    match t {
        CipherType::Table => spec_table_transform(key, mode, data),
        CipherType::Dummy => data,
        CipherType::Rc4Md5 => spec_xor_ks(t, key, iv, 0, data),
        CipherType::ChaCha20 => spec_xor_ks(t, key, iv, 0, data),
        CipherType::Salsa20 => spec_xor_ks(t, key, iv, 0, data),
        CipherType::Aes128Cfb => cfb_output(t, mode, key, iv, data),
        CipherType::Aes192Cfb => cfb_output(t, mode, key, iv, data),
        CipherType::Aes256Cfb => cfb_output(t, mode, key, iv, data),
    }
}

/// Every transform is length-preserving.
pub proof fn lemma_transform_len(
    t: CipherType,
    key: Seq<u8>,
    iv: Seq<u8>,
    mode: CryptoMode,
    data: Seq<u8>,
)
    ensures
        spec_transform(t, key, iv, mode, data).len() == data.len(),
{
    if is_cfb_method(t) && mode is Encrypt {
        crate::crypto::cfb::lemma_cfb_enc_len(t, key, iv, data);
    }
}

/// Feeding more input extends the output: the transform of a prefix is a
/// prefix of the transform.
pub proof fn lemma_transform_prefix(
    t: CipherType,
    key: Seq<u8>,
    iv: Seq<u8>,
    mode: CryptoMode,
    a: Seq<u8>,
    b: Seq<u8>,
)
    ensures
        spec_transform(t, key, iv, mode, a + b).take(a.len() as int) == spec_transform(
            t,
            key,
            iv,
            mode,
            a,
        ),
{
    lemma_transform_len(t, key, iv, mode, a + b);
    lemma_transform_len(t, key, iv, mode, a);
    if is_cfb_method(t) {
        match mode {
            CryptoMode::Encrypt => {
                crate::crypto::cfb::lemma_cfb_enc_prefix(t, key, iv, a + b, a.len() as int);
                assert((a + b).take(a.len() as int) =~= a);
            },
            CryptoMode::Decrypt => {
                assert((a + b).take(a.len() as int) =~= a);
                crate::crypto::cfb::lemma_cfb_dec_prefix(t, key, iv, a, a + b);
            },
        }
    } else {
        assert forall|i: int|
            0 <= i < a.len() implies spec_transform(t, key, iv, mode, a + b)[i] == spec_transform(
            t,
            key,
            iv,
            mode,
            a,
        )[i] by {
            assert((a + b)[i] == a[i]);
        }
        assert(spec_transform(t, key, iv, mode, a + b).take(a.len() as int) =~= spec_transform(
            t,
            key,
            iv,
            mode,
            a,
        ));
    }
}

/// Round-trip cipher law: for every supported method, decrypting an
/// encryption under the same key and IV returns the plaintext.
pub proof fn lemma_cipher_round_trip(t: CipherType, key: Seq<u8>, iv: Seq<u8>, data: Seq<u8>)
    ensures
        spec_transform(
            t,
            key,
            iv,
            CryptoMode::Decrypt,
            spec_transform(t, key, iv, CryptoMode::Encrypt, data),
        ) == data,
{
    match t {
        CipherType::Table => lemma_table_round_trip(key, data),
        CipherType::Dummy => {},
        CipherType::Rc4Md5 => lemma_ks_round_trip(t, key, iv, 0, data),
        CipherType::ChaCha20 => lemma_ks_round_trip(t, key, iv, 0, data),
        CipherType::Salsa20 => lemma_ks_round_trip(t, key, iv, 0, data),
        CipherType::Aes128Cfb => lemma_cfb_round_trip(t, key, iv, data),
        CipherType::Aes192Cfb => lemma_cfb_round_trip(t, key, iv, data),
        CipherType::Aes256Cfb => lemma_cfb_round_trip(t, key, iv, data),
    }
}

/// Variant cipher which contains all possible transforms.
pub enum StreamCipherVariant {
    Table(TableCipher, Ghost<Seq<u8>>),
    Dummy(DummyCipher, Ghost<Seq<u8>>),
    Keystream(KeystreamCipher, Ghost<Seq<u8>>),
    Cfb(CfbCipher),
}

impl StreamCipherVariant {
    /// The cipher method of this transform.
    pub open spec fn spec_method(&self) -> CipherType {
        match self {
            StreamCipherVariant::Table(_, _) => CipherType::Table,
            StreamCipherVariant::Dummy(_, _) => CipherType::Dummy,
            StreamCipherVariant::Keystream(c, _) => c.kind,
            StreamCipherVariant::Cfb(c) => c.kind,
        }
    }

    /// The direction of this transform.
    pub open spec fn spec_mode(&self) -> CryptoMode {
        match self {
            StreamCipherVariant::Table(c, _) => c.mode,
            StreamCipherVariant::Dummy(c, _) => c.mode,
            StreamCipherVariant::Keystream(c, _) => c.mode,
            StreamCipherVariant::Cfb(c) => c.mode,
        }
    }

    /// The key material the transform was built with.
    pub open spec fn spec_key(&self) -> Seq<u8> {
        match self {
            StreamCipherVariant::Table(c, _) => c.key@,
            StreamCipherVariant::Dummy(_, _) => Seq::empty(),
            StreamCipherVariant::Keystream(c, _) => c.key@,
            StreamCipherVariant::Cfb(c) => c.key@,
        }
    }

    /// The IV the transform was built with.
    pub open spec fn spec_iv(&self) -> Seq<u8> {
        match self {
            StreamCipherVariant::Table(_, _) => Seq::empty(),
            StreamCipherVariant::Dummy(_, _) => Seq::empty(),
            StreamCipherVariant::Keystream(c, _) => c.iv@,
            StreamCipherVariant::Cfb(c) => c.iv@,
        }
    }

    /// Every byte the transform has processed so far.
    pub open spec fn spec_hist(&self) -> Seq<u8> {
        match self {
            StreamCipherVariant::Table(_, h) => h@,
            StreamCipherVariant::Dummy(_, h) => h@,
            StreamCipherVariant::Keystream(_, h) => h@,
            StreamCipherVariant::Cfb(c) => c.hist@,
        }
    }

    pub open spec fn wf(&self) -> bool {
        match self {
            StreamCipherVariant::Table(c, _) => c.wf(),
            StreamCipherVariant::Dummy(_, _) => true,
            StreamCipherVariant::Keystream(c, h) => c.wf() && c.pos == h@.len(),
            StreamCipherVariant::Cfb(c) => c.wf(),
        }
    }

    /// The identity of the transform: everything but its progress.
    pub open spec fn same_id(&self, other: &Self) -> bool {
        &&& self.spec_method() == other.spec_method()
        &&& self.spec_mode() == other.spec_mode()
        &&& self.spec_key() == other.spec_key()
        &&& self.spec_iv() == other.spec_iv()
    }

    /// Transforms `data`, appending the output to `out`.
    ///
    /// The bytes appended are the next `data.len()` bytes of the
    /// whole-stream transform of everything processed so far.
    pub fn update(&mut self, data: &[u8], out: &mut Vec<u8>) -> (r: Result<(), Error>)
        requires
            old(self).wf(),
            old(self).spec_hist().len() + data@.len() <= usize::MAX,
        ensures
            r is Ok,
            final(self).wf(),
            final(self).same_id(old(self)),
            final(self).spec_hist() == old(self).spec_hist() + data@,
            final(out)@ == old(out)@ + spec_transform(
                old(self).spec_method(),
                old(self).spec_key(),
                old(self).spec_iv(),
                old(self).spec_mode(),
                old(self).spec_hist() + data@,
            ).skip(old(self).spec_hist().len() as int),
    {
        let ghost h0 = self.spec_hist();
        match self {
            StreamCipherVariant::Table(c, h) => {
                c.update(data, out);
                proof {
                    *h = Ghost(h@ + data@);
                    let key = c.key@;
                    let mode = c.mode;
                    assert(spec_table_transform(key, mode, h0 + data@).skip(h0.len() as int)
                        =~= spec_table_transform(key, mode, data@));
                }
            },
            StreamCipherVariant::Dummy(c, h) => {
                c.update(data, out);
                proof {
                    *h = Ghost(h@ + data@);
                    assert((h0 + data@).skip(h0.len() as int) =~= data@);
                }
            },
            StreamCipherVariant::Keystream(c, h) => {
                c.update(data, out);
                proof {
                    *h = Ghost(h@ + data@);
                    let t = c.kind;
                    let key = c.key@;
                    let iv = c.iv@;
                    assert(spec_xor_ks(t, key, iv, 0, h0 + data@).skip(h0.len() as int)
                        =~= spec_xor_ks(t, key, iv, h0.len(), data@));
                }
            },
            StreamCipherVariant::Cfb(c) => {
                c.update(data, out);
            },
        }
        Ok(())
    }

    /// Emits any trailing bytes; stream transforms have none.
    pub fn finalize(&mut self, out: &mut Vec<u8>) -> (r: Result<(), Error>)
        requires
            old(self).wf(),
        ensures
            r is Ok,
            *final(self) == *old(self),
            final(out)@ == old(out)@,
    {
        Ok(())
    }
}

/// Generate a specific cipher with key and initialization vector.
pub fn new_stream(t: CipherType, key: &[u8], iv: &[u8], mode: CryptoMode) -> (c:
    StreamCipherVariant)
    requires
        key@.len() == spec_key_size(t),
        iv@.len() == spec_iv_size(t),
    ensures
        c.wf(),
        c.spec_method() == t,
        c.spec_mode() == mode,
        c.spec_key() == key@,
        c.spec_iv() == iv@,
        c.spec_hist() == Seq::<u8>::empty(),
{
    proof {
        if spec_key_size(t) == 0 {
            assert(key@ =~= Seq::<u8>::empty());
        }
        if spec_iv_size(t) == 0 {
            assert(iv@ =~= Seq::<u8>::empty());
        }
    }
    match t {
        CipherType::Table => StreamCipherVariant::Table(
            TableCipher::new(key, mode),
            Ghost(Seq::empty()),
        ),
        CipherType::Dummy => StreamCipherVariant::Dummy(
            DummyCipher { mode },
            Ghost(Seq::empty()),
        ),
        CipherType::Rc4Md5 => StreamCipherVariant::Keystream(
            KeystreamCipher::new(t, key, iv, mode),
            Ghost(Seq::empty()),
        ),
        CipherType::ChaCha20 => StreamCipherVariant::Keystream(
            KeystreamCipher::new(t, key, iv, mode),
            Ghost(Seq::empty()),
        ),
        CipherType::Salsa20 => StreamCipherVariant::Keystream(
            KeystreamCipher::new(t, key, iv, mode),
            Ghost(Seq::empty()),
        ),
        CipherType::Aes128Cfb => StreamCipherVariant::Cfb(CfbCipher::new(t, key, iv, mode)),
        CipherType::Aes192Cfb => StreamCipherVariant::Cfb(CfbCipher::new(t, key, iv, mode)),
        CipherType::Aes256Cfb => StreamCipherVariant::Cfb(CfbCipher::new(t, key, iv, mode)),
    }
}

} // verus!
