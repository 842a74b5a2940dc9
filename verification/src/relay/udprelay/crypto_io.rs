//! Per-datagram encryption: each UDP datagram is `IV || ciphertext` for
//! methods with an IV, and bare ciphertext for the rest.

use vstd::prelude::*;
use crate::crypto::CryptoMode;
use crate::crypto::cipher::{spec_iv_size, spec_key_size, CipherType};
use crate::crypto::stream::{lemma_transform_len, new_stream, spec_transform};
use crate::error::Error;
use crate::relay::tcprelay::stream::{lemma_wire_round_trip, spec_decode_wire};

verus! {

/// Encrypts one datagram payload under a fresh random IV.  The result is
/// the IV in the clear followed by the ciphertext, and decodes back to the
/// payload.
pub fn encrypt_payload(t: CipherType, key: &[u8], payload: &[u8]) -> (r: Vec<u8>)
    requires
        key@.len() == spec_key_size(t),
        spec_iv_size(t) + payload@.len() <= usize::MAX,
    ensures
        r@.len() == spec_iv_size(t) + payload@.len(),
        spec_decode_wire(t, key@, r@) == payload@,
{
    let iv = t.gen_init_vec();
    let ghost iv_view = iv@;
    let mut cipher = new_stream(t, key, iv.as_slice(), CryptoMode::Encrypt);
    let mut out = iv;
    let _ = cipher.update(payload, &mut out);
    proof {
        lemma_transform_len(t, key@, iv_view, CryptoMode::Encrypt, payload@);
        assert((Seq::<u8>::empty() + payload@) =~= payload@);
        assert(out@ =~= iv_view + spec_transform(t, key@, iv_view, CryptoMode::Encrypt, payload@));
        lemma_wire_round_trip(t, key@, iv_view, payload@);
    }
    out
}

/// Decrypts one datagram: the first `iv_size` bytes are the sender's IV,
/// the rest the ciphertext.  A datagram shorter than the IV is rejected.
pub fn decrypt_payload(t: CipherType, key: &[u8], pkt: &[u8]) -> (r: Result<Vec<u8>, Error>)
    requires
        key@.len() == spec_key_size(t),
    ensures
        match r {
            Ok(p) => pkt@.len() >= spec_iv_size(t) && p@ == spec_decode_wire(t, key@, pkt@),
            Err(e) => pkt@.len() < spec_iv_size(t) && e == Error::UnexpectedEof,
        },
{
    let ivs = t.iv_size();
    if pkt.len() < ivs {
        return Err(Error::UnexpectedEof);
    }
    let iv = vstd::slice::slice_subrange(pkt, 0, ivs);
    let body = vstd::slice::slice_subrange(pkt, ivs, pkt.len());
    let mut cipher = new_stream(t, key, iv, CryptoMode::Decrypt);
    let mut out: Vec<u8> = Vec::new();
    let _ = cipher.update(body, &mut out);
    proof {
        assert((Seq::<u8>::empty() + body@) =~= body@);
        assert(iv@ =~= pkt@.take(ivs as int));
        assert(body@ =~= pkt@.skip(ivs as int));
        assert(out@ =~= spec_decode_wire(t, key@, pkt@));
    }
    Ok(out)
}

} // verus!
