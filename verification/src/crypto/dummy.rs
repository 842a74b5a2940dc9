//! The identity cipher, used for testing.

use vstd::prelude::*;
use crate::crypto::CryptoMode;

verus! {

/// A cipher that passes bytes through unchanged.
pub struct DummyCipher {
    pub mode: CryptoMode,
}

impl DummyCipher {
    /// Appends `data` to `out` unchanged.
    pub fn update(&self, data: &[u8], out: &mut Vec<u8>)
        ensures
            final(out)@ == old(out)@ + data@,
    {
        out.extend_from_slice(data);
    }
}

} // verus!
