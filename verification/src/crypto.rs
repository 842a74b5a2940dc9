//! Cipher factory and stream transforms.

use vstd::prelude::*;

pub mod cfb;
pub mod cipher;
pub mod dummy;
pub mod keystream;
pub mod stream;
pub mod table;

verus! {

/// The direction of a stream transform.
#[derive(Clone, Copy, Debug, PartialEq, Eq, Structural)]
pub enum CryptoMode {
    Encrypt,
    Decrypt,
}

} // verus!
