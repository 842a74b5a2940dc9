//! Cipher methods: the closed set of stream ciphers spoken on the wire,
//! their key and IV sizes, and password-based key derivation.

use vstd::prelude::*;
use crate::error::Error;

verus! {

/// What the MD5 digest of a byte string is.  The bytes depend on the input
/// alone; the function itself is computed by an outside crate.
pub uninterp spec fn md5_of(data: Seq<u8>) -> Seq<u8>;

/// Relies on `md5::compute` for the MD5 digest; a digest is 16 bytes.
#[verifier::external_body]
pub fn md5_digest(data: &[u8]) -> (r: Vec<u8>)
    ensures
        r@ == md5_of(data@),
        r@.len() == 16,
{
    md5::compute(data).0.to_vec()
}

/// Relies on `rand::rng` and `Rng::fill_bytes` for random bytes.  Nothing
/// is known of the contents; only the length is fixed.
#[verifier::external_body]
fn random_bytes(n: usize) -> (r: Vec<u8>)
    ensures
        r@.len() == n,
{
    let mut buf = vec![0u8; n];
    rand::Rng::fill_bytes(&mut rand::rng(), &mut buf);
    buf
}

/// The closed enumeration of cipher methods supported on the wire.
#[derive(Clone, Copy, Debug, PartialEq, Eq, Structural)]
pub enum CipherType {
    /// XOR-permutation over a password-seeded 256-byte table.
    Table,
    /// Identity transform, for testing.
    Dummy,
    /// RC4 keyed by `MD5(key || iv)`.
    Rc4Md5,
    Aes128Cfb,
    Aes192Cfb,
    Aes256Cfb,
    ChaCha20,
    Salsa20,
}

/// The key size of a method, in bytes.
pub open spec fn spec_key_size(t: CipherType) -> nat {
    match t {
        CipherType::Table => 16,
        CipherType::Dummy => 0,
        CipherType::Rc4Md5 => 16,
        CipherType::Aes128Cfb => 16,
        CipherType::Aes192Cfb => 24,
        CipherType::Aes256Cfb => 32,
        CipherType::ChaCha20 => 32,
        CipherType::Salsa20 => 32,
    }
}

/// The IV size of a method, in bytes.  Table and dummy ignore IVs.
pub open spec fn spec_iv_size(t: CipherType) -> nat {
    match t {
        CipherType::Table => 0,
        CipherType::Dummy => 0,
        CipherType::Rc4Md5 => 16,
        CipherType::Aes128Cfb => 16,
        CipherType::Aes192Cfb => 16,
        CipherType::Aes256Cfb => 16,
        CipherType::ChaCha20 => 8,
        CipherType::Salsa20 => 8,
    }
}

/// The name a method is configured under.
pub open spec fn spec_method_of_name(s: Seq<char>) -> Option<CipherType> {
    if s == "table"@ {
        Some(CipherType::Table)
    } else if s == "dummy"@ {
        Some(CipherType::Dummy)
    } else if s == "rc4-md5"@ {
        Some(CipherType::Rc4Md5)
    } else if s == "aes-128-cfb"@ {
        Some(CipherType::Aes128Cfb)
    } else if s == "aes-192-cfb"@ {
        Some(CipherType::Aes192Cfb)
    } else if s == "aes-256-cfb"@ {
        Some(CipherType::Aes256Cfb)
    } else if s == "chacha20"@ {
        Some(CipherType::ChaCha20)
    } else if s == "salsa20"@ {
        Some(CipherType::Salsa20)
    } else {
        None
    }
}

/// Relies on `str`'s `PartialEq`: two string slices compare equal exactly
/// when they are the same sequence of characters.
#[verifier::external_body]
fn str_eq(a: &str, b: &str) -> (r: bool)
    ensures
        r <==> a@ == b@,
{
    a == b
}

// ---------------------------------------------------------------------------
// Key derivation
// ---------------------------------------------------------------------------

/// The `i`-th digest of the OpenSSL-style EVP_BytesToKey chain:
/// `d_0 = MD5(pwd)`, `d_i = MD5(d_{i-1} || pwd)`.
pub open spec fn spec_kdf_digest(pwd: Seq<u8>, i: nat) -> Seq<u8>
    decreases i,
{
    if i == 0 {
        md5_of(pwd)
    } else {
        md5_of(spec_kdf_digest(pwd, (i - 1) as nat) + pwd)
    }
}

/// The first `n` digests of the chain, concatenated.
pub open spec fn spec_kdf_material(pwd: Seq<u8>, n: nat) -> Seq<u8>
    decreases n,
{
    if n == 0 {
        Seq::empty()
    } else {
        spec_kdf_material(pwd, (n - 1) as nat) + spec_kdf_digest(pwd, (n - 1) as nat)
    }
}

/// The key a password derives for a method: the digest chain truncated to
/// the method's key size.
pub open spec fn spec_bytes_to_key(t: CipherType, pwd: Seq<u8>) -> Seq<u8> {
    spec_kdf_material(pwd, ((spec_key_size(t) + 15) / 16 as nat)).take(spec_key_size(t) as int)
}

impl CipherType {
    /// The key size of the method, in bytes.
    pub fn key_size(&self) -> (n: usize)
        ensures
            n as nat == spec_key_size(*self),
    {
        match self {
            CipherType::Table => 16,
            CipherType::Dummy => 0,
            CipherType::Rc4Md5 => 16,
            CipherType::Aes128Cfb => 16,
            CipherType::Aes192Cfb => 24,
            CipherType::Aes256Cfb => 32,
            CipherType::ChaCha20 => 32,
            CipherType::Salsa20 => 32,
        }
    }

    /// The IV size of the method, in bytes.
    pub fn iv_size(&self) -> (n: usize)
        ensures
            n as nat == spec_iv_size(*self),
    {
        match self {
            CipherType::Table => 0,
            CipherType::Dummy => 0,
            CipherType::Rc4Md5 => 16,
            CipherType::Aes128Cfb => 16,
            CipherType::Aes192Cfb => 16,
            CipherType::Aes256Cfb => 16,
            CipherType::ChaCha20 => 8,
            CipherType::Salsa20 => 8,
        }
    }

    /// Alias for [`Self::iv_size`]: the block size read off the wire before
    /// the ciphertext begins.
    pub fn block_size(&self) -> (n: usize)
        ensures
            n as nat == spec_iv_size(*self),
    {
        self.iv_size()
    }

    /// Looks a method up by its configured name.
    pub fn from_name(s: &str) -> (r: Result<CipherType, Error>)
        ensures
            match r {
                Ok(t) => spec_method_of_name(s@) == Some(t),
                Err(e) => e == Error::UnsupportedMethod && spec_method_of_name(s@) is None,
            },
    {
        if str_eq(s, "table") {
            Ok(CipherType::Table)
        } else if str_eq(s, "dummy") {
            Ok(CipherType::Dummy)
        } else if str_eq(s, "rc4-md5") {
            Ok(CipherType::Rc4Md5)
        } else if str_eq(s, "aes-128-cfb") {
            Ok(CipherType::Aes128Cfb)
        } else if str_eq(s, "aes-192-cfb") {
            Ok(CipherType::Aes192Cfb)
        } else if str_eq(s, "aes-256-cfb") {
            Ok(CipherType::Aes256Cfb)
        } else if str_eq(s, "chacha20") {
            Ok(CipherType::ChaCha20)
        } else if str_eq(s, "salsa20") {
            Ok(CipherType::Salsa20)
        } else {
            Err(Error::UnsupportedMethod)
        }
    }

    /// Derives the method's key from a password, by repeated MD5 extension
    /// truncated to the key size.
    pub fn bytes_to_key(&self, password: &[u8]) -> (key: Vec<u8>)
        ensures
            key@ == spec_bytes_to_key(*self, password@),
            key@.len() == spec_key_size(*self),
    {
        let ks = self.key_size();
        let rounds: usize = (ks + 15) / 16;
        let mut material: Vec<u8> = Vec::new();
        let mut digest: Vec<u8> = Vec::new();
        let mut i: usize = 0;
        while i < rounds
            invariant
                i <= rounds,
                material@ == spec_kdf_material(password@, i as nat),
                i > 0 ==> digest@ == spec_kdf_digest(password@, (i - 1) as nat),
                material@.len() == 16 * i,
            decreases rounds - i,
        {
            let d = if i == 0 {
                md5_digest(password)
            } else {
                let mut input: Vec<u8> = Vec::new();
                input.extend_from_slice(digest.as_slice());
                input.extend_from_slice(password);
                proof {
                    assert(input@ =~= spec_kdf_digest(password@, (i - 1) as nat) + password@);
                }
                md5_digest(input.as_slice())
            };
            proof {
                assert(d@ == spec_kdf_digest(password@, i as nat));
            }
            material.extend_from_slice(d.as_slice());
            digest = d;
            i = i + 1;
            proof {
                assert(material@ =~= spec_kdf_material(password@, i as nat));
            }
        }
        material.truncate(ks);
        proof {
            assert(material@ =~= spec_bytes_to_key(*self, password@));
        }
        material
    }

    /// Draws a fresh random IV of the method's IV size.
    pub fn gen_init_vec(&self) -> (iv: Vec<u8>)
        ensures
            iv@.len() == spec_iv_size(*self),
    {
        random_bytes(self.iv_size())
    }
}

} // verus!
