//! Cipher factory and transform behaviour, including the round-trip law on
//! concrete values for every method.

use shadowsocks::crypto::cipher::CipherType;
use shadowsocks::crypto::stream::new_stream;
use shadowsocks::relay::tcprelay::stream::EncryptedWriter;
use shadowsocks::crypto::CryptoMode;
use shadowsocks::error::Error;

fn encrypt_then_decrypt(t: CipherType, plaintext: &[u8]) -> (Vec<u8>, Vec<u8>) {
    let key = t.bytes_to_key(b"test-password");
    let iv = t.gen_init_vec();
    let mut enc = new_stream(t, &key, &iv, CryptoMode::Encrypt);
    let mut ct = Vec::new();
    enc.update(plaintext, &mut ct).unwrap();
    enc.finalize(&mut ct).unwrap();
    let mut dec = new_stream(t, &key, &iv, CryptoMode::Decrypt);
    let mut back = Vec::new();
    dec.update(&ct, &mut back).unwrap();
    dec.finalize(&mut back).unwrap();
    (ct, back)
}

fn all_methods() -> Vec<CipherType> {
    vec![
        CipherType::Table,
        CipherType::Dummy,
        CipherType::Rc4Md5,
        CipherType::Aes128Cfb,
        CipherType::Aes192Cfb,
        CipherType::Aes256Cfb,
        CipherType::ChaCha20,
        CipherType::Salsa20,
    ]
}

#[test]
fn round_trip_every_method_and_length() {
    let msg: Vec<u8> = (0u16..300).map(|i| (i % 251) as u8).collect();
    for t in all_methods() {
        // The table cipher rebuilds its permutation per instance, which is
        // costly; its transform is length-oblivious, so two lengths do.
        let lengths: &[usize] = if matches!(t, CipherType::Table) {
            &[0, 300]
        } else {
            &[0, 1, 15, 16, 17, 32, 255, 300]
        };
        for &len in lengths {
            let (_, back) = encrypt_then_decrypt(t, &msg[..len]);
            assert_eq!(back, &msg[..len], "round trip failed for {:?} at {}", t, len);
        }
    }
}

#[test]
fn round_trip_incremental_chunks() {
    // Encrypt in one piece, decrypt in odd-sized chunks: the stream state
    // must line up across update calls.
    let msg = b"The quick brown fox jumps over the lazy dog, repeatedly.";
    for t in all_methods() {
        let key = t.bytes_to_key(b"chunky");
        let iv = t.gen_init_vec();
        let mut enc = new_stream(t, &key, &iv, CryptoMode::Encrypt);
        let mut ct = Vec::new();
        for chunk in msg.chunks(7) {
            enc.update(chunk, &mut ct).unwrap();
        }
        let mut dec = new_stream(t, &key, &iv, CryptoMode::Decrypt);
        let mut back = Vec::new();
        for chunk in ct.chunks(5) {
            dec.update(chunk, &mut back).unwrap();
        }
        assert_eq!(back, msg, "chunked round trip failed for {:?}", t);
    }
}

#[test]
fn ciphertext_differs_from_plaintext() {
    // Catches a keystream or table that hands bytes back unchanged.
    let msg = [0u8; 64];
    for t in all_methods() {
        if matches!(t, CipherType::Dummy) {
            continue;
        }
        let (ct, _) = encrypt_then_decrypt(t, &msg);
        assert_ne!(ct, msg.to_vec(), "ciphertext equals plaintext for {:?}", t);
    }
}

#[test]
fn dummy_is_identity() {
    let msg = b"identity";
    let (ct, back) = encrypt_then_decrypt(CipherType::Dummy, msg);
    assert_eq!(ct, msg.to_vec());
    assert_eq!(back, msg.to_vec());
}

#[test]
fn bytes_to_key_is_md5_chain() {
    // For a 16-byte key the derivation is MD5(password) itself:
    // MD5("foo") = acbd18db4cc2f85cedef654fccc4a4d8.
    let key = CipherType::Rc4Md5.bytes_to_key(b"foo");
    assert_eq!(
        key,
        vec![
            0xac, 0xbd, 0x18, 0xdb, 0x4c, 0xc2, 0xf8, 0x5c, 0xed, 0xef, 0x65, 0x4f, 0xcc, 0xc4,
            0xa4, 0xd8,
        ]
    );
    // For a 32-byte key the second digest is MD5(d0 || password).
    // MD5(MD5("foo") || "foo") = e27b82673840625eb3105148fd5119fa.
    let key32 = CipherType::ChaCha20.bytes_to_key(b"foo");
    assert_eq!(key32.len(), 32);
    assert_eq!(&key32[..16], &key[..]);
    assert_eq!(
        &key32[16..],
        &[
            0xe2, 0x7b, 0x82, 0x67, 0x38, 0x40, 0x62, 0x5e, 0xb3, 0x10, 0x51, 0x48, 0xfd, 0x51,
            0x19, 0xfa,
        ]
    );
}

#[test]
fn aes128_cfb_known_keystream() {
    // With an all-zero key and IV, the first CFB keystream block is
    // AES-128(0^16, 0^16) = 66e94bd4ef8a2c3b884cfa59ca342b2e, so encrypting
    // zeros yields exactly that block.
    let key = [0u8; 16];
    let iv = vec![0u8; 16];
    let mut w = EncryptedWriter::new(CipherType::Aes128Cfb, &key, iv);
    let wire = w.write(&[0u8; 16]);
    assert_eq!(&wire[..16], &[0u8; 16]);
    assert_eq!(
        &wire[16..],
        &[
            0x66, 0xe9, 0x4b, 0xd4, 0xef, 0x8a, 0x2c, 0x3b, 0x88, 0x4c, 0xfa, 0x59, 0xca, 0x34,
            0x2b, 0x2e,
        ]
    );
}

#[test]
fn key_and_iv_sizes() {
    assert_eq!(CipherType::Table.key_size(), 16);
    assert_eq!(CipherType::Table.iv_size(), 0);
    assert_eq!(CipherType::Dummy.key_size(), 0);
    assert_eq!(CipherType::Rc4Md5.key_size(), 16);
    assert_eq!(CipherType::Rc4Md5.iv_size(), 16);
    assert_eq!(CipherType::Aes128Cfb.key_size(), 16);
    assert_eq!(CipherType::Aes192Cfb.key_size(), 24);
    assert_eq!(CipherType::Aes256Cfb.key_size(), 32);
    assert_eq!(CipherType::Aes256Cfb.iv_size(), 16);
    assert_eq!(CipherType::ChaCha20.key_size(), 32);
    assert_eq!(CipherType::ChaCha20.iv_size(), 8);
    assert_eq!(CipherType::Salsa20.key_size(), 32);
    assert_eq!(CipherType::Salsa20.iv_size(), 8);
    assert_eq!(CipherType::Salsa20.block_size(), 8);
}

#[test]
fn method_names() {
    assert_eq!(CipherType::from_name("table").unwrap(), CipherType::Table);
    assert_eq!(CipherType::from_name("dummy").unwrap(), CipherType::Dummy);
    assert_eq!(CipherType::from_name("rc4-md5").unwrap(), CipherType::Rc4Md5);
    assert_eq!(CipherType::from_name("aes-128-cfb").unwrap(), CipherType::Aes128Cfb);
    assert_eq!(CipherType::from_name("aes-192-cfb").unwrap(), CipherType::Aes192Cfb);
    assert_eq!(CipherType::from_name("aes-256-cfb").unwrap(), CipherType::Aes256Cfb);
    assert_eq!(CipherType::from_name("chacha20").unwrap(), CipherType::ChaCha20);
    assert_eq!(CipherType::from_name("salsa20").unwrap(), CipherType::Salsa20);
    assert_eq!(CipherType::from_name("aes-999-cfb").unwrap_err(), Error::UnsupportedMethod);
}

#[test]
fn gen_init_vec_length() {
    assert_eq!(CipherType::Aes256Cfb.gen_init_vec().len(), 16);
    assert_eq!(CipherType::ChaCha20.gen_init_vec().len(), 8);
    assert_eq!(CipherType::Table.gen_init_vec().len(), 0);
}

#[test]
fn table_cipher_is_deterministic_permutation() {
    // Same password, same table; every byte value appears exactly once.
    let t = CipherType::Table;
    let key = t.bytes_to_key(b"barfoo!");
    let iv: Vec<u8> = Vec::new();
    let all: Vec<u8> = (0u16..256).map(|b| b as u8).collect();
    let mut enc1 = new_stream(t, &key, &iv, CryptoMode::Encrypt);
    let mut ct1 = Vec::new();
    enc1.update(&all, &mut ct1).unwrap();
    let mut enc2 = new_stream(t, &key, &iv, CryptoMode::Encrypt);
    let mut ct2 = Vec::new();
    enc2.update(&all, &mut ct2).unwrap();
    assert_eq!(ct1, ct2);
    let mut seen = [false; 256];
    for b in &ct1 {
        assert!(!seen[*b as usize], "duplicate output byte");
        seen[*b as usize] = true;
    }
}
