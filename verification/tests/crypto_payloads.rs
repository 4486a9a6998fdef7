use arcan::crypto::{decrypt_payload, derive_subkey, encrypt_payload, encrypt_with_nonce, CryptoError, EncryptedPayload};

#[test]
fn test_encrypt_decrypt_roundtrip() {
    let key = [42u8; 32];
    let plaintext = b"the quick brown fox jumps over the lazy dog";
    let vault = "vault-123";

    let enc = encrypt_payload(&key, plaintext, vault).expect("encryption failed");
    let decrypted = decrypt_payload(&key, &enc, vault).expect("decryption failed");
    assert_eq!(decrypted, plaintext);

    // pack/unpack roundtrip
    let packed = enc.pack();
    let unpacked = EncryptedPayload::unpack(&packed).expect("unpack failed");
    let decrypted2 = decrypt_payload(&key, &unpacked, vault).expect("decryption failed after unpack");
    assert_eq!(decrypted2, plaintext);
}

#[test]
fn test_unpack_short_payload() {
    let short = vec![0u8; 10];
    assert!(EncryptedPayload::unpack(&short).is_err());
}

#[test]
fn test_decrypt_with_wrong_key_or_aad_fails() {
    let key1 = [1u8; 32];
    let key2 = [2u8; 32];
    let plaintext = b"secret data";
    let vault = "vault-abc";

    let enc = encrypt_payload(&key1, plaintext, vault).expect("encryption failed");

    // Wrong key should fail
    assert!(decrypt_payload(&key2, &enc, vault).is_err());

    // Wrong AAD (vault id) should fail
    assert!(decrypt_payload(&key1, &enc, "other-vault").is_err());
}

#[test]
fn test_derive_subkey_deterministic() {
    let root = [0xABu8; 32];
    let s1 = derive_subkey(&root, "info");
    let s2 = derive_subkey(&root, "info");
    assert_eq!(s1, s2);

    let s3 = derive_subkey(&root, "other");
    assert_ne!(s1, s3);
}

#[test]
fn ciphertext_carries_sixteen_byte_tag() {
    let key = [7u8; 32];
    let enc = encrypt_payload(&key, b"abc", "v").unwrap();
    assert_eq!(enc.ciphertext.len(), 3 + 16);
    assert_ne!(&enc.ciphertext[..3], b"abc");
}

#[test]
fn pack_puts_nonce_first() {
    let p = EncryptedPayload { ciphertext: vec![9u8; 20], nonce: [3u8; 24] };
    let packed = p.pack();
    assert_eq!(packed.len(), 44);
    assert_eq!(&packed[..24], &[3u8; 24]);
    assert_eq!(&packed[24..], &[9u8; 20][..]);
}

#[test]
fn unpack_splits_at_nonce() {
    let mut bytes = vec![5u8; 24];
    bytes.extend_from_slice(&[6u8; 16]);
    let p = EncryptedPayload::unpack(&bytes).unwrap();
    assert_eq!(p.nonce, [5u8; 24]);
    assert_eq!(p.ciphertext, vec![6u8; 16]);
}

#[test]
fn unpack_refuses_thirty_nine_bytes_with_message() {
    let bytes = vec![0u8; 39];
    match EncryptedPayload::unpack(&bytes) {
        Err(msg) => assert_eq!(msg, "Payload too short to be valid XChaCha20Poly1305"),
        Ok(_) => panic!("accepted a short payload"),
    }
}

#[test]
fn tampered_ciphertext_is_refused() {
    let key = [11u8; 32];
    let mut enc = encrypt_payload(&key, b"payload", "id-1").unwrap();
    enc.ciphertext[0] ^= 1;
    assert_eq!(decrypt_payload(&key, &enc, "id-1"), Err(CryptoError::DecryptionFailed));
}

#[test]
fn encrypt_with_nonce_keeps_the_nonce() {
    let key = [1u8; 32];
    let enc = encrypt_with_nonce(&key, [8u8; 24], b"x", b"aad").unwrap();
    assert_eq!(enc.nonce, [8u8; 24]);
    assert_eq!(enc.ciphertext.len(), 17);
}

#[test]
fn subkey_matches_hkdf_sha256() {
    let root = [0x11u8; 32];
    let hk = hkdf::Hkdf::<sha2::Sha256>::new(None, &root);
    let mut expected = [0u8; 32];
    hk.expand(b"arcan-encryption", &mut expected).unwrap();
    assert_eq!(derive_subkey(&root, "arcan-encryption"), expected);
    assert_ne!(derive_subkey(&root, "arcan-encryption"), root);
}
