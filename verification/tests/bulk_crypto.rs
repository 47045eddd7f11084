use fieldnotes::bulk_crypto::{bulk_decrypt, bulk_encrypt, seal_with_key};

#[test]
fn bulk_roundtrip_129kb() {
    // 129 KB, far over the keystore's per-call frame limit.
    let plaintext: Vec<u8> = (0..129 * 1024).map(|i| (i % 251) as u8).collect();

    let (key, nonce, ciphertext) = bulk_encrypt(&plaintext).expect("encrypt");

    assert_eq!(
        ciphertext.len(),
        plaintext.len() + 16,
        "expected a 16-byte tag appended"
    );
    assert_ne!(
        &ciphertext[..plaintext.len()],
        &plaintext[..],
        "ciphertext must differ from plaintext"
    );

    let recovered = bulk_decrypt(&key, &nonce, &ciphertext).expect("decrypt");
    assert_eq!(recovered, plaintext, "round-trip must return identical bytes");
}

#[test]
fn bulk_decrypt_rejects_tampering() {
    let plaintext = b"the cohort can read this; a tamperer cannot".to_vec();
    let (key, nonce, mut ciphertext) = bulk_encrypt(&plaintext).expect("encrypt");

    ciphertext[0] ^= 0x01;
    assert!(
        bulk_decrypt(&key, &nonce, &ciphertext).is_err(),
        "tampered ciphertext must fail authentication"
    );
}

#[test]
fn bulk_decrypt_rejects_wrong_key() {
    let plaintext = b"wrong key must not decrypt".to_vec();
    let (_key, nonce, ciphertext) = bulk_encrypt(&plaintext).expect("encrypt");

    assert!(
        bulk_decrypt(&[0u8; 32], &nonce, &ciphertext).is_err(),
        "wrong key must fail authentication"
    );
}

#[test]
fn bulk_decrypt_error_message_names_the_cause() {
    let err = bulk_decrypt(&[7u8; 32], &[1u8; 12], &[0u8; 10]).unwrap_err();
    assert_eq!(
        err,
        "bulk_decrypt: opening failed (wrong key/nonce or tampered ciphertext)"
    );
}

#[test]
fn seal_with_key_is_deterministic_and_opens() {
    let key = [3u8; 32];
    let nonce = [9u8; 12];
    let a = seal_with_key(&key, &nonce, b"same input").unwrap();
    let b = seal_with_key(&key, &nonce, b"same input").unwrap();
    assert_eq!(a, b);
    assert_eq!(a.len(), 10 + 16);
    assert_ne!(&a[..10], b"same input");
    assert_eq!(bulk_decrypt(&key, &nonce, &a).unwrap(), b"same input".to_vec());
}

#[test]
fn bulk_roundtrip_empty_plaintext() {
    let (key, nonce, ciphertext) = bulk_encrypt(&[]).expect("encrypt");
    assert_eq!(ciphertext.len(), 16);
    assert_eq!(bulk_decrypt(&key, &nonce, &ciphertext).unwrap(), Vec::<u8>::new());
}
