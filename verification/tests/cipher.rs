use squirrel::encryption::{decrypt, encrypt, CryptoError};

fn key32() -> Vec<u8> {
    (0u8..32).collect()
}

fn iv16() -> Vec<u8> {
    (100u8..116).collect()
}

#[test]
fn round_trip_empty() {
    let c = encrypt(&[], &key32(), &iv16());
    assert_eq!(c.len(), 16);
    assert_eq!(decrypt(&c, &key32(), &iv16()).unwrap(), Vec::<u8>::new());
}

#[test]
fn round_trip_various_lengths() {
    for n in [1usize, 15, 16, 17, 31, 32, 33, 100, 1000] {
        let v: Vec<u8> = (0..n).map(|i| (i % 251) as u8).collect();
        let c = encrypt(&v, &key32(), &iv16());
        assert_eq!(c.len(), (n / 16 + 1) * 16);
        assert_eq!(decrypt(&c, &key32(), &iv16()).unwrap(), v);
    }
}

#[test]
fn known_aes256_block() {
    // The AES-256 example vector of FIPS-197: with a zero IV the first CBC
    // block equals the raw cipher of the first plaintext block.
    let key: Vec<u8> = (0u8..32).collect();
    let iv = vec![0u8; 16];
    let plaintext: Vec<u8> = vec![
        0x00, 0x11, 0x22, 0x33, 0x44, 0x55, 0x66, 0x77, 0x88, 0x99, 0xaa, 0xbb, 0xcc, 0xdd,
        0xee, 0xff,
    ];
    let expected_first_block: Vec<u8> = vec![
        0x8e, 0xa2, 0xb7, 0xca, 0x51, 0x67, 0x45, 0xbf, 0xea, 0xfc, 0x49, 0x90, 0x4b, 0x49,
        0x60, 0x89,
    ];
    let c = encrypt(&plaintext, &key, &iv);
    assert_eq!(c.len(), 32);
    assert_eq!(&c[0..16], expected_first_block.as_slice());
}

#[test]
fn decrypt_rejects_unaligned() {
    let c = encrypt(b"hello", &key32(), &iv16());
    let mut longer = c.clone();
    longer.push(0);
    assert!(matches!(
        decrypt(&longer, &key32(), &iv16()),
        Err(CryptoError::NotBlockAligned)
    ));
}

#[test]
fn decrypt_rejects_empty() {
    assert!(matches!(
        decrypt(&[], &key32(), &iv16()),
        Err(CryptoError::InvalidPadding)
    ));
}

#[test]
fn decrypt_wrong_key_fails_or_differs() {
    let v = b"a secret worth keeping".to_vec();
    let c = encrypt(&v, &key32(), &iv16());
    let mut wrong_key = key32();
    wrong_key[0] ^= 1;
    match decrypt(&c, &wrong_key, &iv16()) {
        Ok(w) => assert_ne!(w, v),
        Err(_) => {}
    }
}

#[test]
fn tampered_ciphertext_is_detected() {
    // Flipping the last byte of the last block garbles the padding byte;
    // at most 16 of its 256 values can look like valid padding, so among
    // all 255 flips the vast majority must be rejected.
    let v = b"tamper with me and see what happens".to_vec();
    let c = encrypt(&v, &key32(), &iv16());
    let last = c.len() - 1;
    let mut rejected = 0usize;
    for delta in 1u8..=255 {
        let mut corrupted = c.clone();
        corrupted[last] ^= delta;
        match decrypt(&corrupted, &key32(), &iv16()) {
            Ok(w) => assert_ne!(w, v),
            Err(CryptoError::InvalidPadding) => rejected += 1,
            Err(e) => panic!("unexpected error kind: {:?}", e),
        }
    }
    assert!(rejected >= 200);
}
