use chacha20poly1305::aead::{Aead, Payload};
use chacha20poly1305::{KeyInit, XChaCha20Poly1305};
use iroh_mainline_address_lookup_blinded::encryption::{
    derive_key, open, seal, seal_with_nonce, SealError, MAX_MESSAGE_LEN, NONCE_LEN, PAD_TO,
    TAG_LEN,
};

#[test]
fn seal_open_roundtrip() {
    let pk = [3u8; 32];
    let context = b"ctx";
    let plaintext = b"hello world";

    let sealed = seal(&pk, context, plaintext);
    // Fixed size regardless of content; fresh ciphertext on every seal,
    // so republishes are indistinguishable from data changes.
    assert_eq!(sealed.len(), PAD_TO + 24 + 16);
    assert_ne!(sealed, seal(&pk, context, plaintext));

    let opened = open(&pk, context, &sealed).unwrap();
    assert_eq!(&opened[..plaintext.len()], plaintext);
    assert!(opened[plaintext.len()..].iter().all(|&b| b == 0));

    // Wrong key or context fails closed.
    assert!(open(&[4u8; 32], context, &sealed).is_err());
    assert!(open(&pk, b"other-ctx", &sealed).is_err());
}

#[test]
fn payload_key_has_a_known_value() {
    let hex: String = derive_key(&[3u8; 32])
        .iter()
        .map(|b| format!("{:02x}", b))
        .collect();
    assert_eq!(
        hex,
        "9c3210adbaf075d4adca15e4c83062a6e06f50244210c521f3d3500022ee6a24"
    );
}

#[test]
fn sealed_record_is_nonce_and_ciphertext() {
    let pk = [3u8; 32];
    let nonce = [9u8; 24];
    let sealed = seal_with_nonce(&pk, b"ctx", b"hello world", &nonce);
    assert_eq!(sealed[..NONCE_LEN], nonce);

    let mut padded = b"hello world".to_vec();
    padded.resize(448, 0);
    let ciphertext = XChaCha20Poly1305::new(&derive_key(&pk).into())
        .encrypt(
            &nonce.into(),
            Payload {
                msg: &padded,
                aad: b"ctx",
            },
        )
        .unwrap();
    assert_eq!(&sealed[NONCE_LEN..], &ciphertext[..]);
    assert_eq!(open(&pk, b"ctx", &sealed), Ok(padded));
}

#[test]
fn records_up_to_the_padding_have_one_size() {
    let pk = [5u8; 32];
    for len in [0, 1, 447, 448] {
        let plaintext = vec![1u8; len];
        let sealed = seal(&pk, b"", &plaintext);
        assert_eq!(sealed.len(), 488);
        let opened = open(&pk, b"", &sealed).unwrap();
        assert_eq!(opened.len(), PAD_TO);
        assert_eq!(opened[..len], plaintext[..]);
        assert!(opened[len..].iter().all(|&b| b == 0));
    }
}

#[test]
fn longer_plaintexts_are_sealed_unpadded() {
    let pk = [5u8; 32];
    let plaintext = vec![1u8; 449];
    let sealed = seal(&pk, b"ctx", &plaintext);
    assert_eq!(sealed.len(), 449 + NONCE_LEN + TAG_LEN);
    assert_eq!(open(&pk, b"ctx", &sealed), Ok(plaintext));
}

#[test]
fn short_records_are_rejected() {
    let pk = [3u8; 32];
    assert_eq!(open(&pk, b"ctx", b""), Err(SealError::TooShort));
    assert_eq!(open(&pk, b"ctx", &[0u8; 39]), Err(SealError::TooShort));
    assert_eq!(open(&pk, b"ctx", &[0u8; 40]), Err(SealError::Failed));
    assert_eq!(SealError::TooShort.message(), "sealed record too short");
    assert_eq!(SealError::Failed.message(), "decryption failed");
}

#[test]
fn changed_records_do_not_open() {
    let pk = [3u8; 32];
    let sealed = seal(&pk, b"ctx", b"hello world");
    for i in [0, NONCE_LEN, sealed.len() - 1] {
        let mut changed = sealed.clone();
        changed[i] ^= 1;
        assert_eq!(open(&pk, b"ctx", &changed), Err(SealError::Failed));
    }
    assert_eq!(
        open(&pk, b"ctx", &sealed[..sealed.len() - 1]),
        Err(SealError::Failed)
    );
}

#[test]
fn only_one_tag_opens() {
    let pk = [3u8; 32];
    let sealed = seal(&pk, b"ctx", b"hello world");
    assert!(open(&pk, b"ctx", &sealed).is_ok());
    for i in 0..TAG_LEN {
        for bit in 0..8 {
            let mut changed = sealed.clone();
            changed[sealed.len() - 1 - i] ^= 1 << bit;
            assert_eq!(open(&pk, b"ctx", &changed), Err(SealError::Failed));
        }
    }
}

#[test]
fn longest_message_ends_with_the_key_stream() {
    // One of the blocks that a 32-bit counter counts is spent on the tag.
    assert_eq!(MAX_MESSAGE_LEN, 64 * (u64::from(u32::MAX) - 1));
}
