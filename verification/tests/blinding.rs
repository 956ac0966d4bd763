use ed25519_dalek::{Signature, VerifyingKey};
use iroh_mainline_address_lookup_blinded::blinding::{
    blind_public_key, blinding_factor, verify, verify_strict, BlindedKeypair, InvalidKey,
};
use iroh_mainline_address_lookup_blinded::keys::SecretKey;

fn hex(bytes: &[u8]) -> String {
    bytes.iter().map(|b| format!("{:02x}", b)).collect()
}

#[test]
fn blinded_signatures_verify_and_keys_agree() {
    let secret = SecretKey::from_bytes(&[7u8; 32]);
    let master_pk = secret.public();
    let context = b"test-context";

    let keypair = BlindedKeypair::from_master(&secret, context);
    // Insider derivation from the public key matches the owner's keypair.
    let derived = blind_public_key(&master_pk, context).unwrap();
    assert_eq!(keypair.public_bytes(), derived);
    // The pseudonym is not the master key, and contexts don't collide.
    assert_ne!(derived, master_pk);
    assert_ne!(
        derived,
        blind_public_key(&master_pk, b"other-context").unwrap()
    );

    // Signatures verify under the plain ed25519 verifier (what DHT nodes run).
    let message = b"3:seqi1e1:v5:hello";
    let sig = keypair.sign(message);
    let verifier = VerifyingKey::from_bytes(&derived).unwrap();
    verifier
        .verify_strict(message, &Signature::from_bytes(&sig))
        .unwrap();
}

#[test]
fn derivations_have_known_values() {
    let secret = SecretKey::from_bytes(&[7u8; 32]);
    assert_eq!(secret.to_bytes(), [7u8; 32]);
    let master_pk = secret.public();
    assert_eq!(
        hex(&master_pk),
        "ea4a6c63e29c520abef5507b132ec5f9954776aebebe7b92421eea691446d22c"
    );
    assert_eq!(
        hex(&blinding_factor(&master_pk, b"test-context")),
        "9f5c08830ba570f7a247d29e4f6d4a85721e2023d1adc1b313646ed2367e4002"
    );
    assert_eq!(
        hex(&blind_public_key(&master_pk, b"test-context").unwrap()),
        "40c3ff4c03cf848b2fe48b7c45038e1707f5b407c66dc4e3d3286e2354f6ad86"
    );
    let keypair = BlindedKeypair::from_master(&secret, b"test-context");
    assert_eq!(
        hex(&keypair.sign(b"3:seqi1e1:v5:hello")),
        "39bbdd3dda797501cf1d3db7d957328ef8f38da7609b8806e8c98636298fef7a\
         e71281579add2c4fb643667158b055bc00593c20fc7c1808988ee89231f14d0e"
    );
}

#[test]
fn master_public_key_is_iroh_endpoint_id() {
    let secret = SecretKey::from_bytes(&[42u8; 32]);
    let endpoint_id = iroh::SecretKey::from_bytes(&[42u8; 32]).public();
    assert_eq!(&secret.public(), endpoint_id.as_bytes());
}

#[test]
fn invalid_key_is_rejected() {
    assert_eq!(blind_public_key(&[2u8; 32], b"ctx"), Err(InvalidKey));
    assert_eq!(InvalidKey.message(), "invalid ed25519 public key");
}

#[test]
fn verify_tells_signatures_apart() {
    let keypair = BlindedKeypair::from_master(&SecretKey::from_bytes(&[1u8; 32]), b"ctx");
    let other = BlindedKeypair::from_master(&SecretKey::from_bytes(&[1u8; 32]), b"ctx2");
    let public = keypair.public_bytes();
    let signature = keypair.sign(b"message");
    assert!(verify(&public, b"message", &signature));
    // Signing is deterministic.
    assert_eq!(signature, keypair.sign(b"message"));
    assert!(!verify(&public, b"massage", &signature));
    assert!(!verify(&other.public_bytes(), b"message", &signature));
    let mut forged = signature;
    forged[0] ^= 1;
    assert!(!verify(&public, b"message", &forged));
    // Not a key at all.
    assert!(!verify(&[2u8; 32], b"message", &signature));
}

#[test]
fn keys_agree_for_many_seeds_and_contexts() {
    for i in 0..16u8 {
        let secret = SecretKey::from_bytes(&[i; 32]);
        let context = vec![i; i as usize];
        let keypair = BlindedKeypair::from_master(&secret, &context);
        assert_eq!(
            Ok(keypair.public_bytes()),
            blind_public_key(&secret.public(), &context)
        );
        let signature = keypair.sign(&context);
        assert!(verify(&keypair.public_bytes(), &context, &signature));
    }
}

#[test]
fn blinded_key_is_a_key() {
    let master_pk = SecretKey::from_bytes(&[7u8; 32]).public();
    let blinded = blind_public_key(&master_pk, b"one").unwrap();
    assert!(VerifyingKey::from_bytes(&blinded).is_ok());
    let again = blind_public_key(&blinded, b"two").unwrap();
    assert!(VerifyingKey::from_bytes(&again).is_ok());
}

#[test]
fn pseudonyms_differ_with_the_blinding_factor() {
    let master_pk = SecretKey::from_bytes(&[7u8; 32]).public();
    let mut one = [0u8; 32];
    one[0] = 1;
    let mut seen = vec![master_pk];
    let mut factors = vec![one];
    for context in [&b""[..], &b"a"[..], &b"b"[..], &b"iroh-blinded-lookup/v1"[..]] {
        let factor = blinding_factor(&master_pk, context);
        let blinded = blind_public_key(&master_pk, context).unwrap();
        assert!(!factors.contains(&factor));
        assert!(!seen.contains(&blinded));
        factors.push(factor);
        seen.push(blinded);
    }
}

#[test]
fn signatures_verify_strictly() {
    let secret = SecretKey::from_bytes(&[7u8; 32]);
    let keypair = BlindedKeypair::from_master(&secret, b"test-context");
    let derived = blind_public_key(&secret.public(), b"test-context").unwrap();
    let message = b"3:seqi1e1:v5:hello";
    let signature = keypair.sign(message);
    assert!(verify_strict(&derived, message, &signature));
    assert!(!verify_strict(&derived, b"other", &signature));
    assert!(!verify_strict(&[2u8; 32], message, &signature));
}

#[test]
fn strict_verification_refuses_small_order() {
    // The neutral element as key and as first half, and zero as second half,
    // satisfy the plain equation.
    let mut neutral = [0u8; 32];
    neutral[0] = 1;
    let mut signature = [0u8; 64];
    signature[0] = 1;
    assert!(verify(&neutral, b"message", &signature));
    assert!(!verify_strict(&neutral, b"message", &signature));
}

#[test]
fn blinded_keys_do_not_have_small_order() {
    for i in 0..16u8 {
        let secret = SecretKey::from_bytes(&[i; 32]);
        for context in [&b""[..], &[i][..], &b"iroh-blinded-lookup/v1"[..]] {
            assert_ne!(blinding_factor(&secret.public(), context), [0u8; 32]);
            let public = BlindedKeypair::from_master(&secret, context).public_bytes();
            assert!(!VerifyingKey::from_bytes(&public).unwrap().is_weak());
        }
    }
}
