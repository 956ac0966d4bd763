use iroh_mainline_address_lookup_blinded::blinding::verify;
use iroh_mainline_address_lookup_blinded::signable::encode_signable;
use n0_mainline::{MutableItem, SigningKey};

#[test]
fn signable_is_bencoded_seq_and_value() {
    assert_eq!(encode_signable(1, b"hello"), b"3:seqi1e1:v5:hello");
    assert_eq!(encode_signable(0, b""), b"3:seqi0e1:v0:");
    assert_eq!(encode_signable(-1, b"x"), b"3:seqi-1e1:v1:x");
    assert_eq!(
        encode_signable(1_700_000_000, &[b'a'; 12]),
        b"3:seqi1700000000e1:v12:aaaaaaaaaaaa"
    );
    assert_eq!(
        encode_signable(i64::MIN, b"x"),
        b"3:seqi-9223372036854775808e1:v1:x"
    );
    assert_eq!(
        encode_signable(i64::MAX, b"x"),
        b"3:seqi9223372036854775807e1:v1:x"
    );
}

#[test]
fn signable_is_what_mainline_signs() {
    let signer = SigningKey::from_bytes(&[8u8; 32]);
    for seq in [0, 1, -7, 1_700_000_000, i64::MIN, i64::MAX] {
        for value in [&b""[..], &b"hello"[..], &[0u8; 488][..]] {
            let item = MutableItem::new(&signer, value, seq, None);
            assert!(verify(
                item.key(),
                &encode_signable(seq, value),
                item.signature()
            ));
        }
    }
}

#[test]
fn signables_of_different_items_differ() {
    // A value that looks like the rest of a shorter one.
    assert_ne!(encode_signable(1, b"1:v0:"), encode_signable(1, b""));
    assert_ne!(encode_signable(1, b"1"), encode_signable(11, b""));
    assert_ne!(encode_signable(1, b"a"), encode_signable(-1, b"a"));
}
