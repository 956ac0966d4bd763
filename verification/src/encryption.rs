//! Payload sealing for blinded records.
//!
//! The symmetric key is derived from the master *public* key: anyone who knows
//! the endpoint id (the same capability needed to even find the record) can
//! decrypt; DHT crawlers see only an opaque, fixed-size blob. This is a
//! capability scheme, not public-key encryption.
//!
//! The nonce is random, so every seal produces a fresh ciphertext even for
//! unchanged data: an observer of the pseudonym cannot distinguish a periodic
//! republish from an actual change of the record. What remains observable is
//! liveness only.
use vstd::prelude::*;
use vstd::utf8::{encode_utf8, is_ascii_chars, is_ascii_chars_encode_utf8};

use chacha20poly1305::aead::{Aead, OsRng, Payload};
use chacha20poly1305::{AeadCore, KeyInit, XChaCha20Poly1305};

use crate::bytes::{append, copy, first_half, zeros};
use crate::hashing::{sha512, sha512_digest};

verus! {

/// Domain separation for the symmetric key. A wire-format constant.
pub const KEY_DOMAIN: &'static str = "iroh blinded-lookup v1 payload key";

/// Plaintexts are zero-padded to this size before sealing so that record sizes
/// don't fingerprint their contents. Sealed size is `PAD_TO` + 24 (nonce) + 16
/// (tag) = 488 bytes, comfortably under the 1000 byte BEP44 value limit.
pub const PAD_TO: usize = 448;

/// Size of the nonce in front of a sealed record.
pub const NONCE_LEN: usize = 24;

/// Size of the authentication tag at the end of a sealed record.
pub const TAG_LEN: usize = 16;

/// The longest message that XChaCha20-Poly1305 takes: the key stream has 2^32 - 1
/// blocks of 64 bytes, of which the key of the tag takes the first.
pub const MAX_MESSAGE_LEN: u64 = 274_877_906_816;

/// Errors from [`open`].
#[derive(Debug, Clone, Copy, PartialEq, Eq, Structural)]
pub enum SealError {
    TooShort,
    Failed,
}

impl SealError {
    /// What went wrong, for people.
    pub open spec fn text(self) -> Seq<char> {
        match self {
            SealError::TooShort => "sealed record too short"@,
            SealError::Failed => "decryption failed"@,
        }
    }

    /// What went wrong, for people.
    pub fn message(&self) -> (text: String)
        ensures
            text@ == self.text(),
    {
        match self {
            SealError::TooShort => "sealed record too short".to_owned(),
            SealError::Failed => "decryption failed".to_owned(),
        }
    }
}

/// Whether XChaCha20-Poly1305 takes a message of this length.
pub open spec fn encryptable(len: nat) -> bool {
    len <= MAX_MESSAGE_LEN
}

/// The ciphertext, tag included, that XChaCha20-Poly1305 makes of `message`.
pub uninterp spec fn xchacha_encryption(
    key: Seq<u8>,
    nonce: Seq<u8>,
    message: Seq<u8>,
    aad: Seq<u8>,
) -> Seq<u8>;

/// The message that XChaCha20-Poly1305 decrypts `ciphertext` to, if it accepts
/// the tag.
pub uninterp spec fn xchacha_decryption(
    key: Seq<u8>,
    nonce: Seq<u8>,
    ciphertext: Seq<u8>,
    aad: Seq<u8>,
) -> Option<Seq<u8>>;

/// The symmetric key of the records of an endpoint.
pub open spec fn payload_key(master_pk: Seq<u8>) -> Seq<u8> {
    sha512_digest(encode_utf8(KEY_DOMAIN@) + master_pk).take(32)
}

/// `plaintext`, filled up with zeros to [`PAD_TO`] bytes.
pub open spec fn padded(plaintext: Seq<u8>) -> Seq<u8> {
    if plaintext.len() < PAD_TO {
        plaintext + zeros((PAD_TO - plaintext.len()) as nat)
    } else {
        plaintext
    }
}

/// The sealed record with a given nonce: `nonce || ciphertext`.
pub open spec fn sealed_record(
    master_pk: Seq<u8>,
    context: Seq<u8>,
    plaintext: Seq<u8>,
    nonce: Seq<u8>,
) -> Seq<u8> {
    nonce + xchacha_encryption(payload_key(master_pk), nonce, padded(plaintext), context)
}

/// Whether no other tag than its own makes `ciphertext` decrypt.
pub open spec fn one_tag_decrypts(
    key: Seq<u8>,
    nonce: Seq<u8>,
    ciphertext: Seq<u8>,
    aad: Seq<u8>,
) -> bool {
    forall|other: Seq<u8>|
        other.len() == ciphertext.len() && other.take(other.len() - TAG_LEN) == ciphertext.take(
            ciphertext.len() - TAG_LEN,
        ) && #[trigger] xchacha_decryption(key, nonce, other, aad) is Some ==> other == ciphertext
}

/// Whether a record that differs from `sealed` in its tag alone does not open.
pub open spec fn one_tag_opens(master_pk: Seq<u8>, context: Seq<u8>, sealed: Seq<u8>) -> bool {
    forall|other: Seq<u8>|
        other.len() == sealed.len() && other.take(other.len() - TAG_LEN) == sealed.take(
            sealed.len() - TAG_LEN,
        ) && other != sealed ==> #[trigger] opened_record(master_pk, context, other) == Err::<
            Seq<u8>,
            SealError,
        >(SealError::Failed)
}

/// What a record opens to.
pub open spec fn opened_record(master_pk: Seq<u8>, context: Seq<u8>, sealed: Seq<u8>) -> Result<
    Seq<u8>,
    SealError,
> {
    if sealed.len() < NONCE_LEN + TAG_LEN {
        Err(SealError::TooShort)
    } else if !encryptable((sealed.len() - NONCE_LEN - TAG_LEN) as nat) {
        Err(SealError::Failed)
    } else {
        match xchacha_decryption(
            payload_key(master_pk),
            sealed.take(NONCE_LEN as int),
            sealed.skip(NONCE_LEN as int),
            context,
        ) {
            Some(plaintext) => Ok(plaintext),
            None => Err(SealError::Failed),
        }
    }
}

/// Trusted: `XChaCha20Poly1305::generate_nonce` on the random number generator
/// of the operating system. Nothing is known of the bytes.
#[verifier::external_body]
fn random_nonce() -> (nonce: [u8; 24]) {
    XChaCha20Poly1305::generate_nonce(&mut OsRng).into()
}

/// Trusted: `Aead::encrypt` of `XChaCha20Poly1305`.
///
/// It fails, or panics at the end of the key stream, only on messages that are
/// not [`encryptable`], which are left out.
/// The ciphertext is a function of the four arguments and named
/// [`xchacha_encryption`]; it is the message's length plus a tag, and the same
/// key, nonce and associated data decrypt it to the message.
#[verifier::external_body]
fn encrypt(key: &[u8; 32], nonce: &[u8; 24], message: &[u8], aad: &[u8]) -> (ciphertext: Vec<u8>)
    requires
        encryptable(message@.len()),
    ensures
        ciphertext@ == xchacha_encryption(key@, nonce@, message@, aad@),
        ciphertext@.len() == message@.len() + TAG_LEN,
        xchacha_decryption(key@, nonce@, ciphertext@, aad@) == Some(message@),
{
    XChaCha20Poly1305::new(key.into())
        .encrypt(nonce.into(), Payload { msg: message, aad })
        .expect("encryption is infallible for in-memory buffers")
}

/// Trusted: `Aead::decrypt` of `XChaCha20Poly1305`, with `None` for its error.
///
/// Ciphertexts of messages that are not [`encryptable`] are left out: at the end
/// of the key stream it panics. The result is a function of the four arguments
/// and named [`xchacha_decryption`]. Decryption computes the tag of the
/// ciphertext and compares it with the given one, so no other is accepted in its
/// place, and strips the key stream, so a ciphertext that it accepts is the one
/// that the decrypted message encrypts to.
#[verifier::external_body]
fn decrypt(key: &[u8; 32], nonce: &[u8; 24], ciphertext: &[u8], aad: &[u8]) -> (message: Option<
    Vec<u8>,
>)
    requires
        ciphertext@.len() >= TAG_LEN ==> encryptable((ciphertext@.len() - TAG_LEN) as nat),
    ensures
        message is Some <==> xchacha_decryption(key@, nonce@, ciphertext@, aad@) is Some,
        message matches Some(m) ==> {
            &&& xchacha_decryption(key@, nonce@, ciphertext@, aad@) == Some(m@)
            &&& xchacha_encryption(key@, nonce@, m@, aad@) == ciphertext@
            &&& encryptable(m@.len())
            &&& ciphertext@.len() == m@.len() + TAG_LEN
            &&& one_tag_decrypts(key@, nonce@, ciphertext@, aad@)
        },
{
    XChaCha20Poly1305::new(key.into())
        .decrypt(nonce.into(), Payload { msg: ciphertext, aad })
        .ok()
}

/// Derives the symmetric key of the records of an endpoint.
pub fn derive_key(master_pk: &[u8; 32]) -> (key: [u8; 32])
    ensures
        key@ == payload_key(master_pk@),
{
    let mut input = copy(KEY_DOMAIN.as_bytes());
    append(&mut input, master_pk);
    first_half(&sha512(&input))
}

/// Seals a plaintext for the given master public key.
///
/// Returns `nonce || ciphertext`. The plaintext is zero-padded to [`PAD_TO`]
/// (postcard tolerates trailing zeros, so no length prefix is needed); longer
/// plaintexts are sealed unpadded rather than rejected.
///
/// Whatever the nonce turns out to be, the record opens to the padded plaintext
/// and its size depends only on the size of the padded plaintext.
pub fn seal(master_pk: &[u8; 32], context: &[u8], plaintext: &[u8]) -> (sealed: Vec<u8>)
    requires
        encryptable(plaintext@.len()),
    ensures
        sealed@ == sealed_record(
            master_pk@,
            context@,
            plaintext@,
            sealed@.take(NONCE_LEN as int),
        ),
        sealed@.len() == padded(plaintext@).len() + NONCE_LEN + TAG_LEN,
        opened_record(master_pk@, context@, sealed@) == Ok::<Seq<u8>, SealError>(
            padded(plaintext@),
        ),
{
    let nonce = random_nonce();
    let sealed = seal_with_nonce(master_pk, context, plaintext, &nonce);
    assert(sealed@.take(NONCE_LEN as int) =~= nonce@);
    sealed
}

/// Seals a plaintext for the given master public key with a given nonce.
///
/// A nonce must not be used twice for one key; [`seal`] draws a random one.
pub fn seal_with_nonce(
    master_pk: &[u8; 32],
    context: &[u8],
    plaintext: &[u8],
    nonce: &[u8; 24],
) -> (sealed: Vec<u8>)
    requires
        encryptable(plaintext@.len()),
    ensures
        sealed@ == sealed_record(master_pk@, context@, plaintext@, nonce@),
        sealed@.len() == padded(plaintext@).len() + NONCE_LEN + TAG_LEN,
        opened_record(master_pk@, context@, sealed@) == Ok::<Seq<u8>, SealError>(
            padded(plaintext@),
        ),
{
    let key = derive_key(master_pk);

    let mut padded_plaintext = copy(plaintext);
    if padded_plaintext.len() < PAD_TO {
        padded_plaintext.resize(PAD_TO, 0);
    }
    assert(padded_plaintext@ =~= padded(plaintext@)) by {
        if plaintext@.len() < PAD_TO {
            assert(padded_plaintext@.subrange(0, plaintext@.len() as int) == plaintext@);
            assert forall|i: int| 0 <= i < plaintext@.len() implies padded_plaintext@[i]
                == plaintext@[i] by {
                assert(padded_plaintext@.subrange(0, plaintext@.len() as int)[i]
                    == padded_plaintext@[i]);
            }
        }
    }

    let ciphertext = encrypt(&key, nonce, &padded_plaintext, context);

    let mut sealed: Vec<u8> = copy(nonce);
    append(&mut sealed, &ciphertext);
    assert(sealed@.take(NONCE_LEN as int) =~= nonce@);
    assert(sealed@.skip(NONCE_LEN as int) =~= ciphertext@);
    sealed
}

/// What holds of the tag of a ciphertext holds of the tag of its record.
proof fn lemma_one_tag(master_pk: Seq<u8>, context: Seq<u8>, sealed: Seq<u8>)
    requires
        NONCE_LEN + TAG_LEN <= sealed.len(),
        one_tag_decrypts(
            payload_key(master_pk),
            sealed.take(NONCE_LEN as int),
            sealed.skip(NONCE_LEN as int),
            context,
        ),
    ensures
        one_tag_opens(master_pk, context, sealed),
{
    let nonce = sealed.take(NONCE_LEN as int);
    let ciphertext = sealed.skip(NONCE_LEN as int);
    let body = sealed.take(sealed.len() - TAG_LEN);
    assert forall|other: Seq<u8>|
        other.len() == sealed.len() && other.take(other.len() - TAG_LEN) == body && other
            != sealed implies #[trigger] opened_record(master_pk, context, other) == Err::<
        Seq<u8>,
        SealError,
    >(SealError::Failed) by {
        let changed = other.skip(NONCE_LEN as int);
        assert(nonce =~= body.take(NONCE_LEN as int));
        assert(other.take(NONCE_LEN as int) =~= body.take(NONCE_LEN as int));
        assert(ciphertext.take(ciphertext.len() - TAG_LEN) =~= body.skip(NONCE_LEN as int));
        assert(changed.take(changed.len() - TAG_LEN) =~= body.skip(NONCE_LEN as int));
        if xchacha_decryption(payload_key(master_pk), nonce, changed, context) is Some {
            assert(other =~= nonce + changed);
            assert(sealed =~= nonce + ciphertext);
        }
    }
}

/// Opens a sealed record for the given master public key.
///
/// Returns the padded plaintext; decode with a format that tolerates trailing
/// zeros (postcard does).
///
/// Only a record that was sealed under this key and context opens: one that
/// does is its nonce followed by the encryption of what it opens to, and with any
/// other tag it does not open.
pub fn open(master_pk: &[u8; 32], context: &[u8], sealed: &[u8]) -> (opened: Result<
    Vec<u8>,
    SealError,
>)
    ensures
        match opened {
            Ok(plaintext) => {
                &&& opened_record(master_pk@, context@, sealed@) == Ok::<Seq<u8>, SealError>(
                    plaintext@,
                )
                &&& sealed@ == sealed@.take(NONCE_LEN as int) + xchacha_encryption(
                    payload_key(master_pk@),
                    sealed@.take(NONCE_LEN as int),
                    plaintext@,
                    context@,
                )
                &&& sealed@.len() == plaintext@.len() + NONCE_LEN + TAG_LEN
                &&& one_tag_opens(master_pk@, context@, sealed@)
            },
            Err(error) => opened_record(master_pk@, context@, sealed@) == Err::<Seq<u8>, SealError>(
                error,
            ),
        },
{
    if sealed.len() < NONCE_LEN + TAG_LEN {
        return Err(SealError::TooShort);
    }
    if (sealed.len() - NONCE_LEN - TAG_LEN) as u64 > MAX_MESSAGE_LEN {
        return Err(SealError::Failed);
    }
    let key = derive_key(master_pk);
    let mut nonce = [0u8; 24];
    for i in 0..NONCE_LEN
        invariant
            sealed@.len() >= NONCE_LEN,
            forall|j: int| 0 <= j < i ==> nonce@[j] == sealed@[j],
    {
        nonce[i] = sealed[i];
    }
    assert(nonce@ =~= sealed@.take(NONCE_LEN as int));
    let (_, ciphertext) = sealed.split_at(NONCE_LEN);
    assert(ciphertext@ =~= sealed@.skip(NONCE_LEN as int));
    match decrypt(&key, &nonce, ciphertext, context) {
        Some(plaintext) => {
            assert(sealed@ =~= nonce@ + ciphertext@);
            proof {
                lemma_one_tag(master_pk@, context@, sealed@);
            }
            Ok(plaintext)
        },
        None => Err(SealError::Failed),
    }
}

/// Padding keeps the plaintext in front and adds nothing but zeros.
pub proof fn padding_appends_zeros(plaintext: Seq<u8>)
    ensures
        plaintext.len() <= padded(plaintext).len(),
        padded(plaintext).take(plaintext.len() as int) == plaintext,
        forall|i: int|
            plaintext.len() <= i < padded(plaintext).len() ==> #[trigger] padded(plaintext)[i] == 0,
{
    assert(padded(plaintext).take(plaintext.len() as int) =~= plaintext);
}

/// Sealed records do not tell the size of what they hold, as long as it is no
/// longer than [`PAD_TO`]: they all have one size, which a DHT node takes.
pub proof fn sealed_size_is_uniform(plaintext: Seq<u8>)
    requires
        plaintext.len() <= PAD_TO,
    ensures
        padded(plaintext).len() + NONCE_LEN + TAG_LEN == 488,
        padded(plaintext).len() + NONCE_LEN + TAG_LEN <= 1000,
{
}

/// The payload key comes from the one string that consists of the domain and all
/// bytes of the endpoint id, so that the id can be read back from what is hashed.
pub proof fn payload_key_hashes_the_whole_id(master_pk: Seq<u8>, hashed: Seq<u8>)
    requires
        master_pk.len() == 32,
        hashed.len() == 34 + 32,
        hashed.take(34) == encode_utf8("iroh blinded-lookup v1 payload key"@),
        hashed.skip(34) == master_pk,
    ensures
        payload_key(master_pk) == sha512_digest(hashed).take(32),
{
    reveal_strlit("iroh blinded-lookup v1 payload key");
    assert(is_ascii_chars("iroh blinded-lookup v1 payload key"@));
    is_ascii_chars_encode_utf8("iroh blinded-lookup v1 payload key"@);
    assert(hashed =~= hashed.take(34) + hashed.skip(34));
}

/// The payload keys of different endpoints come from the hashes of different
/// strings: two endpoints share one only where the hashes of two strings that
/// differ agree in their first half.
pub proof fn ids_are_hashed_apart(
    master_a: Seq<u8>,
    hashed_a: Seq<u8>,
    master_b: Seq<u8>,
    hashed_b: Seq<u8>,
)
    requires
        master_a.len() == 32,
        hashed_a.len() == 34 + 32,
        hashed_a.take(34) == encode_utf8("iroh blinded-lookup v1 payload key"@),
        hashed_a.skip(34) == master_a,
        master_b.len() == 32,
        hashed_b.len() == 34 + 32,
        hashed_b.take(34) == encode_utf8("iroh blinded-lookup v1 payload key"@),
        hashed_b.skip(34) == master_b,
        master_a != master_b,
    ensures
        hashed_a != hashed_b,
        payload_key(master_a) == payload_key(master_b) <==> sha512_digest(hashed_a).take(32)
            == sha512_digest(hashed_b).take(32),
{
    payload_key_hashes_the_whole_id(master_a, hashed_a);
    payload_key_hashes_the_whole_id(master_b, hashed_b);
}

/// Padding fills short plaintexts up to 448 bytes and leaves all others alone: the
/// padded plaintext is the plaintext with zeros behind it.
pub proof fn padding_fills_up_with_zeros(plaintext: Seq<u8>, filled: Seq<u8>)
    requires
        filled.len() == if plaintext.len() < 448 { 448 } else { plaintext.len() },
        filled.take(plaintext.len() as int) == plaintext,
        forall|i: int| plaintext.len() <= i < filled.len() ==> #[trigger] filled[i] == 0,
    ensures
        padded(plaintext) == filled,
{
    assert forall|i: int| 0 <= i < plaintext.len() implies filled[i] == plaintext[i] by {
        assert(filled.take(plaintext.len() as int)[i] == filled[i]);
    }
    assert(padded(plaintext) =~= filled);
}

/// A sealed record is the nonce, and behind it the encryption of the plaintext and
/// the zeros that fill it up, under a key that comes from the whole endpoint id and
/// with the whole context as associated data.
pub proof fn sealed_record_is_nonce_and_ciphertext(
    master_pk: Seq<u8>,
    context: Seq<u8>,
    plaintext: Seq<u8>,
    nonce: Seq<u8>,
    hashed: Seq<u8>,
    filled: Seq<u8>,
)
    requires
        master_pk.len() == 32,
        nonce.len() == 24,
        hashed.len() == 34 + 32,
        hashed.take(34) == encode_utf8("iroh blinded-lookup v1 payload key"@),
        hashed.skip(34) == master_pk,
        filled.len() == if plaintext.len() < 448 { 448 } else { plaintext.len() },
        filled.take(plaintext.len() as int) == plaintext,
        forall|i: int| plaintext.len() <= i < filled.len() ==> #[trigger] filled[i] == 0,
    ensures
        sealed_record(master_pk, context, plaintext, nonce).take(24) == nonce,
        sealed_record(master_pk, context, plaintext, nonce).skip(24) == xchacha_encryption(
            sha512_digest(hashed).take(32),
            nonce,
            filled,
            context,
        ),
{
    payload_key_hashes_the_whole_id(master_pk, hashed);
    padding_fills_up_with_zeros(plaintext, filled);
    let sealed = sealed_record(master_pk, context, plaintext, nonce);
    assert(sealed.take(24) =~= nonce);
    assert(sealed.skip(24) =~= xchacha_encryption(payload_key(master_pk), nonce, filled, context));
}

/// A record opens to what its ciphertext decrypts to under a key that comes from the
/// whole endpoint id and with the whole context as associated data. It is too short
/// where it has no room for nonce and tag, and fails in every other case.
pub proof fn opening_decrypts_the_ciphertext(
    master_pk: Seq<u8>,
    context: Seq<u8>,
    sealed: Seq<u8>,
    hashed: Seq<u8>,
    plaintext: Seq<u8>,
)
    requires
        master_pk.len() == 32,
        hashed.len() == 34 + 32,
        hashed.take(34) == encode_utf8("iroh blinded-lookup v1 payload key"@),
        hashed.skip(34) == master_pk,
    ensures
        opened_record(master_pk, context, sealed) == Err::<Seq<u8>, SealError>(SealError::TooShort)
            <==> sealed.len() < 40,
        opened_record(master_pk, context, sealed) == Ok::<Seq<u8>, SealError>(plaintext) <==> {
            &&& 40 <= sealed.len() <= 40 + 274_877_906_816
            &&& xchacha_decryption(
                sha512_digest(hashed).take(32),
                sealed.take(24),
                sealed.skip(24),
                context,
            ) == Some(plaintext)
        },
{
    payload_key_hashes_the_whole_id(master_pk, hashed);
}

} // verus!
