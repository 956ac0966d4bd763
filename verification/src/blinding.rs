//! Ed25519 key blinding in the style of Tor v3 onion services (rend-spec-v3 A.2).
//!
//! A blinded key `A' = h·A` with `h = H(domain | A | context)` is a valid ed25519
//! verifying key. The owner of the master secret can sign under `A'`; anyone who
//! knows the master public key `A` can derive `A'`; nobody else can link `A'` back
//! to `A` or register `A'` themselves.
//!
//! Note: soundness assumes the master key is an honestly generated ed25519 key
//! (a point in the prime-order subgroup), which holds for iroh endpoint ids.
use vstd::prelude::*;
use vstd::utf8::{encode_utf8, is_ascii_chars, is_ascii_chars_encode_utf8};

use crate::bytes::{append, copy, first_half, le_value};
use crate::curve::{
    base_multiple, basepoint_multiple, check_signature, check_signature_strictly, clamp,
    clamped_scalar, clamped_scalar_is_not_zero, ed25519_signature, ed25519_verifies,
    ed25519_verifies_strictly, edwards_multiple, expand_secret, group_order, has_small_order,
    is_edwards_point, multiple_has_large_order, multiples_differ, nonce_scalar, point_multiple,
    reduce, scalar_product, scales_as_base_multiple, seed_prefix, seed_scalar, sign_with_scalar,
};
use crate::hashing::{sha512, sha512_digest};
use crate::keys::SecretKey;

verus! {

/// Domain separation for the blinding factor. Baked into every derived id:
/// changing it re-keys all pseudonyms, so treat it like a wire-format constant.
pub const BLIND_DOMAIN: &'static str = "iroh blinded-lookup v0 key blinding";

/// Domain separation for the deterministic nonce prefix of blinded signing.
pub const PREFIX_DOMAIN: &'static str = "iroh blinded-lookup v0 nonce prefix";

/// Error for a master key that is not a valid ed25519 point.
#[derive(Debug, Clone, Copy, PartialEq, Eq, Structural)]
pub struct InvalidKey;

impl InvalidKey {
    /// What went wrong, for people.
    pub open spec fn text(self) -> Seq<char> {
        "invalid ed25519 public key"@
    }

    /// What went wrong, for people.
    pub fn message(&self) -> (text: String)
        ensures
            text@ == self.text(),
    {
        "invalid ed25519 public key".to_owned()
    }
}

/// The blinding factor for a master public key and a context: the lower half of
/// the domain-separated hash of the two, clamped and reduced.
pub open spec fn blinding_scalar(master_pk: Seq<u8>, context: Seq<u8>) -> nat {
    clamped_scalar(sha512_digest(encode_utf8(BLIND_DOMAIN@) + master_pk + context).take(32))
}

/// The blinded public key for a master public key and a context, where the
/// master key is a point at all.
pub open spec fn blinded_public_key(master_pk: Seq<u8>, context: Seq<u8>) -> Option<Seq<u8>> {
    if is_edwards_point(master_pk) {
        Some(edwards_multiple(master_pk, blinding_scalar(master_pk, context)))
    } else {
        None
    }
}

/// The secret scalar of the blinded key.
pub open spec fn blinded_secret_scalar(seed: Seq<u8>, context: Seq<u8>) -> nat {
    (seed_scalar(seed) * blinding_scalar(basepoint_multiple(seed_scalar(seed)), context))
        % group_order()
}

/// The nonce prefix of the blinded key: the lower half of the domain-separated
/// hash of the master nonce prefix and the context.
pub open spec fn blinded_prefix(seed: Seq<u8>, context: Seq<u8>) -> Seq<u8> {
    sha512_digest(encode_utf8(PREFIX_DOMAIN@) + seed_prefix(seed) + context).take(32)
}

/// Computes the clamped blinding factor `h` for a master public key and context.
/// It is never zero.
pub fn blinding_factor(master_pk: &[u8; 32], context: &[u8]) -> (factor: [u8; 32])
    ensures
        le_value(factor@) == blinding_scalar(master_pk@, context@),
        blinding_scalar(master_pk@, context@) != 0,
{
    let mut input = copy(BLIND_DOMAIN.as_bytes());
    append(&mut input, master_pk);
    append(&mut input, context);
    let digest = sha512(&input);
    proof {
        clamped_scalar_is_not_zero(digest@.take(32));
    }
    reduce(clamp(first_half(&digest)))
}

/// Blinds a master public key for the given context.
///
/// This is the outsider-computable half: it needs only the master *public* key.
/// The blinded key is a key again.
pub fn blind_public_key(master_pk: &[u8; 32], context: &[u8]) -> (blinded: Result<
    [u8; 32],
    InvalidKey,
>)
    ensures
        match blinded {
            Ok(key) => {
                &&& blinded_public_key(master_pk@, context@) == Some(key@)
                &&& is_edwards_point(key@)
            },
            Err(_) => blinded_public_key(master_pk@, context@) is None,
        },
{
    let factor = blinding_factor(master_pk, context);
    match point_multiple(master_pk, &factor) {
        Some(key) => Ok(key),
        None => Err(InvalidKey),
    }
}

/// Whether `signature` is a valid ed25519 signature of `message` under `public`:
/// the check that a DHT node makes of an item before it stores it.
pub fn verify(public: &[u8; 32], message: &[u8], signature: &[u8; 64]) -> (accepted: bool)
    ensures
        accepted == ed25519_verifies(public@, message@, signature@),
{
    check_signature(public, message, signature)
}

/// Whether `signature` is a valid ed25519 signature of `message` under `public`
/// that strict verification accepts too: neither the key nor the first half of
/// the signature has small order.
pub fn verify_strict(public: &[u8; 32], message: &[u8], signature: &[u8; 64]) -> (accepted: bool)
    ensures
        accepted == ed25519_verifies_strictly(public@, message@, signature@),
{
    check_signature_strictly(public, message, signature)
}

/// A blinded ed25519 signing key, derived from a master secret key and a context.
///
/// Signatures made with [`BlindedKeypair::sign`] verify under the standard ed25519
/// verification algorithm against [`BlindedKeypair::public_bytes`], which equals
/// [`blind_public_key`] of the master public key.
pub struct BlindedKeypair {
    scalar: [u8; 32],
    hash_prefix: [u8; 32],
    public: [u8; 32],
}

impl BlindedKeypair {
    /// The public key belongs to the secret scalar, which is not zero, and does not
    /// have small order.
    #[verifier::type_invariant]
    spec fn matched(&self) -> bool {
        &&& le_value(self.scalar@) < group_order()
        &&& self.public@ == basepoint_multiple(le_value(self.scalar@))
        &&& is_edwards_point(self.public@)
        &&& le_value(self.scalar@) != 0
        &&& scales_as_base_multiple(self.public@, le_value(self.scalar@))
        &&& !has_small_order(self.public@)
    }

    /// The secret scalar.
    pub closed spec fn secret_scalar(&self) -> nat {
        le_value(self.scalar@)
    }

    /// The secret that signing nonces are derived from.
    pub closed spec fn prefix(&self) -> Seq<u8> {
        self.hash_prefix@
    }

    /// The public key.
    pub closed spec fn public_key(&self) -> Seq<u8> {
        self.public@
    }

    /// Derives the blinded keypair from a master secret key and a context.
    ///
    /// Its public key is the one that anybody can derive from the master public
    /// key alone. It does not have small order, and differs from the master public
    /// key unless the blinding factor is one.
    pub fn from_master(secret: &SecretKey, context: &[u8]) -> (keypair: BlindedKeypair)
        ensures
            keypair.secret_scalar() == blinded_secret_scalar(secret.seed(), context@),
            keypair.prefix() == blinded_prefix(secret.seed(), context@),
            keypair.public_key() == basepoint_multiple(keypair.secret_scalar()),
            blinded_public_key(secret.public_key(), context@) == Some(keypair.public_key()),
            is_edwards_point(keypair.public_key()),
            keypair.secret_scalar() != 0,
            scales_as_base_multiple(keypair.public_key(), keypair.secret_scalar()),
            !has_small_order(keypair.public_key()),
            multiples_differ(secret.public_key()),
            blinding_scalar(secret.public_key(), context@) != 1 ==> keypair.public_key()
                != secret.public_key(),
    {
        // Standard RFC 8032 key expansion, identical to what ed25519-dalek's
        // SigningKey does internally (clamp + reduce lower half, keep upper
        // half as the nonce prefix).
        let seed = secret.to_bytes();
        let expanded = sha512(&seed);
        let (master_scalar, master_prefix) = expand_secret(&expanded);

        let master_pk = secret.public();
        proof {
            assert(sha512_digest(secret.seed()) == expanded@);
            clamped_scalar_is_not_zero(expanded@.take(32));
            let n = seed_scalar(secret.seed());
            assert(edwards_multiple(master_pk@, 1) == basepoint_multiple((n * 1) % group_order()));
        }
        let factor = blinding_factor(&master_pk, context);
        let scalar = scalar_product(&master_scalar, &factor);

        // The blinded key has no seed, so the nonce prefix cannot come from key
        // expansion. Derive it from the master prefix + context, domain-separated,
        // as Tor does. It only needs to be secret and deterministic per key.
        let mut input = copy(PREFIX_DOMAIN.as_bytes());
        append(&mut input, &master_prefix);
        append(&mut input, context);
        let hash_prefix = first_half(&sha512(&input));

        let public = base_multiple(&scalar);
        proof {
            multiple_has_large_order(
                master_pk@,
                seed_scalar(secret.seed()),
                blinding_scalar(master_pk@, context@),
                public@,
            );
        }
        BlindedKeypair { scalar, hash_prefix, public }
    }

    /// The blinded public key.
    pub fn public_bytes(&self) -> (public: [u8; 32])
        ensures
            public@ == self.public_key(),
            is_edwards_point(public@),
            !has_small_order(public@),
    {
        proof {
            use_type_invariant(self);
        }
        self.public
    }

    /// Signs a message under the blinded key.
    ///
    /// The signature verifies. Strict verification accepts it too, unless the nonce
    /// scalar happens to be zero.
    pub fn sign(&self, message: &[u8]) -> (signature: [u8; 64])
        ensures
            signature@ == ed25519_signature(
                self.secret_scalar(),
                self.prefix(),
                self.public_key(),
                message@,
            ),
            ed25519_verifies(self.public_key(), message@, signature@),
            ed25519_verifies_strictly(self.public_key(), message@, signature@) <==> nonce_scalar(
                self.prefix(),
                message@,
            ) != 0,
    {
        proof {
            use_type_invariant(self);
        }
        sign_with_scalar(&self.scalar, &self.hash_prefix, &self.public, message)
    }
}

/// The pseudonyms of an endpoint in two contexts are the same only where the
/// blinding factors are.
pub proof fn pseudonyms_differ(master_pk: Seq<u8>, context_a: Seq<u8>, context_b: Seq<u8>)
    requires
        is_edwards_point(master_pk),
        multiples_differ(master_pk),
    ensures
        blinded_public_key(master_pk, context_a) == blinded_public_key(master_pk, context_b)
            <==> blinding_scalar(master_pk, context_a) == blinding_scalar(master_pk, context_b),
{
    assert(edwards_multiple(master_pk, blinding_scalar(master_pk, context_a)) == edwards_multiple(
        master_pk,
        blinding_scalar(master_pk, context_b),
    ) <==> blinding_scalar(master_pk, context_a) == blinding_scalar(master_pk, context_b));
}

/// The length of the two domain texts.
proof fn lemma_domain_lengths()
    ensures
        encode_utf8("iroh blinded-lookup v0 key blinding"@).len() == 35,
        encode_utf8("iroh blinded-lookup v0 nonce prefix"@).len() == 35,
{
    reveal_strlit("iroh blinded-lookup v0 key blinding");
    reveal_strlit("iroh blinded-lookup v0 nonce prefix");
    assert(is_ascii_chars("iroh blinded-lookup v0 key blinding"@));
    assert(is_ascii_chars("iroh blinded-lookup v0 nonce prefix"@));
    is_ascii_chars_encode_utf8("iroh blinded-lookup v0 key blinding"@);
    is_ascii_chars_encode_utf8("iroh blinded-lookup v0 nonce prefix"@);
}

/// The blinding factor comes from the one string that consists of the domain, all
/// bytes of the master key and all bytes of the context, so that key and context
/// can be read back from what is hashed.
pub proof fn blinding_hashes_the_whole_context(
    master_pk: Seq<u8>,
    context: Seq<u8>,
    hashed: Seq<u8>,
)
    requires
        master_pk.len() == 32,
        hashed.len() == 35 + 32 + context.len(),
        hashed.take(35) == encode_utf8("iroh blinded-lookup v0 key blinding"@),
        hashed.subrange(35, 67) == master_pk,
        hashed.skip(67) == context,
    ensures
        blinding_scalar(master_pk, context) == clamped_scalar(sha512_digest(hashed).take(32)),
        blinded_public_key(master_pk, context) == if is_edwards_point(master_pk) {
            Some(edwards_multiple(master_pk, clamped_scalar(sha512_digest(hashed).take(32))))
        } else {
            None
        },
{
    lemma_domain_lengths();
    assert(hashed =~= hashed.take(35) + hashed.subrange(35, 67) + hashed.skip(67));
}

/// Different master keys or contexts, of whatever length, are blinded by the hashes
/// of different strings: two pseudonyms share a factor only where SHA-512 collides,
/// up to clamping, on two strings that differ.
pub proof fn contexts_are_hashed_apart(
    master_a: Seq<u8>,
    context_a: Seq<u8>,
    hashed_a: Seq<u8>,
    master_b: Seq<u8>,
    context_b: Seq<u8>,
    hashed_b: Seq<u8>,
)
    requires
        master_a.len() == 32,
        hashed_a.len() == 35 + 32 + context_a.len(),
        hashed_a.take(35) == encode_utf8("iroh blinded-lookup v0 key blinding"@),
        hashed_a.subrange(35, 67) == master_a,
        hashed_a.skip(67) == context_a,
        master_b.len() == 32,
        hashed_b.len() == 35 + 32 + context_b.len(),
        hashed_b.take(35) == encode_utf8("iroh blinded-lookup v0 key blinding"@),
        hashed_b.subrange(35, 67) == master_b,
        hashed_b.skip(67) == context_b,
        master_a != master_b || context_a != context_b,
    ensures
        hashed_a != hashed_b,
        blinding_scalar(master_a, context_a) == blinding_scalar(master_b, context_b)
            <==> clamped_scalar(sha512_digest(hashed_a).take(32)) == clamped_scalar(
            sha512_digest(hashed_b).take(32),
        ),
{
    blinding_hashes_the_whole_context(master_a, context_a, hashed_a);
    blinding_hashes_the_whole_context(master_b, context_b, hashed_b);
}

/// The nonce prefix of the blinded key comes from the one string that consists of
/// the domain, the whole nonce prefix of the master key and all bytes of the
/// context.
pub proof fn prefix_hashes_the_whole_context(
    seed: Seq<u8>,
    context: Seq<u8>,
    lower: Seq<u8>,
    upper: Seq<u8>,
    hashed: Seq<u8>,
)
    requires
        lower.len() == 32,
        upper.len() == 32,
        hashed.len() == 35 + 32 + context.len(),
        hashed.take(35) == encode_utf8("iroh blinded-lookup v0 nonce prefix"@),
        hashed.subrange(35, 67) == upper,
        hashed.skip(67) == context,
    ensures
        sha512_digest(seed) == lower + upper ==> blinded_prefix(seed, context) == sha512_digest(
            hashed,
        ).take(32),
{
    lemma_domain_lengths();
    assert((lower + upper).skip(32) =~= upper);
    assert(hashed =~= hashed.take(35) + hashed.subrange(35, 67) + hashed.skip(67));
}

/// The secret scalar of the blinded key is the product of the secret scalar of the
/// master key and the blinding factor, which comes from the whole context.
pub proof fn secret_scalar_is_blinded(seed: Seq<u8>, context: Seq<u8>, hashed: Seq<u8>)
    requires
        hashed.len() == 35 + 32 + context.len(),
        hashed.take(35) == encode_utf8("iroh blinded-lookup v0 key blinding"@),
        hashed.skip(67) == context,
    ensures
        hashed.subrange(35, 67) == basepoint_multiple(seed_scalar(seed)) ==> blinded_secret_scalar(
            seed,
            context,
        ) == (seed_scalar(seed) * clamped_scalar(sha512_digest(hashed).take(32)))
            % group_order(),
{
    if hashed.subrange(35, 67) == basepoint_multiple(seed_scalar(seed)) {
        blinding_hashes_the_whole_context(
            basepoint_multiple(seed_scalar(seed)),
            context,
            hashed,
        );
    }
}

} // verus!
