//! Scalars and points of the ed25519 group, by their 32-byte encodings.
//!
//! A scalar is the little-endian encoding of a number below the group order.
//! A point is its compressed Edwards-y encoding. The arithmetic itself is done
//! by `curve25519-dalek`, `ed25519-dalek` and `iroh`; every executable function
//! here states what is relied on of one of theirs.
use vstd::arithmetic::div_mod::{lemma_mul_mod_noop_left, lemma_mul_mod_noop_right};
use vstd::prelude::*;

use curve25519_dalek::edwards::{CompressedEdwardsY, EdwardsPoint};
use curve25519_dalek::scalar::{clamp_integer, Scalar};
use ed25519_dalek::hazmat::{raw_sign, ExpandedSecretKey};
use ed25519_dalek::{Signature, Verifier, VerifyingKey};

use crate::bytes::le_value;
use crate::hashing::sha512_digest;

verus! {

/// The order of the subgroup that the ed25519 base point generates:
/// 2^252 + 27742317777372353535851937790883648493.
pub open spec fn group_order() -> nat {
    0x1000000000000000000000000000000014def9dea2f79cd65812631a5cf5d3ednat
}

/// `bytes` with the bits of a 32-byte little-endian integer forced the way
/// ed25519 wants them in a secret scalar: the three lowest cleared, the highest
/// cleared, the second highest set.
pub open spec fn clamped(bytes: Seq<u8>) -> Seq<u8> {
    bytes.update(0, bytes[0] & 0b1111_1000u8).update(
        31,
        (bytes[31] & 0b0111_1111u8) | 0b0100_0000u8,
    )
}

/// The scalar that ed25519 derives from a 32-byte string: clamp, then reduce.
pub open spec fn clamped_scalar(bytes: Seq<u8>) -> nat {
    le_value(clamped(bytes)) % group_order()
}

/// The secret scalar that ed25519 key expansion derives from a 32-byte seed.
pub open spec fn seed_scalar(seed: Seq<u8>) -> nat {
    clamped_scalar(sha512_digest(seed).take(32))
}

/// The secret nonce prefix that ed25519 key expansion derives from a seed.
pub open spec fn seed_prefix(seed: Seq<u8>) -> Seq<u8> {
    sha512_digest(seed).skip(32)
}

/// Whether `CompressedEdwardsY::decompress` finds a point for `encoding`.
pub uninterp spec fn is_edwards_point(encoding: Seq<u8>) -> bool;

/// The encoding of `n` times the point that `encoding` stands for, for `n`
/// below the group order: what multiplying an `EdwardsPoint` by the `Scalar`
/// `n` returns.
pub uninterp spec fn edwards_multiple(encoding: Seq<u8>, n: nat) -> Seq<u8>;

/// The encoding of `n` times the base point: what `EdwardsPoint::mul_base`
/// returns for the `Scalar` `n`.
pub uninterp spec fn basepoint_multiple(n: nat) -> Seq<u8>;

/// The signature that `ed25519_dalek::hazmat::raw_sign` makes with SHA-512.
pub uninterp spec fn ed25519_signature(
    scalar: nat,
    prefix: Seq<u8>,
    public: Seq<u8>,
    message: Seq<u8>,
) -> Seq<u8>;

/// Whether `public` decodes to an ed25519 verifying key under which
/// `VerifyingKey::verify` accepts `signature` for `message`.
pub uninterp spec fn ed25519_verifies(
    public: Seq<u8>,
    message: Seq<u8>,
    signature: Seq<u8>,
) -> bool;

/// Whether `public` decodes to an ed25519 verifying key under which
/// `VerifyingKey::verify_strict` accepts `signature` for `message`.
pub uninterp spec fn ed25519_verifies_strictly(
    public: Seq<u8>,
    message: Seq<u8>,
    signature: Seq<u8>,
) -> bool;

/// The scalar that an ed25519 signature of `message` starts from: the hash of the
/// secret prefix and the message, reduced.
#[verifier::opaque]
pub open spec fn nonce_scalar(prefix: Seq<u8>, message: Seq<u8>) -> nat {
    le_value(sha512_digest(prefix + message)) % group_order()
}

/// What is relied on of an encoding of `n` times the base point: multiplying the
/// point it stands for by `k` gives `n * k` times the base point, and multiples
/// of the base point repeat after the group order.
pub open spec fn scales_as_base_multiple(encoding: Seq<u8>, n: nat) -> bool {
    forall|k: nat|
        k < group_order() ==> #[trigger] edwards_multiple(encoding, k) == basepoint_multiple(
            (n * k) % group_order(),
        )
}

/// Whether different scalars give different multiples of the point that `encoding`
/// stands for.
pub open spec fn multiples_differ(encoding: Seq<u8>) -> bool {
    forall|j: nat, k: nat|
        j < group_order() && k < group_order() && #[trigger] edwards_multiple(encoding, j)
            == #[trigger] edwards_multiple(encoding, k) ==> j == k
}

/// Whether the point that `encoding` stands for has small order: eight times it is
/// zero times the base point.
pub open spec fn has_small_order(encoding: Seq<u8>) -> bool {
    edwards_multiple(encoding, 8) == basepoint_multiple(0)
}

/// Trusted: `curve25519_dalek::scalar::clamp_integer`, whose whole effect is
/// [`clamped`].
#[verifier::external_body]
pub(crate) fn clamp(bytes: [u8; 32]) -> (clamped_bytes: [u8; 32])
    ensures
        clamped_bytes@ == clamped(bytes@),
{
    clamp_integer(bytes)
}

/// Trusted: `curve25519_dalek::scalar::Scalar::from_bytes_mod_order`, which
/// reduces a little-endian integer modulo the group order.
#[verifier::external_body]
pub(crate) fn reduce(bytes: [u8; 32]) -> (scalar: [u8; 32])
    ensures
        le_value(scalar@) == le_value(bytes@) % group_order(),
{
    Scalar::from_bytes_mod_order(bytes).to_bytes()
}

/// Trusted: the product of two `curve25519_dalek` `Scalar`s, which is the
/// product modulo the group order.
#[verifier::external_body]
pub(crate) fn scalar_product(a: &[u8; 32], b: &[u8; 32]) -> (product: [u8; 32])
    ensures
        le_value(product@) == (le_value(a@) * le_value(b@)) % group_order(),
{
    (Scalar::from_bytes_mod_order(*a) * Scalar::from_bytes_mod_order(*b)).to_bytes()
}

/// Trusted: `ed25519_dalek::hazmat::ExpandedSecretKey::from_bytes`, which clamps
/// and reduces the lower half into the secret scalar and keeps the upper half
/// as the nonce prefix. Returns the two.
#[verifier::external_body]
pub(crate) fn expand_secret(hash: &[u8; 64]) -> (parts: ([u8; 32], [u8; 32]))
    ensures
        le_value(parts.0@) == clamped_scalar(hash@.take(32)),
        parts.1@ == hash@.skip(32),
{
    let expanded = ExpandedSecretKey::from_bytes(hash);
    (expanded.scalar.to_bytes(), expanded.hash_prefix)
}

/// Trusted: the product of an `EdwardsPoint` and a `Scalar`, on encodings.
///
/// `None` comes exactly when `CompressedEdwardsY::decompress` finds no point.
/// Otherwise the product is compressed again; it is a function of the two
/// operands and named [`edwards_multiple`]. It decodes, since compressing a point
/// loses nothing.
#[verifier::external_body]
pub(crate) fn point_multiple(encoding: &[u8; 32], factor: &[u8; 32]) -> (product: Option<[u8; 32]>)
    requires
        le_value(factor@) < group_order(),
    ensures
        product is Some <==> is_edwards_point(encoding@),
        product matches Some(p) ==> p@ == edwards_multiple(encoding@, le_value(factor@)),
        product matches Some(p) ==> is_edwards_point(p@),
{
    let point = CompressedEdwardsY(*encoding).decompress()?;
    Some((point * Scalar::from_bytes_mod_order(*factor)).compress().0)
}

/// Trusted: `EdwardsPoint::mul_base`, on encodings.
///
/// The product is a function of the scalar, named [`basepoint_multiple`]. It
/// decodes, since compressing a point loses nothing, and
/// [`scales_as_base_multiple`] holds of it.
#[verifier::external_body]
pub(crate) fn base_multiple(scalar: &[u8; 32]) -> (encoding: [u8; 32])
    ensures
        encoding@ == basepoint_multiple(le_value(scalar@)),
        is_edwards_point(encoding@),
        scales_as_base_multiple(encoding@, le_value(scalar@)),
{
    EdwardsPoint::mul_base(&Scalar::from_bytes_mod_order(*scalar)).compress().0
}

/// Trusted: `iroh::SecretKey::public`, on the bytes of the two keys.
///
/// The public key of an iroh secret key is the ed25519 verifying key of its
/// seed: the base point times the scalar that key expansion derives. So it
/// decodes, and [`scales_as_base_multiple`] holds of it. Unless the scalar is
/// zero, [`multiples_differ`] holds of it too, since the base point has prime
/// order.
#[verifier::external_body]
pub(crate) fn public_key_of_seed(seed: &[u8; 32]) -> (public: [u8; 32])
    ensures
        public@ == basepoint_multiple(seed_scalar(seed@)),
        is_edwards_point(public@),
        scales_as_base_multiple(public@, seed_scalar(seed@)),
        seed_scalar(seed@) != 0 ==> multiples_differ(public@),
{
    *iroh::SecretKey::from_bytes(seed).public().as_bytes()
}

/// Trusted: `ed25519_dalek::hazmat::raw_sign::<Sha512>`.
///
/// The signature is deterministic and named [`ed25519_signature`]. It verifies
/// under the public key that belongs to the scalar, which is the one key this
/// asks for. Strict verification asks besides that neither the key nor the first
/// half of the signature has small order, and that half is the multiple of the
/// base point by the [`nonce_scalar`].
#[verifier::external_body]
pub(crate) fn sign_with_scalar(
    scalar: &[u8; 32],
    prefix: &[u8; 32],
    public: &[u8; 32],
    message: &[u8],
) -> (signature: [u8; 64])
    requires
        le_value(scalar@) < group_order(),
        public@ == basepoint_multiple(le_value(scalar@)),
        is_edwards_point(public@),
    ensures
        signature@ == ed25519_signature(le_value(scalar@), prefix@, public@, message@),
        ed25519_verifies(public@, message@, signature@),
        ed25519_verifies_strictly(public@, message@, signature@) == (!has_small_order(public@)
            && nonce_scalar(prefix@, message@) != 0),
{
    let scalar = Scalar::from_bytes_mod_order(*scalar);
    let secret = ExpandedSecretKey { scalar, hash_prefix: *prefix };
    let key = VerifyingKey::from_bytes(public).expect("the encoding of a curve point");
    raw_sign::<sha2::Sha512>(&secret, message, &key).to_bytes()
}

/// Trusted: `ed25519_dalek::VerifyingKey::verify`, after
/// `VerifyingKey::from_bytes` has decoded the key. The verdict is a function of
/// the three byte strings and named [`ed25519_verifies`].
#[verifier::external_body]
pub(crate) fn check_signature(
    public: &[u8; 32],
    message: &[u8],
    signature: &[u8; 64],
) -> (accepted: bool)
    ensures
        accepted == ed25519_verifies(public@, message@, signature@),
{
    match VerifyingKey::from_bytes(public) {
        Ok(key) => key.verify(message, &Signature::from_bytes(signature)).is_ok(),
        Err(_) => false,
    }
}

/// Trusted: `ed25519_dalek::VerifyingKey::verify_strict`, after
/// `VerifyingKey::from_bytes` has decoded the key. The verdict is a function of
/// the three byte strings and named [`ed25519_verifies_strictly`].
#[verifier::external_body]
pub(crate) fn check_signature_strictly(
    public: &[u8; 32],
    message: &[u8],
    signature: &[u8; 64],
) -> (accepted: bool)
    ensures
        accepted == ed25519_verifies_strictly(public@, message@, signature@),
{
    match VerifyingKey::from_bytes(public) {
        Ok(key) => key.verify_strict(message, &Signature::from_bytes(signature)).is_ok(),
        Err(_) => false,
    }
}

/// The bounds and the lowest bits of the number that `bytes` encodes.
proof fn lemma_le_value(bytes: Seq<u8>)
    requires
        bytes.len() > 0,
    ensures
        le_value(bytes) % 8 == bytes[0] as nat % 8,
        bytes.last() * pow256((bytes.len() - 1) as nat) <= le_value(bytes),
        le_value(bytes) < (bytes.last() + 1) * pow256((bytes.len() - 1) as nat),
    decreases bytes.len(),
{
    let rest = bytes.drop_first();
    let high = bytes.last() as int;
    if rest.len() > 0 {
        lemma_le_value(rest);
        let unit = pow256((rest.len() - 1) as nat) as int;
        assert(rest.last() == bytes.last());
        assert(pow256(rest.len()) == 256 * unit);
        assert(high * (256 * unit) == 256 * (high * unit)) by (nonlinear_arith);
        assert((high + 1) * (256 * unit) == 256 * ((high + 1) * unit)) by (nonlinear_arith);
    } else {
        reveal_with_fuel(le_value, 2);
        assert(pow256(0) == 1);
        assert(high * 1 == high && (high + 1) * 1 == high + 1);
    }
}

/// 256 to the power of `n`.
spec fn pow256(n: nat) -> nat
    decreases n,
{
    if n == 0 {
        1
    } else {
        256 * pow256((n - 1) as nat)
    }
}

/// A clamped number is no multiple of the group order.
pub proof fn clamped_scalar_is_not_zero(bytes: Seq<u8>)
    requires
        bytes.len() == 32,
    ensures
        clamped_scalar(bytes) != 0,
{
    let value = le_value(clamped(bytes));
    let (low, high) = (bytes[0], bytes[31]);
    assert((low & 0b1111_1000u8) % 8 == 0) by (bit_vector);
    assert(64 <= ((high & 0b0111_1111u8) | 0b0100_0000u8) <= 127) by (bit_vector);
    lemma_le_value(clamped(bytes));
    let unit = pow256(31);
    assert(unit == 0x100000000000000000000000000000000000000000000000000000000000000nat) by {
        reveal_with_fuel(pow256, 32);
    }
    let top = clamped(bytes).last() as int;
    assert(64 * unit <= top * unit && (top + 1) * unit <= 128 * unit) by (nonlinear_arith)
        requires
            64 <= top <= 127,
    ;
    if value % group_order() == 0 {
        let quotient = value / group_order();
        assert(value == quotient * group_order()) by (nonlinear_arith)
            requires
                value % group_order() == 0,
                quotient == value / group_order(),
        ;
        assert(0 < quotient < 8) by (nonlinear_arith)
            requires
                value == quotient * group_order(),
                0 < value < 8 * group_order(),
        ;
        let eighth = group_order() / 8;
        assert(value == 8 * (quotient * eighth) + 5 * quotient) by (nonlinear_arith)
            requires
                value == quotient * group_order(),
                group_order() == 8 * eighth + 5,
        ;
    }
}

/// Neither a nonzero scalar nor eight times it is a multiple of the group order.
proof fn lemma_eightfold(h: nat)
    requires
        0 < h < group_order(),
    ensures
        (8 * h) % group_order() != 0,
{
    if (8 * h) % group_order() == 0 {
        let quotient = (8 * h) / group_order();
        assert(8 * h == quotient * group_order()) by (nonlinear_arith)
            requires
                (8 * h) % group_order() == 0,
                quotient == (8 * h) / group_order(),
        ;
        assert(0 < quotient < 8) by (nonlinear_arith)
            requires
                8 * h == quotient * group_order(),
                0 < h < group_order(),
        ;
        let eighth = group_order() / 8;
        assert(8 * h == 8 * (quotient * eighth) + 5 * quotient) by (nonlinear_arith)
            requires
                8 * h == quotient * group_order(),
                group_order() == 8 * eighth + 5,
        ;
    }
}

/// The multiple of a point by a nonzero scalar is neither zero times the base
/// point nor of small order, if the multiples of the point differ.
pub proof fn multiple_has_large_order(point: Seq<u8>, n: nat, h: nat, multiple: Seq<u8>)
    requires
        scales_as_base_multiple(point, n),
        multiples_differ(point),
        0 < h < group_order(),
        scales_as_base_multiple(multiple, (n * h) % group_order()),
    ensures
        (n * h) % group_order() != 0,
        !has_small_order(multiple),
{
    let order = group_order();
    let h8 = (8 * h) % order;
    lemma_eightfold(h);
    assert((n * 0) % order == 0) by (nonlinear_arith)
        requires
            order > 0,
    ;
    assert(edwards_multiple(point, 0) == basepoint_multiple(0));
    assert(edwards_multiple(point, h) == basepoint_multiple((n * h) % order));
    assert(edwards_multiple(point, h8) == basepoint_multiple((n * h8) % order));
    assert(((n * h) % order * 8) % order == (n * h8) % order) by {
        lemma_mul_mod_noop_left((n * h) as int, 8, order as int);
        lemma_mul_mod_noop_right(n as int, (8 * h) as int, order as int);
        assert((n * h) * 8 == n * (8 * h)) by (nonlinear_arith);
    }
    assert(edwards_multiple(multiple, 8) == basepoint_multiple((n * h8) % order));
}

/// Clamping rounds the first byte down to a multiple of eight, puts the last one
/// between 64 and 127 and leaves all others: the clamped scalar is the number that
/// the bytes so changed encode, reduced.
pub proof fn clamping_changes_two_bytes(bytes: Seq<u8>, changed: Seq<u8>)
    requires
        bytes.len() == 32,
        changed.len() == 32,
        changed[0] == bytes[0] - bytes[0] % 8,
        changed[31] == 64 + bytes[31] % 64,
        forall|i: int| 0 < i < 31 ==> #[trigger] changed[i] == bytes[i],
    ensures
        clamped_scalar(bytes) == le_value(changed) % group_order(),
{
    let (low, high) = (bytes[0], bytes[31]);
    assert(low & 0b1111_1000u8 == low - low % 8) by (bit_vector);
    assert((high & 0b0111_1111u8) | 0b0100_0000u8 == 64 + high % 64) by (bit_vector);
    assert(clamped(bytes) =~= changed);
}

/// Key expansion hashes the seed: the lower half is clamped to the scalar, the
/// upper half is the prefix.
pub proof fn seed_expands_to_two_halves(seed: Seq<u8>, lower: Seq<u8>, upper: Seq<u8>)
    requires
        lower.len() == 32,
        upper.len() == 32,
    ensures
        sha512_digest(seed) == lower + upper ==> seed_scalar(seed) == clamped_scalar(lower)
            && seed_prefix(seed) == upper,
{
    assert((lower + upper).take(32) =~= lower);
    assert((lower + upper).skip(32) =~= upper);
}

} // verus!
