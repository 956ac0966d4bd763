//! The byte string that is signed for a BEP44 mutable item.
use vstd::prelude::*;
use vstd::utf8::{encode_utf8, is_ascii_chars, is_ascii_chars_encode_utf8};

use crate::bytes::append;

verus! {

/// `n` in decimal digits, without leading zeros.
pub open spec fn decimal(n: nat) -> Seq<u8>
    decreases n,
{
    if n < 10 {
        seq![(48 + n) as u8]
    } else {
        decimal(n / 10).push((48 + n % 10) as u8)
    }
}

/// `i` in decimal digits, with a minus sign where it is negative.
pub open spec fn signed_decimal(i: int) -> Seq<u8> {
    if i < 0 {
        seq![45u8] + decimal((-i) as nat)
    } else {
        decimal(i as nat)
    }
}

/// The BEP44 signable encoding of an item without salt: the bencoded `seq` and
/// `v` entries, one after the other.
pub open spec fn signable(seq: i64, value: Seq<u8>) -> Seq<u8> {
    encode_utf8("3:seqi"@) + signed_decimal(seq as int) + encode_utf8("e1:v"@) + decimal(value.len())
        + encode_utf8(":"@) + value
}

/// Appends `n` in decimal digits.
fn append_decimal(buf: &mut Vec<u8>, n: u64)
    ensures
        final(buf)@ == old(buf)@ + decimal(n as nat),
    decreases n,
{
    let ghost before = buf@;
    if n >= 10 {
        append_decimal(buf, n / 10);
    }
    buf.push(48 + (n % 10) as u8);
    assert(buf@ =~= before + decimal(n as nat));
}

/// Appends `i` in decimal digits.
fn append_signed_decimal(buf: &mut Vec<u8>, i: i64)
    ensures
        final(buf)@ == old(buf)@ + signed_decimal(i as int),
{
    let ghost before = buf@;
    if i < 0 {
        buf.push(45);
        let magnitude: u64 = (-(i + 1)) as u64 + 1;
        append_decimal(buf, magnitude);
        assert(buf@ =~= before + signed_decimal(i as int));
    } else {
        append_decimal(buf, i as u64);
    }
}

/// The BEP44 signable encoding of a mutable item without salt.
pub fn encode_signable(seq: i64, value: &[u8]) -> (encoded: Vec<u8>)
    ensures
        encoded@ == signable(seq, value@),
{
    let mut encoded: Vec<u8> = Vec::new();
    append(&mut encoded, "3:seqi".as_bytes());
    append_signed_decimal(&mut encoded, seq);
    append(&mut encoded, "e1:v".as_bytes());
    append_decimal(&mut encoded, value.len() as u64);
    append(&mut encoded, ":".as_bytes());
    append(&mut encoded, value);
    assert(encoded@ =~= signable(seq, value@));
    encoded
}

/// The number that a string of decimal digits stands for.
spec fn digits_value(digits: Seq<u8>) -> int
    decreases digits.len(),
{
    if digits.len() == 0 {
        0
    } else {
        10 * digits_value(digits.drop_last()) + (digits.last() - 48)
    }
}

proof fn lemma_decimal(n: nat)
    ensures
        decimal(n).len() > 0,
        forall|i: int| 0 <= i < decimal(n).len() ==> 48 <= #[trigger] decimal(n)[i] <= 57,
        digits_value(decimal(n)) == n,
    decreases n,
{
    if n < 10 {
        reveal_with_fuel(digits_value, 2);
    } else {
        lemma_decimal(n / 10);
        assert(decimal(n).drop_last() =~= decimal(n / 10));
    }
}

/// Two strings that are ended by the same byte, which neither holds before that,
/// are found again in the concatenation with what follows.
proof fn lemma_terminated(a: Seq<u8>, b: Seq<u8>, rest_a: Seq<u8>, rest_b: Seq<u8>, end: u8)
    requires
        a + rest_a == b + rest_b,
        rest_a.len() > 0,
        rest_b.len() > 0,
        rest_a[0] == end,
        rest_b[0] == end,
        forall|i: int| 0 <= i < a.len() ==> #[trigger] a[i] != end,
        forall|i: int| 0 <= i < b.len() ==> #[trigger] b[i] != end,
    ensures
        a == b,
        rest_a == rest_b,
{
    let whole = a + rest_a;
    assert(whole[a.len() as int] == end);
    assert((b + rest_b)[b.len() as int] == end);
    if a.len() < b.len() {
        assert((b + rest_b)[a.len() as int] == b[a.len() as int]);
    }
    if b.len() < a.len() {
        assert(whole[b.len() as int] == a[b.len() as int]);
    }
    assert(a =~= whole.take(a.len() as int));
    assert(b =~= (b + rest_b).take(b.len() as int));
    assert(rest_a =~= whole.skip(a.len() as int));
    assert(rest_b =~= (b + rest_b).skip(b.len() as int));
}

proof fn lemma_signed_decimal(i: int)
    ensures
        signed_decimal(i).len() > 0,
        forall|k: int| 0 <= k < signed_decimal(i).len() ==> #[trigger] signed_decimal(i)[k] <= 57,
        i < 0 <==> signed_decimal(i)[0] == 45,
{
    if i < 0 {
        lemma_decimal((-i) as nat);
    } else {
        lemma_decimal(i as nat);
    }
}

/// The sequence number and the value of an item can be read back from what is
/// signed: no signature of one item is a signature of another.
pub proof fn signable_is_injective(seq_a: i64, value_a: Seq<u8>, seq_b: i64, value_b: Seq<u8>)
    requires
        signable(seq_a, value_a) == signable(seq_b, value_b),
    ensures
        seq_a == seq_b,
        value_a == value_b,
{
    let head = encode_utf8("3:seqi"@);
    let middle = encode_utf8("e1:v"@);
    let colon = encode_utf8(":"@);
    reveal_strlit("e1:v");
    reveal_strlit(":");
    assert(is_ascii_chars("e1:v"@));
    assert(is_ascii_chars(":"@));
    is_ascii_chars_encode_utf8("e1:v"@);
    is_ascii_chars_encode_utf8(":"@);

    let (num_a, num_b) = (signed_decimal(seq_a as int), signed_decimal(seq_b as int));
    let (len_a, len_b) = (decimal(value_a.len()), decimal(value_b.len()));
    let (tail_a, tail_b) = (colon + value_a, colon + value_b);
    let (rest_a, rest_b) = (middle + (len_a + tail_a), middle + (len_b + tail_b));
    assert(signable(seq_a, value_a) =~= head + (num_a + rest_a));
    assert(signable(seq_b, value_b) =~= head + (num_b + rest_b));
    assert(num_a + rest_a =~= signable(seq_a, value_a).skip(head.len() as int));
    assert(num_b + rest_b =~= signable(seq_b, value_b).skip(head.len() as int));
    lemma_signed_decimal(seq_a as int);
    lemma_signed_decimal(seq_b as int);
    lemma_terminated(num_a, num_b, rest_a, rest_b, 101);
    if seq_a < 0 {
        lemma_decimal((-seq_a) as nat);
        lemma_decimal((-seq_b) as nat);
        assert(num_a.skip(1) =~= decimal((-seq_a) as nat));
        assert(num_b.skip(1) =~= decimal((-seq_b) as nat));
    } else {
        lemma_decimal(seq_a as nat);
        lemma_decimal(seq_b as nat);
    }

    assert(len_a + tail_a =~= rest_a.skip(middle.len() as int));
    assert(len_b + tail_b =~= rest_b.skip(middle.len() as int));
    lemma_decimal(value_a.len());
    lemma_decimal(value_b.len());
    lemma_terminated(len_a, len_b, tail_a, tail_b, 58);
    assert(value_a =~= tail_a.skip(colon.len() as int));
    assert(value_b =~= tail_b.skip(colon.len() as int));
}

/// Decimal digits count in tens: the last digit is the remainder by ten, and the
/// digits before it are those of the quotient. A number below ten has one digit.
pub proof fn decimal_counts_in_tens(n: nat)
    ensures
        n < 10 ==> decimal(n) == seq![(48 + n) as u8],
        n >= 10 ==> decimal(n).len() > 1,
        n >= 10 ==> decimal(n).drop_last() == decimal(n / 10),
        decimal(n).last() == 48 + n % 10,
{
    if n >= 10 {
        lemma_decimal(n / 10);
        assert(decimal(n).drop_last() =~= decimal(n / 10));
    }
}

/// A number that is not negative is written in its digits alone, a negative one with
/// a minus sign before the digits of its amount.
pub proof fn minus_sign_marks_negative_numbers(n: nat)
    ensures
        signed_decimal(n as int) == decimal(n),
        n > 0 ==> signed_decimal(-n) == seq![45u8] + decimal(n),
{
}

/// What is signed ends with the value itself, byte for byte and in order. Before it
/// stands the text `3:seqi<seq>e1:v<len>:` alone, which depends on the sequence
/// number and on the length of the value only.
pub proof fn signable_ends_with_the_value(seq: i64, value: Seq<u8>, other: Seq<u8>)
    requires
        other.len() == value.len(),
    ensures
        value.len() <= signable(seq, value).len(),
        signable(seq, value).skip(signable(seq, value).len() - value.len()) == value,
        signable(seq, other).len() == signable(seq, value).len(),
        signable(seq, other).take(signable(seq, value).len() - value.len()) == signable(
            seq,
            value,
        ).take(signable(seq, value).len() - value.len()),
        signable(seq, value).take(signable(seq, value).len() - value.len()) == encode_utf8(
            "3:seqi"@,
        ) + signed_decimal(seq as int) + encode_utf8("e1:v"@) + decimal(value.len())
            + encode_utf8(":"@),
{
    let head = encode_utf8("3:seqi"@) + signed_decimal(seq as int) + encode_utf8("e1:v"@)
        + decimal(value.len()) + encode_utf8(":"@);
    assert(signable(seq, value) =~= head + value);
    assert(signable(seq, other) =~= head + other);
    assert((head + value).skip(head.len() as int) =~= value);
    assert((head + value).take(head.len() as int) =~= head);
    assert((head + other).take(head.len() as int) =~= head);
}

} // verus!
