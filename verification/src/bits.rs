//! Bit strings: bytes as sequences of bits, most significant bit first, and
//! the numbers that runs of bits spell.

use vstd::arithmetic::power2::{lemma2_to64, lemma_pow2_unfold, pow2};
use vstd::prelude::*;

verus! {

/// The number that `bits` spells, read as an unsigned binary numeral with the
/// most significant bit first.
pub open spec fn bits_value(bits: Seq<bool>) -> nat
    decreases bits.len(),
{
    if bits.len() == 0 {
        0
    } else {
        2 * bits_value(bits.drop_last()) + if bits.last() { 1nat } else { 0nat }
    }
}

/// The lowest `width` bits of `value`, most significant bit first.
pub open spec fn value_bits(value: nat, width: nat) -> Seq<bool>
    decreases width,
{
    if width == 0 {
        Seq::empty()
    } else {
        value_bits(value / 2, (width - 1) as nat).push(value % 2 == 1)
    }
}

/// `value` without its lowest `count` bits.
pub open spec fn drop_low_bits(value: nat, count: nat) -> nat
    decreases count,
{
    if count == 0 {
        value
    } else {
        drop_low_bits(value / 2, (count - 1) as nat)
    }
}

/// The bits of `bytes` in stream order: byte after byte, each with its most
/// significant bit first.
pub open spec fn bits_of(bytes: Seq<u8>) -> Seq<bool> {
    Seq::new(8 * bytes.len(), |i: int| value_bits(bytes[i / 8] as nat, 8)[i % 8])
}

/// A numeral of `width` bits has `width` bits.
pub proof fn lemma_value_bits_len(value: nat, width: nat)
    ensures
        value_bits(value, width).len() == width,
    decreases width,
{
    if width > 0 {
        lemma_value_bits_len(value / 2, (width - 1) as nat);
    }
}

/// A numeral of `high + low` bits is the numeral of the upper `high` bits
/// followed by that of the lower `low` bits.
pub proof fn lemma_value_bits_split(value: nat, high: nat, low: nat)
    ensures
        value_bits(value, high + low) =~= value_bits(drop_low_bits(value, low), high) + value_bits(
            value,
            low,
        ),
    decreases low,
{
    if low > 0 {
        lemma_value_bits_split(value / 2, high, (low - 1) as nat);
        lemma_value_bits_len(drop_low_bits(value, low), high);
        lemma_value_bits_len(value / 2, (low - 1) as nat);
    }
}

/// A number that fits in `width` bits is the value of its own numeral.
pub proof fn lemma_bits_value_of_value_bits(value: nat, width: nat)
    requires
        drop_low_bits(value, width) == 0,
    ensures
        bits_value(value_bits(value, width)) == value,
    decreases width,
{
    if width > 0 {
        let upper = value_bits(value / 2, (width - 1) as nat);
        lemma_bits_value_of_value_bits(value / 2, (width - 1) as nat);
        assert(value_bits(value, width).drop_last() =~= upper);
    }
}

/// The value of a byte's eight bits is the byte.
pub proof fn lemma_byte_bits_value(byte: u8)
    ensures
        value_bits(byte as nat, 8).len() == 8,
        bits_value(value_bits(byte as nat, 8)) == byte,
{
    reveal_with_fuel(drop_low_bits, 9);
    lemma_value_bits_len(byte as nat, 8);
    lemma_bits_value_of_value_bits(byte as nat, 8);
}

/// The first `high` bits of a byte spell the byte without its other bits.
pub proof fn lemma_byte_high_bits(byte: u8, high: nat)
    requires
        high <= 8,
    ensures
        value_bits(byte as nat, 8).take(high as int) =~= value_bits(
            drop_low_bits(byte as nat, (8 - high) as nat),
            high,
        ),
        value_bits(byte as nat, 8).skip(high as int) =~= value_bits(
            byte as nat,
            (8 - high) as nat,
        ),
        bits_value(value_bits(byte as nat, 8).take(high as int)) == drop_low_bits(
            byte as nat,
            (8 - high) as nat,
        ),
{
    let low = (8 - high) as nat;
    let upper = drop_low_bits(byte as nat, low);
    lemma_value_bits_split(byte as nat, high, low);
    lemma_value_bits_len(upper, high);
    lemma_value_bits_len(byte as nat, low);
    lemma_drop_low_bits_twice(byte as nat, low, high);
    reveal_with_fuel(drop_low_bits, 9);
    lemma_bits_value_of_value_bits(upper, high);
}

/// Dropping bits in two steps drops their sum.
pub proof fn lemma_drop_low_bits_twice(value: nat, first: nat, second: nat)
    ensures
        drop_low_bits(drop_low_bits(value, first), second) == drop_low_bits(value, first + second),
    decreases first,
{
    if first > 0 {
        lemma_drop_low_bits_twice(value / 2, (first - 1) as nat, second);
    }
}

/// The bit stream of a byte string starts with the bits of its first byte and
/// goes on with the stream of the other bytes.
pub proof fn lemma_bits_of_first(bytes: Seq<u8>)
    requires
        bytes.len() > 0,
    ensures
        bits_of(bytes).len() == 8 * bytes.len(),
        bits_of(bytes).take(8) =~= value_bits(bytes[0] as nat, 8),
        bits_of(bytes).skip(8) =~= bits_of(bytes.skip(1)),
{
    lemma_value_bits_len(bytes[0] as nat, 8);
}

/// Dropping whole bytes from the front of a bit stream.
pub proof fn lemma_bits_of_skip(bytes: Seq<u8>, count: nat)
    requires
        count <= bytes.len(),
    ensures
        bits_of(bytes).skip(8 * count as int) =~= bits_of(bytes.skip(count as int)),
{
}

/// One more byte at the end adds its eight bits to the stream.
pub proof fn lemma_bits_of_push(bytes: Seq<u8>, byte: u8)
    ensures
        bits_of(bytes.push(byte)) =~= bits_of(bytes) + value_bits(byte as nat, 8),
{
    lemma_value_bits_len(byte as nat, 8);
}

/// The stream of two byte strings joined is their streams joined.
pub proof fn lemma_bits_of_concat(a: Seq<u8>, b: Seq<u8>)
    ensures
        bits_of(a + b) =~= bits_of(a) + bits_of(b),
{
}

/// The lowest `width` bits of a number do not change when a multiple of
/// `2^width` is added to it.
pub proof fn lemma_value_bits_ignores_high(low: nat, high: nat, width: nat)
    ensures
        value_bits(low + high * pow2(width), width) == value_bits(low, width),
    decreases width,
{
    if width > 0 {
        let half = pow2((width - 1) as nat);
        lemma_pow2_unfold(width);
        assert(high * (2 * half) == 2 * (high * half)) by (nonlinear_arith);
        assert((low + high * pow2(width)) / 2 == low / 2 + high * half);
        assert((low + high * pow2(width)) % 2 == low % 2);
        lemma_value_bits_ignores_high(low / 2, high, (width - 1) as nat);
    }
}

/// The lowest eight bits of a number are those of its remainder by 256, and
/// what is above them is its quotient by 256.
pub proof fn lemma_low_byte(value: nat)
    ensures
        value_bits(value, 8) == value_bits(value % 256, 8),
        drop_low_bits(value, 8) == value / 256,
{
    lemma2_to64();
    lemma_value_bits_ignores_high(value % 256, value / 256, 8);
    reveal_with_fuel(drop_low_bits, 9);
}

/// Byte strings with the same bit stream are equal.
pub proof fn lemma_bits_of_injective(a: Seq<u8>, b: Seq<u8>)
    requires
        bits_of(a) == bits_of(b),
    ensures
        a == b,
{
    assert(a.len() == b.len()) by {
        assert(bits_of(a).len() == 8 * a.len());
        assert(bits_of(b).len() == 8 * b.len());
    }
    assert forall|k: int| 0 <= k < a.len() implies a[k] == b[k] by {
        lemma_bits_of_skip(a, k as nat);
        lemma_bits_of_skip(b, k as nat);
        lemma_bits_of_first(a.skip(k));
        lemma_bits_of_first(b.skip(k));
        lemma_byte_bits_value(a[k]);
        lemma_byte_bits_value(b[k]);
    }
    assert(a =~= b);
}

} // verus!
