//! Big-endian 32-bit words in byte strings.

use crate::bits::{bits_of, lemma_bits_of_push, lemma_low_byte, lemma_value_bits_split, value_bits};
use vstd::prelude::*;

verus! {

/// The number that four bytes spell, most significant byte first.
pub open spec fn be_u32(b0: u8, b1: u8, b2: u8, b3: u8) -> u32 {
    (b0 as int * 0x100_0000 + b1 as int * 0x1_0000 + b2 as int * 0x100 + b3 as int) as u32
}

/// The big-endian number in the four bytes of `bytes` that start at `at`.
pub open spec fn be_u32_at(bytes: Seq<u8>, at: int) -> u32 {
    be_u32(bytes[at], bytes[at + 1], bytes[at + 2], bytes[at + 3])
}

/// The four bytes of `v`, most significant byte first.
pub open spec fn be_bytes(v: u32) -> Seq<u8> {
    seq![
        (v as int / 0x100_0000) as u8,
        (v as int / 0x1_0000 % 0x100) as u8,
        (v as int / 0x100 % 0x100) as u8,
        (v as int % 0x100) as u8,
    ]
}

/// Splitting a number into its big-endian bytes and reading them back gives
/// the number again.
pub proof fn lemma_be_bytes_then_be_u32(v: u32)
    ensures
        be_bytes(v).len() == 4,
        be_u32_at(be_bytes(v), 0) == v,
{
}

/// Reading four bytes as a number and splitting it again gives the same bytes.
pub proof fn lemma_be_u32_then_be_bytes(b0: u8, b1: u8, b2: u8, b3: u8)
    ensures
        be_bytes(be_u32(b0, b1, b2, b3)) =~= seq![b0, b1, b2, b3],
{
    let hi: int = b0 as int * 0x100 + b1 as int;
    let mid: int = hi * 0x100 + b2 as int;
    let v: int = mid * 0x100 + b3 as int;
    assert(v == be_u32(b0, b1, b2, b3));
    assert(v % 0x100 == b3 && v / 0x100 == mid);
    assert(mid % 0x100 == b2 && mid / 0x100 == hi);
    assert(hi % 0x100 == b1 && hi / 0x100 == b0);
    assert(v / 0x1_0000 == hi);
    assert(v / 0x100_0000 == b0);
}

/// The 32 bits of a number, most significant first, are the bit stream of
/// its big-endian bytes.
pub proof fn lemma_be_bytes_bits(v: u32)
    ensures
        value_bits(v as nat, 32) =~= bits_of(be_bytes(v)),
{
    let n = v as nat;
    let n1 = n / 256;
    let n2 = n1 / 256;
    let n3 = n2 / 256;
    lemma_low_byte(n);
    lemma_low_byte(n1);
    lemma_low_byte(n2);
    lemma_low_byte(n3);
    lemma_value_bits_split(n, 24, 8);
    lemma_value_bits_split(n1, 16, 8);
    lemma_value_bits_split(n2, 8, 8);
    let b0 = (n3 % 256) as u8;
    let b1 = (n2 % 256) as u8;
    let b2 = (n1 % 256) as u8;
    let b3 = (n % 256) as u8;
    assert(n3 == n / 0x100_0000 && n2 == n / 0x1_0000);
    assert(be_bytes(v) =~= Seq::<u8>::empty().push(b0).push(b1).push(b2).push(b3));
    lemma_bits_of_push(Seq::<u8>::empty(), b0);
    lemma_bits_of_push(Seq::<u8>::empty().push(b0), b1);
    lemma_bits_of_push(Seq::<u8>::empty().push(b0).push(b1), b2);
    lemma_bits_of_push(Seq::<u8>::empty().push(b0).push(b1).push(b2), b3);
    assert(bits_of(Seq::<u8>::empty()) =~= Seq::<bool>::empty());
}

/// Reads the big-endian `u32` in `bytes[at..at + 4]`.
pub fn read_be_u32(bytes: &[u8], at: usize) -> (v: u32)
    requires
        at + 4 <= bytes@.len(),
    ensures
        v == be_u32_at(bytes@, at as int),
{
    let b0: u32 = bytes[at] as u32;
    let b1: u32 = bytes[at + 1] as u32;
    let b2: u32 = bytes[at + 2] as u32;
    let b3: u32 = bytes[at + 3] as u32;
    b0 * 0x100_0000 + b1 * 0x1_0000 + b2 * 0x100 + b3
}

/// Appends the four big-endian bytes of `v` to `out`.
pub fn push_be_u32(out: &mut Vec<u8>, v: u32)
    ensures
        final(out)@ == old(out)@ + be_bytes(v),
{
    out.push((v / 0x100_0000) as u8);
    out.push((v / 0x1_0000 % 0x100) as u8);
    out.push((v / 0x100 % 0x100) as u8);
    out.push((v % 0x100) as u8);
}

} // verus!
