//! Bit-level reading and writing, done by `bitstream_io`.
//!
//! Nothing in this file is proved. The two types hold a reader and a writer of
//! `bitstream_io`; the functions call them and state what the calls do, over
//! the reader's bits still to come and the writer's bits so far.

use crate::bits::{bits_of, bits_value, value_bits};
use bitstream_io::{BigEndian, BitRead, BitReader, BitWrite, BitWriter};
use std::io::Cursor;
use vstd::arithmetic::power2::pow2;
use vstd::prelude::*;

verus! {

/// `std::io::Error`, which the reader and the writer return. Nothing is known
/// of a value of it.
#[verifier::external_type_specification]
#[verifier::external_body]
pub struct ExIoError(std::io::Error);

/// A `bitstream_io::BitReader` in big-endian order over a `std::io::Cursor`
/// on a byte slice.
#[verifier::external_body]
pub struct BitSource<'a> {
    reader: BitReader<Cursor<&'a [u8]>, BigEndian>,
}

/// A `bitstream_io::BitWriter` in big-endian order into a `Vec<u8>`.
#[verifier::external_body]
pub struct BitSink {
    writer: BitWriter<Vec<u8>, BigEndian>,
}

/// The bits that `source` has not handed out yet, in the order in which it
/// will: those left of a byte it has begun, then those of the bytes behind it.
pub uninterp spec fn unread_bits(source: BitSource) -> Seq<bool>;

/// The bits written to `sink` so far, in the order in which they were written:
/// those of the bytes it has completed, then those of a byte it has begun.
pub uninterp spec fn written_bits(sink: BitSink) -> Seq<bool>;

/// `BitReader::endian` on a `Cursor` at the start of `data`: every bit of
/// `data` is still to come, most significant bit of each byte first.
#[verifier::external_body]
pub(crate) fn open_source<'a>(data: &'a [u8]) -> (source: BitSource<'a>)
    ensures
        unread_bits(source) == bits_of(data@),
{
    BitSource { reader: BitReader::endian(Cursor::new(data), BigEndian) }
}

/// `BitRead::read::<u32>`: takes the next `bits` bits and returns the number
/// they spell, most significant bit first. It fails, with the reader in an
/// unknown state, when more than 32 bits are asked for or fewer than `bits`
/// are left; the cursor gives no other error.
#[verifier::external_body]
pub(crate) fn read_bits(source: &mut BitSource, bits: u32) -> (r: Result<u32, std::io::Error>)
    ensures
        match r {
            Ok(value) => {
                &&& bits <= 32
                &&& bits <= unread_bits(*old(source)).len()
                &&& value == bits_value(unread_bits(*old(source)).take(bits as int))
                &&& unread_bits(*final(source)) == unread_bits(*old(source)).skip(bits as int)
            },
            Err(_) => bits > 32 || bits > unread_bits(*old(source)).len(),
        },
{
    source.reader.read::<u32>(bits)
}

/// `BitRead::skip`: drops the next `bits` bits. It fails, with the reader in
/// an unknown state, when fewer than `bits` are left.
#[verifier::external_body]
pub(crate) fn skip_bits(source: &mut BitSource, bits: u32) -> (r: Result<(), std::io::Error>)
    ensures
        match r {
            Ok(()) => {
                &&& bits <= unread_bits(*old(source)).len()
                &&& unread_bits(*final(source)) == unread_bits(*old(source)).skip(bits as int)
            },
            Err(_) => bits > unread_bits(*old(source)).len(),
        },
{
    source.reader.skip(bits)
}

/// `BitWriter::endian` on an empty `Vec`: nothing is written yet.
#[verifier::external_body]
pub(crate) fn open_sink() -> (sink: BitSink)
    ensures
        written_bits(sink) == Seq::<bool>::empty(),
{
    BitSink { writer: BitWriter::endian(Vec::new(), BigEndian) }
}

/// `BitWrite::write::<u32>`: appends the lowest `bits` bits of `value`, most
/// significant first. It refuses, and writes nothing, when `bits` is over 32
/// or `value` needs more than `bits` bits; writing into a `Vec` gives no other
/// error.
#[verifier::external_body]
pub(crate) fn write_bits(sink: &mut BitSink, bits: u32, value: u32) -> (r: Result<(), std::io::Error>)
    ensures
        match r {
            Ok(()) => {
                &&& bits <= 32
                &&& value < pow2(bits as nat)
                &&& written_bits(*final(sink)) == written_bits(*old(sink)) + value_bits(
                    value as nat,
                    bits as nat,
                )
            },
            Err(_) => {
                &&& bits > 32 || value >= pow2(bits as nat)
                &&& written_bits(*final(sink)) == written_bits(*old(sink))
            },
        },
{
    sink.writer.write::<u32>(bits, value)
}

/// `BitWriter::into_writer`: the `Vec` that was written into. It holds the
/// bytes that were completed, eight bits each with the most significant
/// first; the bits of a byte that was only begun are lost.
#[verifier::external_body]
pub(crate) fn close_sink(sink: BitSink) -> (bytes: Vec<u8>)
    ensures
        bits_of(bytes@) == written_bits(sink).take(8 * (written_bits(sink).len() as int / 8)),
{
    sink.writer.into_writer()
}

} // verus!
