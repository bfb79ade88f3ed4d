//! The DTMF descriptor: a preroll and up to seven touch-tone characters, with
//! the character count packed into three bits.

use crate::bits::{
    bits_of, drop_low_bits, lemma_bits_of_concat, lemma_bits_of_first, lemma_bits_of_injective,
    lemma_bits_of_push, lemma_bits_of_skip, lemma_byte_bits_value, lemma_byte_high_bits,
    lemma_value_bits_len, lemma_value_bits_split, value_bits,
};
use crate::bitstream::{
    close_sink, open_sink, open_source, read_bits, skip_bits, unread_bits, write_bits,
    written_bits, BitSink, BitSource,
};
use crate::identifier::CUE_IDENTIFIER;
use crate::word::{be_bytes, lemma_be_bytes_bits};
use vstd::arithmetic::power2::{lemma2_to64, pow2};
use vstd::prelude::*;
use vstd::utf8::{encode_utf8, is_ascii_chars, is_ascii_chars_encode_utf8};

verus! {

/// The tag byte of a DTMF descriptor.
pub const DTMF_DESCRIPTOR_TAG: u8 = 0x01;

/// The bytes of a DTMF descriptor before its characters: tag, length,
/// identifier, preroll, and the byte that packs count and reserved bits.
pub const DTMF_HEADER_LENGTH: usize = 8;

/// The most characters a descriptor can carry: what three bits can count.
pub const DTMF_MAX_CHARS: usize = 7;

/// The five reserved bits, all ones.
const RESERVED: u8 = 0b11111;

/// A DTMF descriptor.
#[derive(Debug, Clone, PartialEq, Eq)]
pub struct DTMFDescriptor {
    /// The descriptor's tag as a number; 1 in every descriptor that `decode`
    /// or `default` makes.
    pub json_type: u32,
    /// The preroll, in tenths of a second.
    pub preroll: u8,
    /// The tones, one character each.
    pub dtmf_chars: String,
}

/// What a `DTMFDescriptor` holds, with the characters as a sequence.
pub struct DTMFDescriptorView {
    pub json_type: u32,
    pub preroll: u8,
    pub dtmf_chars: Seq<char>,
}

impl DTMFDescriptorView {
    /// The bytes that the characters take on the wire: their UTF-8 encoding,
    /// which for ASCII characters is one byte each.
    pub open spec fn char_bytes(self) -> Seq<u8> {
        encode_utf8(self.dtmf_chars)
    }

    /// What the length byte counts: identifier, preroll, the packed byte and
    /// the characters.
    pub open spec fn spec_length(self) -> nat {
        4 + 1 + 1 + self.char_bytes().len()
    }

    /// Whether the characters fit the three-bit count.
    pub open spec fn encodable(self) -> bool {
        self.char_bytes().len() <= DTMF_MAX_CHARS
    }

    /// The wire form: tag, length, identifier, preroll, the count in the top
    /// three bits of a byte whose other bits are ones, then the characters.
    pub open spec fn spec_encode(self) -> Seq<u8>
        recommends
            self.encodable(),
    {
        seq![DTMF_DESCRIPTOR_TAG, self.spec_length() as u8] + be_bytes(CUE_IDENTIFIER) + seq![
            self.preroll,
            (32 * self.char_bytes().len() + 31) as u8,
        ] + self.char_bytes()
    }

    /// A descriptor that survives a trip over the wire: it names its own tag
    /// and holds at most seven characters, each of them ASCII.
    pub open spec fn is_valid(self) -> bool {
        &&& self.json_type == DTMF_DESCRIPTOR_TAG
        &&& self.dtmf_chars.len() <= DTMF_MAX_CHARS
        &&& is_ascii_chars(self.dtmf_chars)
    }
}

impl View for DTMFDescriptor {
    type V = DTMFDescriptorView;

    open spec fn view(&self) -> DTMFDescriptorView {
        DTMFDescriptorView {
            json_type: self.json_type,
            preroll: self.preroll,
            dtmf_chars: self.dtmf_chars@,
        }
    }
}

/// Why a DTMF descriptor could not be decoded or encoded.
#[derive(Debug, Clone, Copy, PartialEq, Eq, Structural)]
pub enum DTMFDescriptorError {
    /// The input ended before a field that the layout or the count declares.
    TruncatedInput,
    /// The characters take this many bytes, more than the seven that the
    /// three-bit count can state.
    CountOverflow(usize),
}

/// `String::push`, taken on trust: the string is as before, with `c` as one
/// more character at its end.
#[verifier::external_body]
fn push_char(text: &mut String, c: char)
    ensures
        final(text)@ == old(text)@.push(c),
{
    text.push(c)
}

/// Reads one whole byte from a source that stands at a byte boundary, `rest`
/// being the bytes still to come.
fn take_byte(source: &mut BitSource, Ghost(rest): Ghost<Seq<u8>>) -> (r: Result<
    u8,
    DTMFDescriptorError,
>)
    requires
        unread_bits(*old(source)) == bits_of(rest),
    ensures
        match r {
            Ok(byte) => {
                &&& rest.len() > 0
                &&& byte == rest[0]
                &&& unread_bits(*final(source)) == bits_of(rest.skip(1))
            },
            Err(e) => rest.len() == 0 && e == DTMFDescriptorError::TruncatedInput,
        },
{
    match read_bits(source, 8) {
        Ok(value) => {
            proof {
                lemma_bits_of_first(rest);
                lemma_byte_bits_value(rest[0]);
            }
            Ok(value as u8)
        },
        Err(_) => Err(DTMFDescriptorError::TruncatedInput),
    }
}

/// Writes `bits` bits that are known to hold `value`.
fn put_bits(sink: &mut BitSink, bits: u32, value: u32)
    requires
        bits <= 32,
        value < pow2(bits as nat),
    ensures
        written_bits(*final(sink)) == written_bits(*old(sink)) + value_bits(
            value as nat,
            bits as nat,
        ),
{
    let outcome = write_bits(sink, bits, value);
    assert(outcome is Ok);
}

/// Writes one whole byte to a sink that stands at a byte boundary, `done`
/// being the bytes written so far.
fn put_byte(sink: &mut BitSink, byte: u8, Ghost(done): Ghost<Seq<u8>>)
    requires
        written_bits(*old(sink)) == bits_of(done),
    ensures
        written_bits(*final(sink)) == bits_of(done.push(byte)),
{
    proof {
        lemma2_to64();
        lemma_bits_of_push(done, byte);
    }
    put_bits(sink, 8, byte as u32);
}

impl DTMFDescriptor {
    /// The descriptor that `bytes` spell, if they hold one whole.
    ///
    /// Tag, length and identifier are passed over without a test, and so are
    /// the five reserved bits and whatever follows the last character.
    pub open spec fn spec_decode(bytes: Seq<u8>) -> Option<DTMFDescriptorView> {
        if bytes.len() < DTMF_HEADER_LENGTH {
            None
        } else {
            let count = bytes[7] as int / 32;
            if bytes.len() < DTMF_HEADER_LENGTH + count {
                None
            } else {
                Some(
                    DTMFDescriptorView {
                        json_type: DTMF_DESCRIPTOR_TAG as u32,
                        preroll: bytes[6],
                        dtmf_chars: Seq::new(count as nat, |i: int| bytes[8 + i] as char),
                    },
                )
            }
        }
    }

    /// Reads a descriptor from the front of `data`.
    ///
    /// It fails if and only if `data` ends before the eighth byte or before
    /// the last of the characters that the count declares.
    pub fn decode(data: &[u8]) -> (r: Result<Self, DTMFDescriptorError>)
        ensures
            match r {
                Ok(descriptor) => Self::spec_decode(data@) == Some(descriptor@),
                Err(e) => Self::spec_decode(data@) is None && e
                    == DTMFDescriptorError::TruncatedInput,
            },
            r is Ok <==> data@.len() >= DTMF_HEADER_LENGTH && data@.len() >= DTMF_HEADER_LENGTH
                + data@[7] as int / 32,
    {
        let ghost bytes = data@;
        let mut source = open_source(data);
        let _tag = take_byte(&mut source, Ghost(bytes))?;
        let _length = take_byte(&mut source, Ghost(bytes.skip(1)))?;
        assert(bytes.skip(1).skip(1) =~= bytes.skip(2));
        proof {
            if bytes.len() >= 6 {
                lemma_bits_of_skip(bytes.skip(2), 4);
                assert(bytes.skip(2).skip(4) =~= bytes.skip(6));
            }
        }
        let _identifier = match read_bits(&mut source, 32) {
            Ok(value) => value,
            Err(_) => return Err(DTMFDescriptorError::TruncatedInput),
        };
        let preroll = take_byte(&mut source, Ghost(bytes.skip(6)))?;
        assert(bytes.skip(6).skip(1) =~= bytes.skip(7));
        proof {
            if bytes.len() >= 8 {
                lemma_bits_of_first(bytes.skip(7));
                lemma_byte_high_bits(bytes[7], 3);
                reveal_with_fuel(drop_low_bits, 6);
                assert(bits_of(bytes.skip(7)).take(3) =~= bits_of(bytes.skip(7)).take(8).take(3));
                assert(bits_of(bytes.skip(7)).skip(3).skip(5) =~= bits_of(bytes.skip(7)).skip(8));
                assert(bytes.skip(7).skip(1) =~= bytes.skip(8));
            }
        }
        let count = match read_bits(&mut source, 3) {
            Ok(value) => value as usize,
            Err(_) => return Err(DTMFDescriptorError::TruncatedInput),
        };
        match skip_bits(&mut source, 5) {
            Ok(()) => {},
            Err(_) => return Err(DTMFDescriptorError::TruncatedInput),
        }
        let mut chars = String::new();
        for i in 0..count
            invariant
                bytes == data@,
                bytes.len() >= 8,
                count == bytes[7] as int / 32,
                preroll == bytes[6],
                bytes.len() >= 8 + i,
                unread_bits(source) == bits_of(bytes.skip(8 + i as int)),
                chars@ == Seq::new(i as nat, |j: int| bytes[8 + j] as char),
        {
            let byte = take_byte(&mut source, Ghost(bytes.skip(8 + i as int)))?;
            assert(bytes.skip(8 + i as int).skip(1) =~= bytes.skip(8 + i as int + 1));
            push_char(&mut chars, byte as char);
            assert(chars@ =~= Seq::new((i + 1) as nat, |j: int| bytes[8 + j] as char));
        }
        Ok(DTMFDescriptor { json_type: DTMF_DESCRIPTOR_TAG as u32, preroll, dtmf_chars: chars })
    }

    /// Writes the descriptor in its wire form.
    ///
    /// The characters go out as the bytes that the string holds, and the
    /// count is the number of those bytes. A descriptor with more than seven
    /// is refused: nothing is cut off, and the count never wraps.
    pub fn encode(&self) -> (r: Result<Vec<u8>, DTMFDescriptorError>)
        ensures
            match r {
                Ok(bytes) => self@.encodable() && bytes@ == self@.spec_encode(),
                Err(e) => !self@.encodable() && e == DTMFDescriptorError::CountOverflow(
                    self@.char_bytes().len() as usize,
                ),
            },
    {
        let chars = self.dtmf_chars.as_str().as_bytes();
        let count = chars.len();
        if count > DTMF_MAX_CHARS {
            return Err(DTMFDescriptorError::CountOverflow(count));
        }
        let ghost packed: u8 = (32 * count + 31) as u8;
        let mut sink = open_sink();
        let ghost mut done = Seq::<u8>::empty();
        proof {
            lemma2_to64();
            assert(bits_of(done) =~= Seq::<bool>::empty());
        }

        put_byte(&mut sink, DTMF_DESCRIPTOR_TAG, Ghost(done));
        proof {
            done = done.push(DTMF_DESCRIPTOR_TAG);
        }
        put_byte(&mut sink, self.length() as u8, Ghost(done));
        proof {
            done = done.push(self@.spec_length() as u8);
        }
        put_bits(&mut sink, 32, CUE_IDENTIFIER);
        proof {
            lemma_be_bytes_bits(CUE_IDENTIFIER);
            lemma_bits_of_concat(done, be_bytes(CUE_IDENTIFIER));
            done = done + be_bytes(CUE_IDENTIFIER);
        }
        put_byte(&mut sink, self.preroll, Ghost(done));
        proof {
            done = done.push(self.preroll);
        }
        put_bits(&mut sink, 3, count as u32);
        put_bits(&mut sink, 5, RESERVED as u32);
        proof {
            let whole = packed as nat;
            lemma_value_bits_split(whole, 3, 5);
            lemma_value_bits_len(count as nat, 3);
            reveal_with_fuel(drop_low_bits, 6);
            reveal_with_fuel(value_bits, 6);
            assert(drop_low_bits(whole, 5) == count);
            assert(value_bits(whole, 5) =~= value_bits(RESERVED as nat, 5));
            assert(written_bits(sink) =~= bits_of(done) + value_bits(whole, 8));
            lemma_bits_of_push(done, packed);
            done = done.push(packed);
        }
        let ghost header = done;
        for i in 0..count
            invariant
                count == chars@.len(),
                written_bits(sink) == bits_of(done),
                done == header + chars@.take(i as int),
        {
            put_byte(&mut sink, chars[i], Ghost(done));
            proof {
                done = done.push(chars@[i as int]);
                assert(chars@.take(i + 1) =~= chars@.take(i as int).push(chars@[i as int]));
            }
        }
        let bytes = close_sink(sink);
        proof {
            assert(chars@.take(count as int) =~= chars@);
            assert(written_bits(sink).take(8 * (written_bits(sink).len() as int / 8))
                =~= written_bits(sink));
            lemma_bits_of_injective(bytes@, done);
            assert(done =~= self@.spec_encode());
        }
        Ok(bytes)
    }

    /// The value of the length byte: the bytes that follow it.
    pub fn length(&self) -> (n: usize)
        requires
            self@.spec_length() <= usize::MAX,
        ensures
            n == self@.spec_length(),
    {
        32 / 8 + 1 + 1 + self.dtmf_chars.as_str().len()
    }
}

/// Decoding what was encoded gives the descriptor back: for every valid
/// descriptor the wire form exists, is eight bytes and one byte for each
/// character long, and decodes to that descriptor.
pub proof fn lemma_decode_inverts_encode(v: DTMFDescriptorView)
    requires
        v.is_valid(),
    ensures
        v.encodable(),
        v.spec_encode().len() == DTMF_HEADER_LENGTH + v.dtmf_chars.len(),
        DTMFDescriptor::spec_decode(v.spec_encode()) == Some(v),
{
    is_ascii_chars_encode_utf8(v.dtmf_chars);
    let wire = v.spec_encode();
    let count = v.dtmf_chars.len();
    assert(wire[7] == 32 * count + 31);
    assert(wire[6] == v.preroll);
    let decoded = Seq::new(count, |i: int| wire[8 + i] as char);
    assert forall|i: int| 0 <= i < count implies decoded[i] == v.dtmf_chars[i] by {
        let c = v.dtmf_chars[i];
        assert(wire[8 + i] == c as u8);
        assert(c as u8 as char == c);
    }
    assert(decoded =~= v.dtmf_chars);
}

impl Default for DTMFDescriptor {
    /// The descriptor with no preroll and no characters.
    fn default() -> (d: Self)
        ensures
            d@ == (DTMFDescriptorView {
                json_type: DTMF_DESCRIPTOR_TAG as u32,
                preroll: 0,
                dtmf_chars: Seq::empty(),
            }),
    {
        Self { json_type: DTMF_DESCRIPTOR_TAG as u32, preroll: 0, dtmf_chars: String::new() }
    }
}

} // verus!
