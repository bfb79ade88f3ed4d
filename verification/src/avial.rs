//! The avail descriptor: a fixed ten-byte record that carries the number of
//! one advertising opportunity.

use crate::identifier::validate_identifier_bytes;
use crate::word::{
    be_bytes, be_u32_at, lemma_be_bytes_then_be_u32, lemma_be_u32_then_be_bytes, push_be_u32,
    read_be_u32,
};
use vstd::prelude::*;
use vstd::slice::slice_subrange;

pub use crate::identifier::CUE_IDENTIFIER;

verus! {

/// The tag byte of an avail descriptor.
pub const AVAIL_DESCRIPTOR_TAG: u8 = 0x00;

/// The value of an avail descriptor's length byte: the eight bytes that
/// follow it, identifier and avail id.
pub const AVAIL_DESCRIPTOR_LENGTH_FIELD: u8 = 0x08;

/// An avail descriptor.
#[derive(Debug, Clone, PartialEq, Eq, Structural)]
pub struct AvailDescriptor {
    /// The provider's number for the avail.
    pub provider_avail_id: u32,
}

/// Why a buffer is not an avail descriptor. Each variant carries what was
/// found in place of the expected value.
#[derive(Debug, Clone, Copy, PartialEq, Eq, Structural)]
pub enum AvailDescriptorError {
    /// The buffer is not ten bytes long; its length.
    InvalidLength(usize),
    /// The first byte is not the avail tag; that byte.
    InvalidTag(u8),
    /// The second byte is not `0x08`; that byte.
    InvalidDescriptorLength(u8),
    /// Bytes two to five are not the identifier; the number they spell.
    InvalidIdentifier(u32),
}

impl AvailDescriptor {
    /// The length of the wire form: tag, length byte, identifier, avail id.
    pub const DESCRIPTOR_LENGTH: usize = 10;

    /// The wire form: tag, length byte, identifier, then the avail id with
    /// its most significant byte first.
    pub open spec fn spec_to_bytes(self) -> Seq<u8> {
        seq![AVAIL_DESCRIPTOR_TAG, AVAIL_DESCRIPTOR_LENGTH_FIELD] + be_bytes(CUE_IDENTIFIER)
            + be_bytes(self.provider_avail_id)
    }

    /// What `bytes` decode to. The fields are examined in wire order, and
    /// the first one that is not as expected names the error.
    pub open spec fn spec_from_bytes(bytes: Seq<u8>) -> Result<AvailDescriptor, AvailDescriptorError> {
        if bytes.len() != 10 {
            Err(AvailDescriptorError::InvalidLength(bytes.len() as usize))
        } else if bytes[0] != AVAIL_DESCRIPTOR_TAG {
            Err(AvailDescriptorError::InvalidTag(bytes[0]))
        } else if bytes[1] != AVAIL_DESCRIPTOR_LENGTH_FIELD {
            Err(AvailDescriptorError::InvalidDescriptorLength(bytes[1]))
        } else if be_u32_at(bytes, 2) != CUE_IDENTIFIER {
            Err(AvailDescriptorError::InvalidIdentifier(be_u32_at(bytes, 2)))
        } else {
            Ok(AvailDescriptor { provider_avail_id: be_u32_at(bytes, 6) })
        }
    }

    /// Parses an avail descriptor from a buffer of exactly ten bytes.
    ///
    /// Nothing but a descriptor's exact wire form is accepted. A buffer of
    /// another length is refused whatever it holds; in one of ten bytes the
    /// first field that is not as expected is reported with its value.
    pub fn from_bytes(bytes: &[u8]) -> (r: Result<Self, AvailDescriptorError>)
        ensures
            r == Self::spec_from_bytes(bytes@),
            bytes@.len() != 10 ==> r == Err::<Self, AvailDescriptorError>(
                AvailDescriptorError::InvalidLength(bytes@.len() as usize),
            ),
            r is Ok ==> {
                &&& bytes@.len() == 10
                &&& bytes@[0] == AVAIL_DESCRIPTOR_TAG
                &&& bytes@[1] == AVAIL_DESCRIPTOR_LENGTH_FIELD
                &&& be_u32_at(bytes@, 2) == CUE_IDENTIFIER
            },
            r matches Ok(d) ==> bytes@ == d.spec_to_bytes(),
    {
        if bytes.len() != Self::DESCRIPTOR_LENGTH {
            return Err(AvailDescriptorError::InvalidLength(bytes.len()));
        }
        if bytes[0] != AVAIL_DESCRIPTOR_TAG {
            return Err(AvailDescriptorError::InvalidTag(bytes[0]));
        }
        if bytes[1] != AVAIL_DESCRIPTOR_LENGTH_FIELD {
            return Err(AvailDescriptorError::InvalidDescriptorLength(bytes[1]));
        }
        if validate_identifier_bytes(slice_subrange(bytes, 2, 6)).is_err() {
            return Err(AvailDescriptorError::InvalidIdentifier(read_be_u32(bytes, 2)));
        }
        let provider_avail_id = read_be_u32(bytes, 6);
        proof {
            lemma_encode_inverts_decode(bytes@);
        }
        Ok(Self { provider_avail_id })
    }

    /// Serializes the descriptor into its ten bytes.
    pub fn to_bytes(&self) -> (buf: Vec<u8>)
        ensures
            buf@ == self.spec_to_bytes(),
            buf@.len() == 10,
    {
        let mut buf = Vec::with_capacity(Self::DESCRIPTOR_LENGTH);
        buf.push(AVAIL_DESCRIPTOR_TAG);
        buf.push(AVAIL_DESCRIPTOR_LENGTH_FIELD);
        push_be_u32(&mut buf, CUE_IDENTIFIER);
        push_be_u32(&mut buf, self.provider_avail_id);
        buf
    }

    /// The value of the length byte: identifier and avail id, in bytes.
    pub fn length(&self) -> (n: usize)
        ensures
            n == 8,
            n == AVAIL_DESCRIPTOR_LENGTH_FIELD,
    {
        let length_bits: usize = 32 + 32;
        length_bits / 8
    }
}

/// Decoding what was encoded gives the descriptor back, for every
/// descriptor.
pub proof fn lemma_decode_inverts_encode(v: AvailDescriptor)
    ensures
        v.spec_to_bytes().len() == 10,
        AvailDescriptor::spec_from_bytes(v.spec_to_bytes()) == Ok::<
            AvailDescriptor,
            AvailDescriptorError,
        >(v),
{
    let wire = v.spec_to_bytes();
    lemma_be_bytes_then_be_u32(CUE_IDENTIFIER);
    lemma_be_bytes_then_be_u32(v.provider_avail_id);
    assert(be_u32_at(wire, 2) == be_u32_at(be_bytes(CUE_IDENTIFIER), 0));
    assert(be_u32_at(wire, 6) == be_u32_at(be_bytes(v.provider_avail_id), 0));
}

/// Encoding what was decoded gives the bytes back: every buffer that
/// decodes is the wire form of the descriptor it decodes to.
pub proof fn lemma_encode_inverts_decode(bytes: Seq<u8>)
    requires
        AvailDescriptor::spec_from_bytes(bytes) is Ok,
    ensures
        AvailDescriptor::spec_from_bytes(bytes)->Ok_0.spec_to_bytes() == bytes,
{
    let d = AvailDescriptor::spec_from_bytes(bytes)->Ok_0;
    lemma_be_u32_then_be_bytes(bytes[2], bytes[3], bytes[4], bytes[5]);
    lemma_be_u32_then_be_bytes(bytes[6], bytes[7], bytes[8], bytes[9]);
    assert(d.spec_to_bytes() =~= bytes);
}

} // verus!
