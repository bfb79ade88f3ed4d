//! The tag registry and the descriptor that is one of several kinds.

use crate::avial::{AvailDescriptor, AvailDescriptorError, AVAIL_DESCRIPTOR_TAG};
use crate::dtmf::{DTMFDescriptor, DTMFDescriptorError, DTMFDescriptorView, DTMF_DESCRIPTOR_TAG};
use crate::word::{be_u32_at, read_be_u32};
use vstd::prelude::*;
use vstd::slice::{slice_subrange, slice_to_vec};
use vstd::std_specs::convert::FromSpecImpl;

verus! {

/// The tag byte of a segmentation descriptor.
pub const SEGMENTATION_DESCRIPTOR_TAG: u8 = 0x02;

/// The tag byte of a time descriptor.
pub const TIME_DESCRIPTOR_TAG: u8 = 0x03;

/// The tag byte of an audio descriptor.
pub const AUDIO_DESCRIPTOR_TAG: u8 = 0x04;

/// The first tag byte of the range kept for DVB and private use, which runs
/// to `0xFF`.
pub const DVB_TAG_START: u8 = 0xF0;

/// What a descriptor's tag byte says it is.
#[derive(Copy, Clone, Debug, PartialEq, Eq, Structural)]
pub enum SpliceDescriptorTag {
    Avail,
    DTMF,
    Segmentation,
    Time,
    Audio,
    /// A tag from `0x05` to `0xEF`, kept for later use.
    Reserved(u8),
    /// A tag from `0xF0` to `0xFF`, for DVB and private use.
    DVB(u8),
}

impl SpliceDescriptorTag {
    /// The kind that the tag byte `value` names.
    pub open spec fn of_byte(value: u8) -> SpliceDescriptorTag {
        if value == AVAIL_DESCRIPTOR_TAG {
            SpliceDescriptorTag::Avail
        } else if value == DTMF_DESCRIPTOR_TAG {
            SpliceDescriptorTag::DTMF
        } else if value == SEGMENTATION_DESCRIPTOR_TAG {
            SpliceDescriptorTag::Segmentation
        } else if value == TIME_DESCRIPTOR_TAG {
            SpliceDescriptorTag::Time
        } else if value == AUDIO_DESCRIPTOR_TAG {
            SpliceDescriptorTag::Audio
        } else if value < DVB_TAG_START {
            SpliceDescriptorTag::Reserved(value)
        } else {
            SpliceDescriptorTag::DVB(value)
        }
    }

    /// The tag byte of this kind.
    pub open spec fn byte(self) -> u8 {
        match self {
            SpliceDescriptorTag::Avail => AVAIL_DESCRIPTOR_TAG,
            SpliceDescriptorTag::DTMF => DTMF_DESCRIPTOR_TAG,
            SpliceDescriptorTag::Segmentation => SEGMENTATION_DESCRIPTOR_TAG,
            SpliceDescriptorTag::Time => TIME_DESCRIPTOR_TAG,
            SpliceDescriptorTag::Audio => AUDIO_DESCRIPTOR_TAG,
            SpliceDescriptorTag::Reserved(value) => value,
            SpliceDescriptorTag::DVB(value) => value,
        }
    }

    /// Whether the byte in an open range lies in that range. Every tag made
    /// from a byte is canonical.
    pub open spec fn is_canonical(self) -> bool {
        match self {
            SpliceDescriptorTag::Reserved(value) => AUDIO_DESCRIPTOR_TAG < value < DVB_TAG_START,
            SpliceDescriptorTag::DVB(value) => DVB_TAG_START <= value,
            _ => true,
        }
    }
}

impl From<u8> for SpliceDescriptorTag {
    fn from(value: u8) -> (tag: Self) {
        match value {
            0x0 => SpliceDescriptorTag::Avail,
            0x1 => SpliceDescriptorTag::DTMF,
            0x2 => SpliceDescriptorTag::Segmentation,
            0x3 => SpliceDescriptorTag::Time,
            0x4 => SpliceDescriptorTag::Audio,
            0x5..=0xEF => SpliceDescriptorTag::Reserved(value),
            _ => SpliceDescriptorTag::DVB(value),
        }
    }
}

impl FromSpecImpl<u8> for SpliceDescriptorTag {
    open spec fn obeys_from_spec() -> bool {
        true
    }

    open spec fn from_spec(value: u8) -> Self {
        SpliceDescriptorTag::of_byte(value)
    }
}

impl From<SpliceDescriptorTag> for u8 {
    fn from(value: SpliceDescriptorTag) -> (byte: Self) {
        match value {
            SpliceDescriptorTag::Avail => 0x0,
            SpliceDescriptorTag::DTMF => 0x1,
            SpliceDescriptorTag::Segmentation => 0x2,
            SpliceDescriptorTag::Time => 0x3,
            SpliceDescriptorTag::Audio => 0x4,
            SpliceDescriptorTag::Reserved(value) => value,
            SpliceDescriptorTag::DVB(value) => value,
        }
    }
}

impl FromSpecImpl<SpliceDescriptorTag> for u8 {
    open spec fn obeys_from_spec() -> bool {
        true
    }

    open spec fn from_spec(value: SpliceDescriptorTag) -> Self {
        value.byte()
    }
}

/// Every byte names a kind, and the kind gives the byte back.
pub proof fn lemma_tag_of_byte_round_trip(value: u8)
    ensures
        SpliceDescriptorTag::of_byte(value).is_canonical(),
        SpliceDescriptorTag::of_byte(value).byte() == value,
{
}

/// A canonical tag is the kind that its own byte names.
pub proof fn lemma_byte_of_tag_round_trip(tag: SpliceDescriptorTag)
    requires
        tag.is_canonical(),
    ensures
        SpliceDescriptorTag::of_byte(tag.byte()) == tag,
{
}

/// A splice descriptor of any kind.
///
/// Only the avail and the DTMF descriptor have a wire layout here. The other
/// named kinds are placeholders, and `Unknown` keeps a descriptor that was
/// read but not interpreted: its tag, its identifier, and every byte that
/// followed the tag.
#[derive(Debug, Clone, PartialEq)]
pub enum SpliceDescriptor {
    Avail(AvailDescriptor),
    DTMF(DTMFDescriptor),
    Segmentation,
    Time,
    Audio,
    Unknown(u8, u32, Vec<u8>),
}

/// What a `SpliceDescriptor` holds, with strings and vectors as sequences.
pub enum SpliceDescriptorView {
    Avail(AvailDescriptor),
    DTMF(DTMFDescriptorView),
    Segmentation,
    Time,
    Audio,
    Unknown(u8, u32, Seq<u8>),
}

impl View for SpliceDescriptor {
    type V = SpliceDescriptorView;

    open spec fn view(&self) -> SpliceDescriptorView {
        match *self {
            SpliceDescriptor::Avail(descriptor) => SpliceDescriptorView::Avail(descriptor),
            SpliceDescriptor::DTMF(descriptor) => SpliceDescriptorView::DTMF(descriptor@),
            SpliceDescriptor::Segmentation => SpliceDescriptorView::Segmentation,
            SpliceDescriptor::Time => SpliceDescriptorView::Time,
            SpliceDescriptor::Audio => SpliceDescriptorView::Audio,
            SpliceDescriptor::Unknown(tag, identifier, payload) => SpliceDescriptorView::Unknown(
                tag,
                identifier,
                payload@,
            ),
        }
    }
}

/// Why a descriptor could not be decoded or encoded.
#[derive(Debug, Clone, Copy, PartialEq, Eq, Structural)]
pub enum SpliceDescriptorError {
    /// The input holds no byte at all, so not even a tag.
    TruncatedInput,
    /// The tag is that of an avail descriptor, which the bytes are not.
    Avail(AvailDescriptorError),
    /// The tag is that of a DTMF descriptor, which could not be read or
    /// written.
    DTMF(DTMFDescriptorError),
    /// No wire layout is defined for descriptors with this tag.
    NotImplemented(u8),
}

impl SpliceDescriptorView {
    /// The tag byte of the descriptor.
    pub open spec fn tag(self) -> u8 {
        match self {
            SpliceDescriptorView::Avail(_) => AVAIL_DESCRIPTOR_TAG,
            SpliceDescriptorView::DTMF(_) => DTMF_DESCRIPTOR_TAG,
            SpliceDescriptorView::Segmentation => SEGMENTATION_DESCRIPTOR_TAG,
            SpliceDescriptorView::Time => TIME_DESCRIPTOR_TAG,
            SpliceDescriptorView::Audio => AUDIO_DESCRIPTOR_TAG,
            SpliceDescriptorView::Unknown(tag, _, _) => tag,
        }
    }

    /// The wire form, for the kinds that have one.
    pub open spec fn spec_encode(self) -> Result<Seq<u8>, SpliceDescriptorError> {
        match self {
            SpliceDescriptorView::Avail(descriptor) => Ok(descriptor.spec_to_bytes()),
            SpliceDescriptorView::DTMF(descriptor) => if descriptor.encodable() {
                Ok(descriptor.spec_encode())
            } else {
                Err(
                    SpliceDescriptorError::DTMF(
                        DTMFDescriptorError::CountOverflow(descriptor.char_bytes().len() as usize),
                    ),
                )
            },
            _ => Err(SpliceDescriptorError::NotImplemented(self.tag())),
        }
    }
}

/// The identifier in bytes two to five of a descriptor, or zero where the
/// descriptor is too short to hold one.
pub open spec fn embedded_identifier(bytes: Seq<u8>) -> u32 {
    if bytes.len() >= 6 {
        be_u32_at(bytes, 2)
    } else {
        0
    }
}

impl SpliceDescriptor {
    /// What `bytes` decode to: the first byte picks the codec, and a
    /// descriptor of a kind without a codec is kept as `Unknown`.
    pub open spec fn spec_decode(bytes: Seq<u8>) -> Result<
        SpliceDescriptorView,
        SpliceDescriptorError,
    > {
        if bytes.len() == 0 {
            Err(SpliceDescriptorError::TruncatedInput)
        } else {
            match SpliceDescriptorTag::of_byte(bytes[0]) {
                SpliceDescriptorTag::Avail => match AvailDescriptor::spec_from_bytes(bytes) {
                    Ok(descriptor) => Ok(SpliceDescriptorView::Avail(descriptor)),
                    Err(e) => Err(SpliceDescriptorError::Avail(e)),
                },
                SpliceDescriptorTag::DTMF => match DTMFDescriptor::spec_decode(bytes) {
                    Some(descriptor) => Ok(SpliceDescriptorView::DTMF(descriptor)),
                    None => Err(
                        SpliceDescriptorError::DTMF(DTMFDescriptorError::TruncatedInput),
                    ),
                },
                _ => Ok(
                    SpliceDescriptorView::Unknown(
                        bytes[0],
                        embedded_identifier(bytes),
                        bytes.skip(1),
                    ),
                ),
            }
        }
    }

    /// The tag byte of the descriptor.
    pub fn splice_descriptor_tag(&self) -> (tag: u8)
        ensures
            tag == self@.tag(),
    {
        match self {
            SpliceDescriptor::Avail(_) => AVAIL_DESCRIPTOR_TAG,
            SpliceDescriptor::DTMF(_) => DTMF_DESCRIPTOR_TAG,
            SpliceDescriptor::Segmentation => SEGMENTATION_DESCRIPTOR_TAG,
            SpliceDescriptor::Time => TIME_DESCRIPTOR_TAG,
            SpliceDescriptor::Audio => AUDIO_DESCRIPTOR_TAG,
            SpliceDescriptor::Unknown(tag, _, _) => *tag,
        }
    }

    /// Encodes the descriptor with the codec of its kind and returns the
    /// bytes, for the caller to send where they belong. The descriptor is
    /// not changed.
    ///
    /// A kind without a wire layout gives `NotImplemented` with its tag.
    pub fn write_to(&mut self) -> (r: Result<Vec<u8>, SpliceDescriptorError>)
        ensures
            *final(self) == *old(self),
            match r {
                Ok(bytes) => old(self)@.spec_encode() == Ok::<Seq<u8>, SpliceDescriptorError>(
                    bytes@,
                ),
                Err(e) => old(self)@.spec_encode() == Err::<Seq<u8>, SpliceDescriptorError>(e),
            },
    {
        match self {
            SpliceDescriptor::Avail(descriptor) => Ok(descriptor.to_bytes()),
            SpliceDescriptor::DTMF(descriptor) => match descriptor.encode() {
                Ok(bytes) => Ok(bytes),
                Err(e) => Err(SpliceDescriptorError::DTMF(e)),
            },
            SpliceDescriptor::Segmentation => Err(
                SpliceDescriptorError::NotImplemented(SEGMENTATION_DESCRIPTOR_TAG),
            ),
            SpliceDescriptor::Time => Err(
                SpliceDescriptorError::NotImplemented(TIME_DESCRIPTOR_TAG),
            ),
            SpliceDescriptor::Audio => Err(
                SpliceDescriptorError::NotImplemented(AUDIO_DESCRIPTOR_TAG),
            ),
            SpliceDescriptor::Unknown(tag, _, _) => Err(
                SpliceDescriptorError::NotImplemented(*tag),
            ),
        }
    }

    /// Decodes the descriptor in `bytes`, whose first byte is its tag.
    pub fn decode(bytes: &[u8]) -> (r: Result<SpliceDescriptor, SpliceDescriptorError>)
        ensures
            match r {
                Ok(descriptor) => Self::spec_decode(bytes@) == Ok::<
                    SpliceDescriptorView,
                    SpliceDescriptorError,
                >(descriptor@),
                Err(e) => Self::spec_decode(bytes@) == Err::<
                    SpliceDescriptorView,
                    SpliceDescriptorError,
                >(e),
            },
    {
        if bytes.len() == 0 {
            return Err(SpliceDescriptorError::TruncatedInput);
        }
        let tag = bytes[0];
        match SpliceDescriptorTag::from(tag) {
            SpliceDescriptorTag::Avail => match AvailDescriptor::from_bytes(bytes) {
                Ok(descriptor) => Ok(SpliceDescriptor::Avail(descriptor)),
                Err(e) => Err(SpliceDescriptorError::Avail(e)),
            },
            SpliceDescriptorTag::DTMF => match DTMFDescriptor::decode(bytes) {
                Ok(descriptor) => Ok(SpliceDescriptor::DTMF(descriptor)),
                Err(e) => Err(SpliceDescriptorError::DTMF(e)),
            },
            _ => {
                let identifier = if bytes.len() >= 6 {
                    read_be_u32(bytes, 2)
                } else {
                    0
                };
                let payload = slice_to_vec(slice_subrange(bytes, 1, bytes.len()));
                assert(payload@ =~= bytes@.skip(1));
                Ok(SpliceDescriptor::Unknown(tag, identifier, payload))
            },
        }
    }
}

/// Nothing is lost of a descriptor that is kept as `Unknown`: its tag
/// followed by its payload is the input, byte for byte.
pub proof fn lemma_unknown_keeps_every_byte(bytes: Seq<u8>)
    requires
        SpliceDescriptor::spec_decode(bytes) matches Ok(SpliceDescriptorView::Unknown(_, _, _)),
    ensures
        SpliceDescriptor::spec_decode(bytes) matches Ok(
            SpliceDescriptorView::Unknown(tag, identifier, payload),
        ) && seq![tag] + payload == bytes && identifier == embedded_identifier(bytes),
{
    assert(seq![bytes[0]] + bytes.skip(1) =~= bytes);
}

/// Decoding what was encoded gives the descriptor back, for every avail
/// descriptor and every valid DTMF descriptor.
pub proof fn lemma_decode_inverts_encode(v: SpliceDescriptorView)
    requires
        v is Avail || (v matches SpliceDescriptorView::DTMF(descriptor) && descriptor.is_valid()),
    ensures
        v.spec_encode() is Ok,
        SpliceDescriptor::spec_decode(v.spec_encode()->Ok_0) == Ok::<
            SpliceDescriptorView,
            SpliceDescriptorError,
        >(v),
{
    match v {
        SpliceDescriptorView::Avail(descriptor) => {
            crate::avial::lemma_decode_inverts_encode(descriptor);
        },
        SpliceDescriptorView::DTMF(descriptor) => {
            crate::dtmf::lemma_decode_inverts_encode(descriptor);
        },
        _ => {},
    }
}

/// Whatever decodes to a descriptor with a codec starts with that
/// descriptor's tag, and whatever starts with another tag is kept as
/// `Unknown` under that tag.
pub proof fn lemma_decode_goes_by_tag(bytes: Seq<u8>)
    requires
        bytes.len() > 0,
    ensures
        SpliceDescriptor::spec_decode(bytes) matches Ok(v) ==> v.tag() == bytes[0],
        bytes[0] != AVAIL_DESCRIPTOR_TAG && bytes[0] != DTMF_DESCRIPTOR_TAG
            ==> SpliceDescriptor::spec_decode(bytes) is Ok,
{
}

} // verus!
