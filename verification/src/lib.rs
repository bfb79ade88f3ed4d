//! Binary codec for SCTE-35 splice descriptors.
//!
//! Every descriptor starts with a tag byte, a length byte and the four-byte
//! identifier `"CUEI"`. The avail descriptor has a fixed ten-byte layout, the
//! DTMF descriptor a bit-packed, variable one. Each codec states its wire
//! format as a function on byte sequences and is proved against it.

pub mod avial;
pub mod bits;
pub mod bitstream;
pub mod descriptors;
pub mod dtmf;
pub mod identifier;
pub mod table;
pub mod word;
