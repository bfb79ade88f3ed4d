//! The identifier field shared by all splice descriptors.

use crate::word::{be_u32_at, read_be_u32};
use vstd::prelude::*;

verus! {

/// The identifier every splice descriptor carries: the ASCII bytes of `"CUEI"`.
pub const CUE_IDENTIFIER: u32 = 0x4355_4549;

/// Whether `bytes` begins with the identifier.
pub open spec fn starts_with_identifier(bytes: Seq<u8>) -> bool {
    bytes.len() >= 4 && be_u32_at(bytes, 0) == CUE_IDENTIFIER
}

/// Succeeds if and only if the first four bytes of `bytes`, read as a
/// big-endian number, are the identifier. The message tells a buffer that is
/// too short from one that holds another value.
pub fn validate_identifier_bytes(bytes: &[u8]) -> (r: Result<(), &'static str>)
    ensures
        r is Ok <==> starts_with_identifier(bytes@),
        r matches Err(message) ==> message@ == (if bytes@.len() < 4 {
            "Buffer too short to contain SCTE-35 identifier"@
        } else {
            "Invalid SCTE-35 identifier"@
        }),
{
    if bytes.len() < 4 {
        return Err("Buffer too short to contain SCTE-35 identifier");
    }
    let identifier = read_be_u32(bytes, 0);
    if identifier != CUE_IDENTIFIER {
        return Err("Invalid SCTE-35 identifier");
    }
    Ok(())
}

} // verus!
