//! The container's header.

use crate::cursor::ByteCursor;
use crate::error::DecodeError;
use crate::format::{HEADER_LEN, SKIN_MAGIC};
use crate::le::u32_at;
use vstd::prelude::*;

verus! {

/// What the header says after the signature: the format version and where
/// each section starts, counted from the start of the buffer.
#[derive(Debug, Clone, Copy, PartialEq, Eq, Structural)]
pub struct SkinHeader {
    pub version: u32,
    pub params_base: u32,
    pub buttons_base: u32,
    pub bitmaps_base: u32,
}

/// The header at the front of `s`. Fewer than four bytes cannot hold a
/// signature and are `Truncated`; a signature other than the container's is
/// `BadMagic`; a header that the buffer cuts off is `Truncated`.
pub open spec fn header_spec(s: Seq<u8>) -> Result<SkinHeader, DecodeError> {
    if s.len() < 4 {
        Err(DecodeError::Truncated)
    } else if u32_at(s, 0) != SKIN_MAGIC {
        Err(DecodeError::BadMagic)
    } else if s.len() < HEADER_LEN {
        Err(DecodeError::Truncated)
    } else {
        Ok(
            SkinHeader {
                version: u32_at(s, 4),
                params_base: u32_at(s, 8),
                buttons_base: u32_at(s, 12),
                bitmaps_base: u32_at(s, 16),
            },
        )
    }
}

/// Decodes the header at the front of `bytes`.
pub fn decode_header(bytes: &[u8]) -> (r: Result<SkinHeader, DecodeError>)
    ensures
        r == header_spec(bytes@),
{
    let mut cursor = ByteCursor::new(bytes);
    let magic: u32 = match cursor.read_u32() {
        Ok(v) => v,
        Err(e) => {
            return Err(e);
        },
    };
    if magic != SKIN_MAGIC {
        return Err(DecodeError::BadMagic);
    }
    if cursor.remaining() < HEADER_LEN - 4 {
        return Err(DecodeError::Truncated);
    }
    let version: u32 = cursor.read_u32()?;
    let params_base: u32 = cursor.read_u32()?;
    let buttons_base: u32 = cursor.read_u32()?;
    let bitmaps_base: u32 = cursor.read_u32()?;
    Ok(SkinHeader { version, params_base, buttons_base, bitmaps_base })
}

} // verus!
