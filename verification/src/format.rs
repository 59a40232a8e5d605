//! The constants of the on-disk layout.

use vstd::prelude::*;

verus! {

/// The container's signature: the bytes `SKIN`, read as a little-endian
/// 32-bit value.
pub const SKIN_MAGIC: u32 = 0x4E49_4B53;

/// The compressed envelope's signature: the bytes `KPCK`, read as a
/// little-endian 32-bit value.
pub const KPACK_MAGIC: u32 = 0x4B43_504B;

/// The length of the header: the signature, the version and three offsets.
pub const HEADER_LEN: usize = 20;

/// The bytes between the parameters offset and the first parameter.
pub const PARAMS_PAD: usize = 4;

/// The length of the parameter block, without the pad before it.
pub const PARAMS_LEN: usize = 76;

/// The most entries a list may hold before its terminator.
pub const MAX_ENTRIES: usize = 100_000;

} // verus!
