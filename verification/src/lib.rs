//! Decoder for the binary desktop-theme ("skin") container.
//!
//! A skin is one byte buffer that holds a header of section offsets, a fixed
//! block of parameters, a list of button regions and a directory of bitmaps.
//! Every function here states its result over the bytes it is given, and
//! every failure is one of [`DecodeError`]'s variants.

pub mod bitmaps;
pub mod buttons;
pub mod cursor;
pub mod decode;
pub mod encode;
pub mod error;
pub mod format;
pub mod header;
pub mod layout;
pub mod le;
pub mod model;
pub mod params;
pub mod pixels;
pub mod tile;

pub use cursor::ByteCursor;
pub use decode::{decode_container, decode_skin, decode_unpacked, detect, Signature};
pub use error::DecodeError;
pub use model::{
    Skin, SkinBitmap, SkinButton, SkinFrameColors, SkinMargin, SkinParams, SkinSystemColors,
};
pub use tile::dup_image_horiz;
