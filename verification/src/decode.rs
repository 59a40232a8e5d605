//! From a whole buffer to a skin: the signature, the optional envelope and
//! the three sections.

use crate::bitmaps::{bitmaps_spec, decode_bitmaps};
use crate::buttons::{buttons_spec, decode_buttons};
use crate::cursor::ByteCursor;
use crate::error::DecodeError;
use crate::format::{KPACK_MAGIC, SKIN_MAGIC};
use crate::header::{decode_header, header_spec};
use crate::le::u32_at;
use crate::model::{bitmap_views, BitmapView, Skin, SkinBitmap, SkinButton, SkinParams, SkinView};
use crate::params::{decode_params, params_spec};
use vstd::prelude::*;
use vstd::slice::slice_subrange;

verus! {

/// What the first four bytes of a buffer announce.
#[derive(Debug, Clone, Copy, PartialEq, Eq, Structural)]
pub enum Signature {
    /// A container: the sections follow in this buffer.
    Container,
    /// A compressed envelope: the bytes after the signature inflate to a
    /// container.
    Envelope,
}

/// The skin made of a version, the parameters and the two lists.
pub open spec fn assemble(
    version: u32,
    params: SkinParams,
    buttons: Seq<SkinButton>,
    bitmaps: Seq<BitmapView>,
) -> SkinView {
    SkinView {
        version,
        margin: params.margin,
        active: params.active,
        inactive: params.inactive,
        system_colors: params.system_colors,
        buttons,
        bitmaps,
    }
}

/// What a decoded skin stands for.
pub open spec fn skin_outcome(r: Result<Skin, DecodeError>) -> Result<SkinView, DecodeError> {
    match r {
        Ok(skin) => Ok(skin@),
        Err(e) => Err(e),
    }
}

/// What an inflated payload stands for.
pub open spec fn payload_outcome(inflated: Option<Vec<u8>>) -> Option<Seq<u8>> {
    match inflated {
        Some(bytes) => Some(bytes@),
        None => None,
    }
}

/// The signature of `s`. Fewer than four bytes are `Truncated`; four bytes
/// that are neither signature are `BadMagic`.
pub open spec fn signature_spec(s: Seq<u8>) -> Result<Signature, DecodeError> {
    if s.len() < 4 {
        Err(DecodeError::Truncated)
    } else if u32_at(s, 0) == SKIN_MAGIC {
        Ok(Signature::Container)
    } else if u32_at(s, 0) == KPACK_MAGIC {
        Ok(Signature::Envelope)
    } else {
        Err(DecodeError::BadMagic)
    }
}

/// The bytes of an envelope that are handed to the decompressor: all that
/// follow the signature.
pub open spec fn payload_of(s: Seq<u8>) -> Seq<u8> {
    s.subrange(4, s.len() as int)
}

/// The skin that the container `s` holds: the header, then the parameters,
/// the buttons and the bitmaps, each found through its offset in the
/// header. The first part that fails decides the error.
pub open spec fn container_spec(s: Seq<u8>) -> Result<SkinView, DecodeError> {
    match header_spec(s) {
        Err(e) => Err(e),
        Ok(header) => match params_spec(s, header.params_base) {
            Err(e) => Err(e),
            Ok(params) => match buttons_spec(s, header.buttons_base) {
                Err(e) => Err(e),
                Ok(buttons) => match bitmaps_spec(s, header.bitmaps_base) {
                    Err(e) => Err(e),
                    Ok(bitmaps) => Ok(assemble(header.version, params, buttons, bitmaps)),
                },
            },
        },
    }
}

/// The skin that an envelope holds, given what the decompressor made of its
/// payload: `None` where it failed. The inflated bytes must be a container.
pub open spec fn unpacked_spec(inflated: Option<Seq<u8>>) -> Result<SkinView, DecodeError> {
    match inflated {
        None => Err(DecodeError::DecompressionError),
        Some(container) => container_spec(container),
    }
}

/// The skin that the buffer `s` holds, where `inflated` is what the
/// decompressor makes of the payload of `s`. Only an envelope looks at
/// `inflated`.
pub open spec fn skin_spec(s: Seq<u8>, inflated: Option<Seq<u8>>) -> Result<
    SkinView,
    DecodeError,
> {
    match signature_spec(s) {
        Err(e) => Err(e),
        Ok(Signature::Container) => container_spec(s),
        Ok(Signature::Envelope) => unpacked_spec(inflated),
    }
}

/// Puts the decoded parts together.
pub fn build_skin(
    version: u32,
    params: SkinParams,
    buttons: Vec<SkinButton>,
    bitmaps: Vec<SkinBitmap>,
) -> (skin: Skin)
    ensures
        skin@ == assemble(version, params, buttons@, bitmap_views(bitmaps@)),
{
    Skin {
        version,
        margin: params.margin,
        active: params.active,
        inactive: params.inactive,
        system_colors: params.system_colors,
        buttons,
        bitmaps,
    }
}

/// Reads the signature of `bytes` and leaves everything else unread.
pub fn detect(bytes: &[u8]) -> (r: Result<Signature, DecodeError>)
    ensures
        r == signature_spec(bytes@),
{
    let mut cursor = ByteCursor::new(bytes);
    let magic: u32 = match cursor.read_u32() {
        Ok(v) => v,
        Err(e) => {
            return Err(e);
        },
    };
    if magic == SKIN_MAGIC {
        Ok(Signature::Container)
    } else if magic == KPACK_MAGIC {
        Ok(Signature::Envelope)
    } else {
        Err(DecodeError::BadMagic)
    }
}

/// Decodes an uncompressed container.
pub fn decode_container(bytes: &[u8]) -> (r: Result<Skin, DecodeError>)
    ensures
        skin_outcome(r) == container_spec(bytes@),
        r matches Ok(skin) ==> skin@.well_formed(),
{
    let header = match decode_header(bytes) {
        Ok(h) => h,
        Err(e) => {
            return Err(e);
        },
    };
    let params = match decode_params(bytes, header.params_base) {
        Ok(p) => p,
        Err(e) => {
            return Err(e);
        },
    };
    let buttons = match decode_buttons(bytes, header.buttons_base) {
        Ok(b) => b,
        Err(e) => {
            return Err(e);
        },
    };
    let bitmaps = match decode_bitmaps(bytes, header.bitmaps_base) {
        Ok(b) => b,
        Err(e) => {
            return Err(e);
        },
    };
    Ok(build_skin(header.version, params, buttons, bitmaps))
}

/// Decodes what the decompressor made of an envelope's payload: `None`
/// where it failed.
pub fn decode_unpacked(inflated: Option<Vec<u8>>) -> (r: Result<Skin, DecodeError>)
    ensures
        skin_outcome(r) == unpacked_spec(payload_outcome(inflated)),
        r matches Ok(skin) ==> skin@.well_formed(),
{
    match inflated {
        None => Err(DecodeError::DecompressionError),
        Some(container) => decode_container(container.as_slice()),
    }
}

/// Decodes a skin from the bytes of a file. A container is decoded as it
/// stands. The payload of an envelope is handed to `inflate`, once, and
/// what comes back is decoded as a container.
pub fn decode_skin<F: Fn(&[u8]) -> Option<Vec<u8>>>(bytes: &[u8], inflate: F) -> (r: Result<
    Skin,
    DecodeError,
>)
    requires
        signature_spec(bytes@) == Ok::<Signature, DecodeError>(Signature::Envelope) ==> forall|
            payload: &[u8],
        |
            payload@ == payload_of(bytes@) ==> call_requires(inflate, (payload,)),
    ensures
        signature_spec(bytes@) != Ok::<Signature, DecodeError>(Signature::Envelope)
            ==> skin_outcome(r) == skin_spec(bytes@, None),
        signature_spec(bytes@) == Ok::<Signature, DecodeError>(Signature::Envelope) ==> exists|
            payload: &[u8],
            inflated: Option<Vec<u8>>,
        |
            payload@ == payload_of(bytes@) && call_ensures(inflate, (payload,), inflated)
                && skin_outcome(r) == skin_spec(bytes@, payload_outcome(inflated)),
        r matches Ok(skin) ==> skin@.well_formed(),
{
    match detect(bytes) {
        Err(e) => Err(e),
        Ok(Signature::Container) => decode_container(bytes),
        Ok(Signature::Envelope) => {
            let payload = slice_subrange(bytes, 4, bytes.len());
            let inflated = inflate(payload);
            let ghost made = inflated;
            let r = decode_unpacked(inflated);
            assert(call_ensures(inflate, (payload,), made) && skin_outcome(r) == skin_spec(
                bytes@,
                payload_outcome(made),
            ));
            r
        },
    }
}

/// Unpacking an envelope and decoding what comes out gives what decoding
/// the inner container directly gives, for every inner buffer that is not
/// itself an envelope.
pub proof fn lemma_envelope_round_trip(
    envelope: Seq<u8>,
    container: Seq<u8>,
    ignored: Option<Seq<u8>>,
)
    requires
        signature_spec(envelope) == Ok::<Signature, DecodeError>(Signature::Envelope),
        signature_spec(container) != Ok::<Signature, DecodeError>(Signature::Envelope),
    ensures
        skin_spec(envelope, Some(container)) == skin_spec(container, ignored),
        skin_spec(envelope, Some(container)) == container_spec(container),
{
}

/// A buffer of fewer than four bytes is `Truncated`, whatever it holds.
pub proof fn lemma_short_buffer(s: Seq<u8>, inflated: Option<Seq<u8>>)
    requires
        s.len() < 4,
    ensures
        skin_spec(s, inflated) == Err::<SkinView, DecodeError>(DecodeError::Truncated),
        container_spec(s) == Err::<SkinView, DecodeError>(DecodeError::Truncated),
{
}

} // verus!
