//! The bitmap directory and the pixel blocks it points to.

use crate::cursor::ByteCursor;
use crate::error::{after, DecodeError};
use crate::format::MAX_ENTRIES;
use crate::le::{u16_at, u32_at};
use crate::model::{bitmap_views, bitmaps_well_formed, BitmapView, SkinBitmap};
use crate::pixels::{expand_bgr, expand_pixels};
use vstd::prelude::*;

verus! {

/// The bitmap of kind `kind` and variant `bmptype` whose pixel block starts
/// at `at` in `s`: a width, a height, and `width * height` color triples.
///
/// The block must lie in the buffer. A start past the end, or a declared
/// size that the bytes after the two dimensions cannot hold, is
/// `OffsetOutOfRange`; a start so late that the dimensions themselves are
/// cut off is `Truncated`.
pub open spec fn bitmap_at(s: Seq<u8>, kind: u16, bmptype: u16, at: int) -> Result<
    BitmapView,
    DecodeError,
> {
    if at > s.len() {
        Err(DecodeError::OffsetOutOfRange)
    } else if at + 8 > s.len() {
        Err(DecodeError::Truncated)
    } else {
        let width = u32_at(s, at);
        let height = u32_at(s, at + 4);
        if width * height * 3 > s.len() - (at + 8) {
            Err(DecodeError::OffsetOutOfRange)
        } else {
            Ok(
                BitmapView {
                    kind,
                    bmptype,
                    width,
                    height,
                    data: expand_bgr(s.subrange(at + 8, at + 8 + width * height * 3)),
                },
            )
        }
    }
}

/// The directory entry at `at` ends the list: both of its leading fields
/// are zero.
pub open spec fn is_directory_end(s: Seq<u8>, at: int) -> bool {
    u16_at(s, at) == 0 && u16_at(s, at + 2) == 0
}

/// The bitmap that the directory entry at `at` announces: its kind, its
/// variant, and the pixel block at the offset it gives.
pub open spec fn entry_bitmap(s: Seq<u8>, at: int) -> Result<BitmapView, DecodeError> {
    bitmap_at(s, u16_at(s, at), u16_at(s, at + 2), u32_at(s, at + 4) as int)
}

/// The bitmaps of the directory that starts at `at`, where at most `budget`
/// entries may come before the terminator.
///
/// An entry is a kind, a variant and the offset of a pixel block. Where
/// fewer than four bytes are left at the start of an entry, or the budget
/// is used up before the terminator, the list is unterminated; an entry
/// that is cut off after its first four bytes is `Truncated`; an entry whose
/// pixel block cannot be decoded fails as `bitmap_at` says.
pub open spec fn bitmaps_from(s: Seq<u8>, at: int, budget: nat) -> Result<
    Seq<BitmapView>,
    DecodeError,
>
    decreases budget,
{
    if at + 4 > s.len() {
        Err(DecodeError::UnterminatedList)
    } else if is_directory_end(s, at) {
        Ok(Seq::empty())
    } else if budget == 0 {
        Err(DecodeError::UnterminatedList)
    } else if at + 8 > s.len() {
        Err(DecodeError::Truncated)
    } else {
        match entry_bitmap(s, at) {
            Err(e) => Err(e),
            Ok(first) => match bitmaps_from(s, at + 8, (budget - 1) as nat) {
                Err(e) => Err(e),
                Ok(rest) => Ok(seq![first] + rest),
            },
        }
    }
}

/// The bitmaps of the directory at offset `base` of `s`.
pub open spec fn bitmaps_spec(s: Seq<u8>, base: u32) -> Result<Seq<BitmapView>, DecodeError> {
    if base > s.len() {
        Err(DecodeError::OffsetOutOfRange)
    } else {
        bitmaps_from(s, base as int, MAX_ENTRIES as nat)
    }
}

/// What a decoded bitmap stands for.
pub open spec fn bitmap_outcome(r: Result<SkinBitmap, DecodeError>) -> Result<
    BitmapView,
    DecodeError,
> {
    match r {
        Ok(bitmap) => Ok(bitmap@),
        Err(e) => Err(e),
    }
}

/// What a decoded directory stands for.
pub open spec fn bitmaps_outcome(r: Result<Vec<SkinBitmap>, DecodeError>) -> Result<
    Seq<BitmapView>,
    DecodeError,
> {
    match r {
        Ok(bitmaps) => Ok(bitmap_views(bitmaps@)),
        Err(e) => Err(e),
    }
}

/// Every bitmap that `bitmap_at` yields has four bytes for each pixel, the
/// fourth of them 255, and the kind, the variant and the dimensions that
/// were asked for and read.
pub proof fn lemma_bitmap_well_sized(s: Seq<u8>, kind: u16, bmptype: u16, at: int)
    requires
        0 <= at,
        bitmap_at(s, kind, bmptype, at) is Ok,
    ensures
        bitmap_at(s, kind, bmptype, at)->Ok_0.well_sized(),
        bitmap_at(s, kind, bmptype, at)->Ok_0.opaque(),
        bitmap_at(s, kind, bmptype, at)->Ok_0.kind == kind,
        bitmap_at(s, kind, bmptype, at)->Ok_0.bmptype == bmptype,
        bitmap_at(s, kind, bmptype, at)->Ok_0.width == u32_at(s, at),
        bitmap_at(s, kind, bmptype, at)->Ok_0.height == u32_at(s, at + 4),
{
    let width = u32_at(s, at);
    let height = u32_at(s, at + 4);
    let n = width * height * 3;
    assert(0 <= width * height) by (nonlinear_arith)
        requires
            0 <= width,
            0 <= height,
    ;
    assert(s.subrange(at + 8, at + 8 + n).len() == n);
    assert(n / 3 == width * height);
}

/// Decodes the pixel block at `offset` into a bitmap of the given kind and
/// variant. The declared size is checked against the buffer before any
/// pixel is read.
pub fn decode_bitmap(bytes: &[u8], kind: u16, bmptype: u16, offset: u32) -> (r: Result<
    SkinBitmap,
    DecodeError,
>)
    ensures
        bitmap_outcome(r) == bitmap_at(bytes@, kind, bmptype, offset as int),
        r matches Ok(bitmap) ==> bitmap@.well_sized() && bitmap@.opaque(),
{
    let start = ByteCursor::new(bytes);
    let mut cursor = match start.slice_from(offset as usize) {
        Ok(c) => c,
        Err(e) => {
            return Err(e);
        },
    };
    let width: u32 = match cursor.read_u32() {
        Ok(v) => v,
        Err(e) => {
            return Err(e);
        },
    };
    let height: u32 = match cursor.read_u32() {
        Ok(v) => v,
        Err(e) => {
            return Err(e);
        },
    };
    assert(0 <= width * height <= 0xFFFF_FFFF * 0xFFFF_FFFF) by (nonlinear_arith)
        requires
            0 <= width <= 0xFFFF_FFFF,
            0 <= height <= 0xFFFF_FFFF,
    ;
    let area: u64 = (width as u64) * (height as u64);
    let left: usize = cursor.remaining();
    if area > (left / 3) as u64 {
        return Err(DecodeError::OffsetOutOfRange);
    }
    let size: usize = (area * 3) as usize;
    let triples = match cursor.read_bytes(size) {
        Ok(t) => t,
        Err(e) => {
            return Err(e);
        },
    };
    let data = expand_pixels(triples);
    proof {
        lemma_bitmap_well_sized(bytes@, kind, bmptype, offset as int);
    }
    Ok(SkinBitmap { kind, bmptype, width, height, data })
}

/// Decodes the bitmap directory at offset `base`, with the pixel block of
/// each entry, in on-disk order.
pub fn decode_bitmaps(bytes: &[u8], base: u32) -> (r: Result<Vec<SkinBitmap>, DecodeError>)
    ensures
        bitmaps_outcome(r) == bitmaps_spec(bytes@, base),
        r matches Ok(bitmaps) ==> bitmaps_well_formed(bitmap_views(bitmaps@)),
{
    let start = ByteCursor::new(bytes);
    let mut cursor = match start.slice_from(base as usize) {
        Ok(c) => c,
        Err(e) => {
            return Err(e);
        },
    };
    let mut bitmaps: Vec<SkinBitmap> = Vec::new();
    assert(after(bitmap_views(bitmaps@), bitmaps_from(bytes@, base as int, MAX_ENTRIES as nat))
        == bitmaps_from(bytes@, base as int, MAX_ENTRIES as nat)) by {
        let tail = bitmaps_from(bytes@, base as int, MAX_ENTRIES as nat);
        if let Ok(rest) = tail {
            assert(bitmap_views(bitmaps@) + rest =~= rest);
        }
    }
    loop
        invariant
            cursor.bytes() == bytes@,
            0 <= cursor.offset() <= bytes@.len(),
            bitmaps_well_formed(bitmap_views(bitmaps@)),
            bitmaps_spec(bytes@, base) == after(
                bitmap_views(bitmaps@),
                bitmaps_from(bytes@, cursor.offset(), (MAX_ENTRIES - bitmaps@.len()) as nat),
            ),
        decreases MAX_ENTRIES - bitmaps@.len(),
    {
        if cursor.remaining() < 4 {
            return Err(DecodeError::UnterminatedList);
        }
        let ghost at = cursor.offset();
        let kind: u16 = match cursor.read_u16() {
            Ok(v) => v,
            Err(e) => {
                return Err(e);
            },
        };
        let bmptype: u16 = match cursor.read_u16() {
            Ok(v) => v,
            Err(e) => {
                return Err(e);
            },
        };
        if kind == 0 && bmptype == 0 {
            assert(bitmap_views(bitmaps@) + Seq::<BitmapView>::empty() =~= bitmap_views(
                bitmaps@,
            ));
            return Ok(bitmaps);
        }
        if bitmaps.len() >= MAX_ENTRIES {
            return Err(DecodeError::UnterminatedList);
        }
        let offset: u32 = match cursor.read_u32() {
            Ok(v) => v,
            Err(e) => {
                return Err(e);
            },
        };
        let bitmap = match decode_bitmap(bytes, kind, bmptype, offset) {
            Ok(b) => b,
            Err(e) => {
                return Err(e);
            },
        };
        proof {
            let before = bitmap_views(bitmaps@);
            let grown = bitmap_views(bitmaps@.push(bitmap));
            assert(grown =~= before.push(bitmap@));
            let tail = bitmaps_from(
                bytes@,
                at + 8,
                (MAX_ENTRIES - bitmaps@.len() - 1) as nat,
            );
            if let Ok(rest) = tail {
                assert(before + (seq![bitmap@] + rest) =~= grown + rest);
            }
        }
        bitmaps.push(bitmap);
    }
}

} // verus!
