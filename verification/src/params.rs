//! The fixed block of parameters.

use crate::cursor::ByteCursor;
use crate::error::DecodeError;
use crate::format::{PARAMS_LEN, PARAMS_PAD};
use crate::le::{u16_at, u32_at};
use crate::model::{SkinFrameColors, SkinMargin, SkinParams, SkinSystemColors};
use vstd::prelude::*;

verus! {

/// The margin stored at `at` in `s`: right, left, bottom, top.
pub open spec fn margin_at(s: Seq<u8>, at: int) -> SkinMargin {
    SkinMargin {
        right: u16_at(s, at),
        left: u16_at(s, at + 2),
        bottom: u16_at(s, at + 4),
        top: u16_at(s, at + 6),
    }
}

/// The frame colors stored at `at` in `s`: inner, outer, frame.
pub open spec fn frame_colors_at(s: Seq<u8>, at: int) -> SkinFrameColors {
    SkinFrameColors { inner: u32_at(s, at), outer: u32_at(s, at + 4), frame: u32_at(s, at + 8) }
}

/// The ten system colors stored at `at` in `s`, in their fixed order.
pub open spec fn system_colors_at(s: Seq<u8>, at: int) -> SkinSystemColors {
    SkinSystemColors {
        taskbar: u32_at(s, at),
        taskbar_text: u32_at(s, at + 4),
        work_dark: u32_at(s, at + 8),
        work_light: u32_at(s, at + 12),
        window_title: u32_at(s, at + 16),
        work: u32_at(s, at + 20),
        work_button: u32_at(s, at + 24),
        work_button_text: u32_at(s, at + 28),
        work_text: u32_at(s, at + 32),
        work_graph: u32_at(s, at + 36),
    }
}

/// The parameters whose first field is at `at` in `s`: the margin, the
/// active and the inactive frame colors, four bytes that carry nothing, and
/// the system colors.
pub open spec fn params_at(s: Seq<u8>, at: int) -> SkinParams {
    SkinParams {
        margin: margin_at(s, at),
        active: frame_colors_at(s, at + 8),
        inactive: frame_colors_at(s, at + 20),
        system_colors: system_colors_at(s, at + 36),
    }
}

/// The parameters of the section at offset `base` of `s`. The fields start
/// four bytes after `base`. A start past the end of the buffer is
/// `OffsetOutOfRange`; a block that the buffer cuts off is `Truncated`.
pub open spec fn params_spec(s: Seq<u8>, base: u32) -> Result<SkinParams, DecodeError> {
    if base + PARAMS_PAD > s.len() {
        Err(DecodeError::OffsetOutOfRange)
    } else if base + PARAMS_PAD + PARAMS_LEN > s.len() {
        Err(DecodeError::Truncated)
    } else {
        Ok(params_at(s, base + PARAMS_PAD))
    }
}

/// Reads the four edge insets at the cursor.
pub fn read_margin(cursor: &mut ByteCursor) -> (r: Result<SkinMargin, DecodeError>)
    ensures
        final(cursor).bytes() == old(cursor).bytes(),
        old(cursor).left() >= 8 ==> r == Ok::<SkinMargin, DecodeError>(
            margin_at(old(cursor).bytes(), old(cursor).offset()),
        ) && final(cursor).offset() == old(cursor).offset() + 8,
        old(cursor).left() < 8 ==> r == Err::<SkinMargin, DecodeError>(DecodeError::Truncated)
            && final(cursor).offset() == old(cursor).offset(),
{
    if cursor.remaining() < 8 {
        return Err(DecodeError::Truncated);
    }
    let right: u16 = cursor.read_u16()?;
    let left: u16 = cursor.read_u16()?;
    let bottom: u16 = cursor.read_u16()?;
    let top: u16 = cursor.read_u16()?;
    Ok(SkinMargin { right, left, bottom, top })
}

/// Reads the three colors of a frame at the cursor.
pub fn read_frame_colors(cursor: &mut ByteCursor) -> (r: Result<SkinFrameColors, DecodeError>)
    ensures
        final(cursor).bytes() == old(cursor).bytes(),
        old(cursor).left() >= 12 ==> r == Ok::<SkinFrameColors, DecodeError>(
            frame_colors_at(old(cursor).bytes(), old(cursor).offset()),
        ) && final(cursor).offset() == old(cursor).offset() + 12,
        old(cursor).left() < 12 ==> r == Err::<SkinFrameColors, DecodeError>(
            DecodeError::Truncated,
        ) && final(cursor).offset() == old(cursor).offset(),
{
    if cursor.remaining() < 12 {
        return Err(DecodeError::Truncated);
    }
    let inner: u32 = cursor.read_u32()?;
    let outer: u32 = cursor.read_u32()?;
    let frame: u32 = cursor.read_u32()?;
    Ok(SkinFrameColors { inner, outer, frame })
}

/// Reads the ten system colors at the cursor.
pub fn read_system_colors(cursor: &mut ByteCursor) -> (r: Result<SkinSystemColors, DecodeError>)
    ensures
        final(cursor).bytes() == old(cursor).bytes(),
        old(cursor).left() >= 40 ==> r == Ok::<SkinSystemColors, DecodeError>(
            system_colors_at(old(cursor).bytes(), old(cursor).offset()),
        ) && final(cursor).offset() == old(cursor).offset() + 40,
        old(cursor).left() < 40 ==> r == Err::<SkinSystemColors, DecodeError>(
            DecodeError::Truncated,
        ) && final(cursor).offset() == old(cursor).offset(),
{
    if cursor.remaining() < 40 {
        return Err(DecodeError::Truncated);
    }
    let taskbar: u32 = cursor.read_u32()?;
    let taskbar_text: u32 = cursor.read_u32()?;
    let work_dark: u32 = cursor.read_u32()?;
    let work_light: u32 = cursor.read_u32()?;
    let window_title: u32 = cursor.read_u32()?;
    let work: u32 = cursor.read_u32()?;
    let work_button: u32 = cursor.read_u32()?;
    let work_button_text: u32 = cursor.read_u32()?;
    let work_text: u32 = cursor.read_u32()?;
    let work_graph: u32 = cursor.read_u32()?;
    Ok(
        SkinSystemColors {
            taskbar,
            taskbar_text,
            work_dark,
            work_light,
            window_title,
            work,
            work_button,
            work_button_text,
            work_text,
            work_graph,
        },
    )
}

/// Decodes the parameter block of the section at offset `base`. Either the
/// whole block is returned or none of it.
pub fn decode_params(bytes: &[u8], base: u32) -> (r: Result<SkinParams, DecodeError>)
    ensures
        r == params_spec(bytes@, base),
{
    if bytes.len() < PARAMS_PAD || base as usize > bytes.len() - PARAMS_PAD {
        return Err(DecodeError::OffsetOutOfRange);
    }
    let start = ByteCursor::new(bytes);
    let mut cursor = start.slice_from(base as usize + PARAMS_PAD)?;
    if cursor.remaining() < PARAMS_LEN {
        return Err(DecodeError::Truncated);
    }
    let margin = read_margin(&mut cursor)?;
    let active = read_frame_colors(&mut cursor)?;
    let inactive = read_frame_colors(&mut cursor)?;
    let _reserved: u32 = cursor.read_u32()?;
    let system_colors = read_system_colors(&mut cursor)?;
    Ok(SkinParams { margin, active, inactive, system_colors })
}

} // verus!
