//! The list of button regions.

use crate::cursor::ByteCursor;
use crate::error::{after, DecodeError};
use crate::format::MAX_ENTRIES;
use crate::le::{u16_at, u32_at};
use crate::model::{buttons_well_formed, SkinButton};
use vstd::prelude::*;

verus! {

/// The button whose record starts at `at` in `s`: a type tag, then left,
/// top, width and height.
pub open spec fn button_at(s: Seq<u8>, at: int) -> SkinButton {
    SkinButton {
        btntype: u32_at(s, at),
        left: u16_at(s, at + 4),
        top: u16_at(s, at + 6),
        width: u16_at(s, at + 8),
        height: u16_at(s, at + 10),
    }
}

/// The buttons of the list that starts at `at`, where at most `budget`
/// records may come before the terminator.
///
/// A record with a zero type tag ends the list and is not part of it. Where
/// fewer than four bytes are left at the start of a record, or the budget is
/// used up before the terminator, the list is unterminated; a record that
/// is cut off after its tag is `Truncated`.
pub open spec fn buttons_from(s: Seq<u8>, at: int, budget: nat) -> Result<
    Seq<SkinButton>,
    DecodeError,
>
    decreases budget,
{
    if at + 4 > s.len() {
        Err(DecodeError::UnterminatedList)
    } else if u32_at(s, at) == 0 {
        Ok(Seq::empty())
    } else if budget == 0 {
        Err(DecodeError::UnterminatedList)
    } else if at + 12 > s.len() {
        Err(DecodeError::Truncated)
    } else {
        match buttons_from(s, at + 12, (budget - 1) as nat) {
            Err(e) => Err(e),
            Ok(rest) => Ok(seq![button_at(s, at)] + rest),
        }
    }
}

/// The buttons of the list at offset `base` of `s`.
pub open spec fn buttons_spec(s: Seq<u8>, base: u32) -> Result<Seq<SkinButton>, DecodeError> {
    if base > s.len() {
        Err(DecodeError::OffsetOutOfRange)
    } else {
        buttons_from(s, base as int, MAX_ENTRIES as nat)
    }
}

/// What a decoded list of buttons stands for.
pub open spec fn buttons_outcome(r: Result<Vec<SkinButton>, DecodeError>) -> Result<
    Seq<SkinButton>,
    DecodeError,
> {
    match r {
        Ok(buttons) => Ok(buttons@),
        Err(e) => Err(e),
    }
}

/// Decodes the button list at offset `base`, in on-disk order.
pub fn decode_buttons(bytes: &[u8], base: u32) -> (r: Result<Vec<SkinButton>, DecodeError>)
    ensures
        buttons_outcome(r) == buttons_spec(bytes@, base),
        r matches Ok(buttons) ==> buttons_well_formed(buttons@),
{
    let start = ByteCursor::new(bytes);
    let mut cursor = match start.slice_from(base as usize) {
        Ok(c) => c,
        Err(e) => {
            return Err(e);
        },
    };
    let mut buttons: Vec<SkinButton> = Vec::new();
    assert(after(buttons@, buttons_from(bytes@, base as int, MAX_ENTRIES as nat)) == buttons_from(
        bytes@,
        base as int,
        MAX_ENTRIES as nat,
    )) by {
        let tail = buttons_from(bytes@, base as int, MAX_ENTRIES as nat);
        if let Ok(rest) = tail {
            assert(buttons@ + rest =~= rest);
        }
    }
    loop
        invariant
            cursor.bytes() == bytes@,
            0 <= cursor.offset() <= bytes@.len(),
            buttons_well_formed(buttons@),
            buttons_spec(bytes@, base) == after(
                buttons@,
                buttons_from(bytes@, cursor.offset(), (MAX_ENTRIES - buttons@.len()) as nat),
            ),
        decreases MAX_ENTRIES - buttons@.len(),
    {
        if cursor.remaining() < 4 {
            return Err(DecodeError::UnterminatedList);
        }
        let ghost at = cursor.offset();
        let btntype: u32 = cursor.read_u32()?;
        if btntype == 0 {
            assert(buttons@ + Seq::<SkinButton>::empty() =~= buttons@);
            return Ok(buttons);
        }
        if buttons.len() >= MAX_ENTRIES {
            return Err(DecodeError::UnterminatedList);
        }
        if cursor.remaining() < 8 {
            return Err(DecodeError::Truncated);
        }
        let left: u16 = cursor.read_u16()?;
        let top: u16 = cursor.read_u16()?;
        let width: u16 = cursor.read_u16()?;
        let height: u16 = cursor.read_u16()?;
        let button = SkinButton { btntype, left, top, width, height };
        proof {
            assert(button == button_at(bytes@, at));
            let tail = buttons_from(bytes@, at + 12, (MAX_ENTRIES - buttons@.len() - 1) as nat);
            if let Ok(rest) = tail {
                assert(buttons@ + (seq![button] + rest) =~= buttons@.push(button) + rest);
            }
        }
        buttons.push(button);
    }
}

} // verus!
