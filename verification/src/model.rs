//! The decoded skin and its parts.

use crate::format::MAX_ENTRIES;
use vstd::prelude::*;

verus! {

/// Edge insets of a window frame, in on-disk order.
#[derive(Debug, Clone, Copy, PartialEq, Eq, Structural)]
pub struct SkinMargin {
    pub right: u16,
    pub left: u16,
    pub bottom: u16,
    pub top: u16,
}

/// The three packed colors of a window frame.
#[derive(Debug, Clone, Copy, PartialEq, Eq, Structural)]
pub struct SkinFrameColors {
    pub inner: u32,
    pub outer: u32,
    pub frame: u32,
}

/// The ten system colors, in on-disk order.
#[derive(Debug, Clone, Copy, PartialEq, Eq, Structural)]
pub struct SkinSystemColors {
    pub taskbar: u32,
    pub taskbar_text: u32,
    pub work_dark: u32,
    pub work_light: u32,
    pub window_title: u32,
    pub work: u32,
    pub work_button: u32,
    pub work_button_text: u32,
    pub work_text: u32,
    pub work_graph: u32,
}

/// The fixed block of parameters: margins, frame colors and system colors.
#[derive(Debug, Clone, Copy, PartialEq, Eq, Structural)]
pub struct SkinParams {
    pub margin: SkinMargin,
    pub active: SkinFrameColors,
    pub inactive: SkinFrameColors,
    pub system_colors: SkinSystemColors,
}

/// A clickable region of the title bar. Its type tag is never zero: zero
/// marks the end of the list.
#[derive(Debug, Clone, Copy, PartialEq, Eq, Structural)]
pub struct SkinButton {
    pub btntype: u32,
    pub left: u16,
    pub top: u16,
    pub width: u16,
    pub height: u16,
}

/// An image of the skin, as `width * height` pixels of four bytes each:
/// red, green, blue and an alpha that is always 255.
#[derive(Debug, Clone, PartialEq, Eq)]
pub struct SkinBitmap {
    pub kind: u16,
    pub bmptype: u16,
    pub width: u32,
    pub height: u32,
    pub data: Vec<u8>,
}

/// What a `SkinBitmap` holds, as a mathematical value.
pub ghost struct BitmapView {
    pub kind: u16,
    pub bmptype: u16,
    pub width: u32,
    pub height: u32,
    pub data: Seq<u8>,
}

impl View for SkinBitmap {
    type V = BitmapView;

    open spec fn view(&self) -> BitmapView {
        BitmapView {
            kind: self.kind,
            bmptype: self.bmptype,
            width: self.width,
            height: self.height,
            data: self.data@,
        }
    }
}

impl BitmapView {
    /// The pixel buffer has four bytes for each of `width * height` pixels.
    pub open spec fn well_sized(self) -> bool {
        self.data.len() == self.width * self.height * 4
    }

    /// Every pixel is fully opaque: each fourth byte is 255.
    pub open spec fn opaque(self) -> bool {
        forall|i: int| 0 <= i < self.data.len() && i % 4 == 3 ==> #[trigger] self.data[i] == 255
    }

    /// The bitmap is one that a directory can list: its kind and variant
    /// are not both zero, which would end the directory, its pixel buffer
    /// has the size that its dimensions give, and its pixels are opaque.
    pub open spec fn listable(self) -> bool {
        &&& !(self.kind == 0 && self.bmptype == 0)
        &&& self.well_sized()
        &&& self.opaque()
    }
}

/// No button of the list has the zero type tag, which would end the list,
/// and the list is within the entry limit.
pub open spec fn buttons_well_formed(buttons: Seq<SkinButton>) -> bool {
    &&& buttons.len() <= MAX_ENTRIES
    &&& forall|i: int| 0 <= i < buttons.len() ==> (#[trigger] buttons[i]).btntype != 0
}

/// Every bitmap of the list is listable, and the list is within the entry
/// limit.
pub open spec fn bitmaps_well_formed(bitmaps: Seq<BitmapView>) -> bool {
    &&& bitmaps.len() <= MAX_ENTRIES
    &&& forall|i: int| 0 <= i < bitmaps.len() ==> (#[trigger] bitmaps[i]).listable()
}

/// A decoded skin.
#[derive(Debug, Clone, PartialEq, Eq)]
pub struct Skin {
    pub version: u32,
    pub margin: SkinMargin,
    pub active: SkinFrameColors,
    pub inactive: SkinFrameColors,
    pub system_colors: SkinSystemColors,
    pub buttons: Vec<SkinButton>,
    pub bitmaps: Vec<SkinBitmap>,
}

/// What a `Skin` holds, as a mathematical value.
pub ghost struct SkinView {
    pub version: u32,
    pub margin: SkinMargin,
    pub active: SkinFrameColors,
    pub inactive: SkinFrameColors,
    pub system_colors: SkinSystemColors,
    pub buttons: Seq<SkinButton>,
    pub bitmaps: Seq<BitmapView>,
}

impl SkinView {
    /// What holds of every decoded skin: its lists are well formed.
    pub open spec fn well_formed(self) -> bool {
        &&& buttons_well_formed(self.buttons)
        &&& bitmaps_well_formed(self.bitmaps)
    }
}

/// The views of a list of bitmaps, in order.
pub open spec fn bitmap_views(bitmaps: Seq<SkinBitmap>) -> Seq<BitmapView> {
    Seq::new(bitmaps.len(), |i: int| bitmaps[i]@)
}

impl View for Skin {
    type V = SkinView;

    open spec fn view(&self) -> SkinView {
        SkinView {
            version: self.version,
            margin: self.margin,
            active: self.active,
            inactive: self.inactive,
            system_colors: self.system_colors,
            buttons: self.buttons@,
            bitmaps: bitmap_views(self.bitmaps@),
        }
    }
}

} // verus!
