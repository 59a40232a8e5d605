//! The bytes that stand for each part of a skin, and that a buffer which
//! has those bytes in place holds that part.

use crate::bitmaps::is_directory_end;
use crate::buttons::button_at;
use crate::decode::container_spec;
use crate::error::DecodeError;
use crate::format::SKIN_MAGIC;
use crate::header::SkinHeader;
use crate::layout::{
    holds_bitmap, holds_bitmaps, holds_buttons, holds_entry, holds_skin, lemma_decode_reproduces,
    params_of, pixel_matches,
};
use crate::le::{
    lemma_u16_at_of_bytes, lemma_u32_at_of_bytes, u16_at, u16_bytes, u32_at, u32_bytes,
};
use crate::model::{
    BitmapView, SkinButton, SkinFrameColors, SkinMargin, SkinParams, SkinSystemColors, SkinView,
};
use crate::params::{frame_colors_at, margin_at, params_at, system_colors_at};
use vstd::prelude::*;

verus! {

/// The bytes of `piece` stand in `s` from `at` on.
#[verifier::opaque]
pub open spec fn placed(s: Seq<u8>, at: int, piece: Seq<u8>) -> bool {
    &&& 0 <= at
    &&& at + piece.len() <= s.len()
    &&& s.subrange(at, at + piece.len()) == piece
}

/// Where two pieces stand one after the other, each of them stands in its
/// place.
pub proof fn lemma_placed_split(s: Seq<u8>, at: int, first: Seq<u8>, second: Seq<u8>)
    requires
        placed(s, at, first + second),
    ensures
        placed(s, at, first),
        placed(s, at + first.len(), second),
{
    reveal(placed);
    let whole = first + second;
    assert forall|i: int| 0 <= i < first.len() implies s[at + i] == first[i] by {
        assert(s.subrange(at, at + whole.len())[i] == whole[i]);
    }
    assert forall|i: int| 0 <= i < second.len() implies s[at + first.len() + i] == second[i] by {
        assert(s.subrange(at, at + whole.len())[first.len() + i] == whole[first.len() + i]);
    }
    assert(s.subrange(at, at + first.len()) =~= first);
    assert(s.subrange(at + first.len(), at + first.len() + second.len()) =~= second);
}

/// A piece that stands in a buffer lies within it.
pub proof fn lemma_placed_bounds(s: Seq<u8>, at: int, piece: Seq<u8>)
    requires
        placed(s, at, piece),
    ensures
        0 <= at,
        at + piece.len() <= s.len(),
        forall|i: int| 0 <= i < piece.len() ==> s[at + i] == #[trigger] piece[i],
{
    reveal(placed);
    assert forall|i: int| 0 <= i < piece.len() implies s[at + i] == #[trigger] piece[i] by {
        assert(s.subrange(at, at + piece.len())[i] == piece[i]);
    }
}

/// A piece between two others stands right after the first.
pub proof fn lemma_placed_between(before: Seq<u8>, piece: Seq<u8>, behind: Seq<u8>)
    ensures
        placed(before + piece + behind, before.len() as int, piece),
{
    reveal(placed);
    let s = before + piece + behind;
    assert(s.subrange(before.len() as int, (before.len() + piece.len()) as int) =~= piece);
}

/// A 16-bit value whose bytes stand at `at` is read from there.
pub proof fn lemma_placed_u16(s: Seq<u8>, at: int, x: u16)
    requires
        placed(s, at, u16_bytes(x)),
    ensures
        u16_at(s, at) == x,
{
    reveal(placed);
    lemma_u16_at_of_bytes(s, at, x);
}

/// A 32-bit value whose bytes stand at `at` is read from there.
pub proof fn lemma_placed_u32(s: Seq<u8>, at: int, x: u32)
    requires
        placed(s, at, u32_bytes(x)),
    ensures
        u32_at(s, at) == x,
{
    reveal(placed);
    lemma_u32_at_of_bytes(s, at, x);
}

/// The eight bytes of a margin: right, left, bottom, top.
pub open spec fn margin_bytes(m: SkinMargin) -> Seq<u8> {
    u16_bytes(m.right) + u16_bytes(m.left) + u16_bytes(m.bottom) + u16_bytes(m.top)
}

/// The twelve bytes of a frame's colors: inner, outer, frame.
pub open spec fn frame_colors_bytes(c: SkinFrameColors) -> Seq<u8> {
    u32_bytes(c.inner) + u32_bytes(c.outer) + u32_bytes(c.frame)
}

/// The forty bytes of the system colors, in their fixed order.
pub open spec fn system_colors_bytes(c: SkinSystemColors) -> Seq<u8> {
    u32_bytes(c.taskbar) + u32_bytes(c.taskbar_text) + u32_bytes(c.work_dark) + u32_bytes(
        c.work_light,
    ) + u32_bytes(c.window_title) + u32_bytes(c.work) + u32_bytes(c.work_button) + u32_bytes(
        c.work_button_text,
    ) + u32_bytes(c.work_text) + u32_bytes(c.work_graph)
}

/// The bytes of the parameter block, with `reserved` in the field that
/// carries nothing.
pub open spec fn params_bytes(p: SkinParams, reserved: u32) -> Seq<u8> {
    margin_bytes(p.margin) + frame_colors_bytes(p.active) + frame_colors_bytes(p.inactive)
        + u32_bytes(reserved) + system_colors_bytes(p.system_colors)
}

/// The twelve bytes of a button record.
pub open spec fn button_bytes(b: SkinButton) -> Seq<u8> {
    u32_bytes(b.btntype) + u16_bytes(b.left) + u16_bytes(b.top) + u16_bytes(b.width) + u16_bytes(
        b.height,
    )
}

/// A margin whose bytes stand at `at` is read from there.
pub proof fn lemma_placed_margin(s: Seq<u8>, at: int, m: SkinMargin)
    requires
        placed(s, at, margin_bytes(m)),
    ensures
        margin_bytes(m).len() == 8,
        margin_at(s, at) == m,
{
    let a = u16_bytes(m.right);
    let b = u16_bytes(m.left);
    let c = u16_bytes(m.bottom);
    let d = u16_bytes(m.top);
    lemma_placed_split(s, at, a + b + c, d);
    lemma_placed_split(s, at, a + b, c);
    lemma_placed_split(s, at, a, b);
    lemma_placed_u16(s, at, m.right);
    lemma_placed_u16(s, at + 2, m.left);
    lemma_placed_u16(s, at + 4, m.bottom);
    lemma_placed_u16(s, at + 6, m.top);
}

/// Frame colors whose bytes stand at `at` are read from there.
pub proof fn lemma_placed_frame_colors(s: Seq<u8>, at: int, c: SkinFrameColors)
    requires
        placed(s, at, frame_colors_bytes(c)),
    ensures
        frame_colors_bytes(c).len() == 12,
        frame_colors_at(s, at) == c,
{
    let a = u32_bytes(c.inner);
    let b = u32_bytes(c.outer);
    let d = u32_bytes(c.frame);
    lemma_placed_split(s, at, a + b, d);
    lemma_placed_split(s, at, a, b);
    lemma_placed_u32(s, at, c.inner);
    lemma_placed_u32(s, at + 4, c.outer);
    lemma_placed_u32(s, at + 8, c.frame);
}

/// System colors whose bytes stand at `at` are read from there, each from
/// its own slot.
pub proof fn lemma_placed_system_colors(s: Seq<u8>, at: int, c: SkinSystemColors)
    requires
        placed(s, at, system_colors_bytes(c)),
    ensures
        system_colors_bytes(c).len() == 40,
        system_colors_at(s, at) == c,
{
    let b0 = u32_bytes(c.taskbar);
    let b1 = u32_bytes(c.taskbar_text);
    let b2 = u32_bytes(c.work_dark);
    let b3 = u32_bytes(c.work_light);
    let b4 = u32_bytes(c.window_title);
    let b5 = u32_bytes(c.work);
    let b6 = u32_bytes(c.work_button);
    let b7 = u32_bytes(c.work_button_text);
    let b8 = u32_bytes(c.work_text);
    let b9 = u32_bytes(c.work_graph);
    lemma_placed_split(s, at, b0 + b1 + b2 + b3 + b4 + b5 + b6 + b7 + b8, b9);
    lemma_placed_split(s, at, b0 + b1 + b2 + b3 + b4 + b5 + b6 + b7, b8);
    lemma_placed_split(s, at, b0 + b1 + b2 + b3 + b4 + b5 + b6, b7);
    lemma_placed_split(s, at, b0 + b1 + b2 + b3 + b4 + b5, b6);
    lemma_placed_split(s, at, b0 + b1 + b2 + b3 + b4, b5);
    lemma_placed_split(s, at, b0 + b1 + b2 + b3, b4);
    lemma_placed_split(s, at, b0 + b1 + b2, b3);
    lemma_placed_split(s, at, b0 + b1, b2);
    lemma_placed_split(s, at, b0, b1);
    lemma_placed_u32(s, at, c.taskbar);
    lemma_placed_u32(s, at + 4, c.taskbar_text);
    lemma_placed_u32(s, at + 8, c.work_dark);
    lemma_placed_u32(s, at + 12, c.work_light);
    lemma_placed_u32(s, at + 16, c.window_title);
    lemma_placed_u32(s, at + 20, c.work);
    lemma_placed_u32(s, at + 24, c.work_button);
    lemma_placed_u32(s, at + 28, c.work_button_text);
    lemma_placed_u32(s, at + 32, c.work_text);
    lemma_placed_u32(s, at + 36, c.work_graph);
}

/// A parameter block whose bytes stand at `at` is read from there, whatever
/// the reserved field holds.
pub proof fn lemma_placed_params(s: Seq<u8>, at: int, p: SkinParams, reserved: u32)
    requires
        placed(s, at, params_bytes(p, reserved)),
    ensures
        params_bytes(p, reserved).len() == 76,
        params_at(s, at) == p,
{
    let m = margin_bytes(p.margin);
    let a = frame_colors_bytes(p.active);
    let i = frame_colors_bytes(p.inactive);
    let r = u32_bytes(reserved);
    let c = system_colors_bytes(p.system_colors);
    lemma_placed_split(s, at, m + a + i + r, c);
    lemma_placed_split(s, at, m + a + i, r);
    lemma_placed_split(s, at, m + a, i);
    lemma_placed_split(s, at, m, a);
    lemma_placed_margin(s, at, p.margin);
    lemma_placed_frame_colors(s, at + 8, p.active);
    lemma_placed_frame_colors(s, at + 20, p.inactive);
    lemma_placed_system_colors(s, at + 36, p.system_colors);
}

/// A button whose bytes stand at `at` is read from there.
pub proof fn lemma_placed_button(s: Seq<u8>, at: int, b: SkinButton)
    requires
        placed(s, at, button_bytes(b)),
    ensures
        button_bytes(b).len() == 12,
        button_at(s, at) == b,
{
    let t = u32_bytes(b.btntype);
    let l = u16_bytes(b.left);
    let o = u16_bytes(b.top);
    let w = u16_bytes(b.width);
    let h = u16_bytes(b.height);
    lemma_placed_split(s, at, t + l + o + w, h);
    lemma_placed_split(s, at, t + l + o, w);
    lemma_placed_split(s, at, t + l, o);
    lemma_placed_split(s, at, t, l);
    lemma_placed_u32(s, at, b.btntype);
    lemma_placed_u16(s, at + 4, b.left);
    lemma_placed_u16(s, at + 6, b.top);
    lemma_placed_u16(s, at + 8, b.width);
    lemma_placed_u16(s, at + 10, b.height);
}

/// The bytes of a button list: the records, then a zero type tag.
pub open spec fn button_list_bytes(buttons: Seq<SkinButton>) -> Seq<u8>
    decreases buttons.len(),
{
    if buttons.len() == 0 {
        u32_bytes(0)
    } else {
        button_bytes(buttons[0]) + button_list_bytes(buttons.skip(1))
    }
}

/// A button list takes twelve bytes for each button and four for the
/// terminator.
pub proof fn lemma_button_list_len(buttons: Seq<SkinButton>)
    ensures
        button_list_bytes(buttons).len() == 12 * buttons.len() + 4,
    decreases buttons.len(),
{
    if buttons.len() > 0 {
        lemma_button_list_len(buttons.skip(1));
    }
}

/// A buffer in which the bytes of a button list stand at `at` holds that
/// list there, if no button of it has a zero type tag.
pub proof fn lemma_placed_button_list(s: Seq<u8>, at: int, buttons: Seq<SkinButton>)
    requires
        placed(s, at, button_list_bytes(buttons)),
        forall|i: int| 0 <= i < buttons.len() ==> (#[trigger] buttons[i]).btntype != 0,
    ensures
        holds_buttons(s, at, buttons),
    decreases buttons.len(),
{
    lemma_placed_bounds(s, at, button_list_bytes(buttons));
    lemma_button_list_len(buttons);
    if buttons.len() == 0 {
        lemma_placed_u32(s, at, 0);
    } else {
        let rest = buttons.skip(1);
        lemma_placed_split(s, at, button_bytes(buttons[0]), button_list_bytes(rest));
        lemma_placed_button(s, at, buttons[0]);
        assert forall|i: int| 0 <= i < rest.len() implies (#[trigger] rest[i]).btntype != 0 by {
            assert(rest[i] == buttons[i + 1]);
        }
        lemma_placed_button_list(s, at + 12, rest);
        assert forall|i: int| 0 <= i < buttons.len() implies (#[trigger] buttons[i]) == button_at(
            s,
            at + 12 * i,
        ) && buttons[i].btntype != 0 by {
            if i > 0 {
                assert(buttons[i] == rest[i - 1]);
                assert(rest[i - 1] == button_at(s, at + 12 + 12 * (i - 1)));
            }
        }
    }
}

/// The stored triples of a pixel buffer: for each pixel its blue, green
/// and red byte, in that order.
pub open spec fn triples_of(data: Seq<u8>) -> Seq<u8> {
    Seq::new((data.len() / 4 * 3) as nat, |i: int| data[i / 3 * 4 + (2 - i % 3)])
}

/// The bytes of a pixel block: the width, the height and the triples.
pub open spec fn block_bytes(bitmap: BitmapView) -> Seq<u8> {
    u32_bytes(bitmap.width) + u32_bytes(bitmap.height) + triples_of(bitmap.data)
}

/// A pixel block takes eight bytes and three for each pixel.
pub proof fn lemma_block_len(bitmap: BitmapView)
    requires
        bitmap.well_sized(),
    ensures
        block_bytes(bitmap).len() == 8 + 3 * (bitmap.width * bitmap.height),
        0 <= bitmap.width * bitmap.height,
{
    let count = bitmap.width * bitmap.height;
    assert(0 <= count) by (nonlinear_arith)
        requires
            count == bitmap.width * bitmap.height,
    ;
    assert(bitmap.data.len() == 4 * count);
    assert(bitmap.data.len() / 4 * 3 == 3 * count);
}

/// A buffer in which the bytes of a pixel block stand at `at` holds the
/// bitmap there, if the bitmap's buffer has the size of its dimensions and
/// its pixels are opaque.
pub proof fn lemma_placed_block(s: Seq<u8>, at: int, bitmap: BitmapView)
    requires
        placed(s, at, block_bytes(bitmap)),
        bitmap.well_sized(),
        bitmap.opaque(),
    ensures
        holds_bitmap(s, at, bitmap),
{
    let count = bitmap.width * bitmap.height;
    lemma_block_len(bitmap);
    lemma_placed_bounds(s, at, block_bytes(bitmap));
    let triples = triples_of(bitmap.data);
    lemma_placed_split(s, at, u32_bytes(bitmap.width) + u32_bytes(bitmap.height), triples);
    lemma_placed_split(s, at, u32_bytes(bitmap.width), u32_bytes(bitmap.height));
    lemma_placed_u32(s, at, bitmap.width);
    lemma_placed_u32(s, at + 4, bitmap.height);
    lemma_placed_bounds(s, at + 8, triples);
    assert(bitmap.data.len() == 4 * count);
    assert(triples.len() == 3 * count);
    assert forall|k: int| 0 <= k < count implies #[trigger] pixel_matches(
        s,
        at + 8,
        bitmap.data,
        k,
    ) by {
        assert(s[at + 8 + (3 * k)] == triples[3 * k]);
        assert(s[at + 8 + (3 * k + 1)] == triples[3 * k + 1]);
        assert(s[at + 8 + (3 * k + 2)] == triples[3 * k + 2]);
        assert((3 * k) / 3 == k && (3 * k) % 3 == 0);
        assert((3 * k + 1) / 3 == k && (3 * k + 1) % 3 == 1);
        assert((3 * k + 2) / 3 == k && (3 * k + 2) % 3 == 2);
        assert((4 * k + 3) % 4 == 3);
        assert(bitmap.data[4 * k + 3] == 255);
    }
}

/// The bytes of a directory entry: the kind, the variant and the offset of
/// the pixel block.
pub open spec fn entry_bytes(kind: u16, bmptype: u16, block: u32) -> Seq<u8> {
    u16_bytes(kind) + u16_bytes(bmptype) + u32_bytes(block)
}

/// The bytes of a directory whose pixel blocks stand one after the other
/// from `first_block` on: the entries, then a zero kind and variant.
pub open spec fn directory_bytes(bitmaps: Seq<BitmapView>, first_block: int) -> Seq<u8>
    decreases bitmaps.len(),
{
    if bitmaps.len() == 0 {
        u16_bytes(0) + u16_bytes(0)
    } else {
        entry_bytes(bitmaps[0].kind, bitmaps[0].bmptype, first_block as u32) + directory_bytes(
            bitmaps.skip(1),
            first_block + block_bytes(bitmaps[0]).len(),
        )
    }
}

/// The pixel blocks of a list of bitmaps, one after the other.
pub open spec fn blocks_bytes(bitmaps: Seq<BitmapView>) -> Seq<u8>
    decreases bitmaps.len(),
{
    if bitmaps.len() == 0 {
        Seq::empty()
    } else {
        block_bytes(bitmaps[0]) + blocks_bytes(bitmaps.skip(1))
    }
}

/// A directory takes eight bytes for each entry and four for the
/// terminator.
pub proof fn lemma_directory_len(bitmaps: Seq<BitmapView>, first_block: int)
    ensures
        directory_bytes(bitmaps, first_block).len() == 8 * bitmaps.len() + 4,
    decreases bitmaps.len(),
{
    if bitmaps.len() > 0 {
        lemma_directory_len(bitmaps.skip(1), first_block + block_bytes(bitmaps[0]).len());
    }
}

/// A buffer in which the bytes of an entry stand at `at` has there the
/// entry's kind, variant and offset.
pub proof fn lemma_placed_entry(s: Seq<u8>, at: int, kind: u16, bmptype: u16, block: u32)
    requires
        placed(s, at, entry_bytes(kind, bmptype, block)),
    ensures
        entry_bytes(kind, bmptype, block).len() == 8,
        u16_at(s, at) == kind,
        u16_at(s, at + 2) == bmptype,
        u32_at(s, at + 4) == block,
{
    lemma_placed_split(s, at, u16_bytes(kind) + u16_bytes(bmptype), u32_bytes(block));
    lemma_placed_split(s, at, u16_bytes(kind), u16_bytes(bmptype));
    lemma_placed_u16(s, at, kind);
    lemma_placed_u16(s, at + 2, bmptype);
    lemma_placed_u32(s, at + 4, block);
}

/// A buffer in which the bytes of a directory stand at `at`, and the
/// pixel blocks it points to from `first_block` on, holds the directory's
/// bitmaps, if each of them is listable and the offsets fit in 32 bits.
pub proof fn lemma_placed_directory(
    s: Seq<u8>,
    at: int,
    bitmaps: Seq<BitmapView>,
    first_block: int,
)
    requires
        placed(s, at, directory_bytes(bitmaps, first_block)),
        placed(s, first_block, blocks_bytes(bitmaps)),
        first_block + blocks_bytes(bitmaps).len() <= u32::MAX,
        forall|i: int| 0 <= i < bitmaps.len() ==> (#[trigger] bitmaps[i]).listable(),
    ensures
        holds_bitmaps(s, at, bitmaps),
    decreases bitmaps.len(),
{
    lemma_placed_bounds(s, at, directory_bytes(bitmaps, first_block));
    lemma_placed_bounds(s, first_block, blocks_bytes(bitmaps));
    lemma_directory_len(bitmaps, first_block);
    if bitmaps.len() == 0 {
        lemma_placed_split(s, at, u16_bytes(0), u16_bytes(0));
        lemma_placed_u16(s, at, 0);
        lemma_placed_u16(s, at + 2, 0);
    } else {
        let head = bitmaps[0];
        let rest = bitmaps.skip(1);
        let next_block = first_block + block_bytes(head).len();
        assert(head.listable());
        lemma_placed_split(
            s,
            at,
            entry_bytes(head.kind, head.bmptype, first_block as u32),
            directory_bytes(rest, next_block),
        );
        lemma_placed_entry(s, at, head.kind, head.bmptype, first_block as u32);
        lemma_placed_split(s, first_block, block_bytes(head), blocks_bytes(rest));
        lemma_placed_block(s, first_block, head);
        assert forall|i: int| 0 <= i < rest.len() implies (#[trigger] rest[i]).listable() by {
            assert(rest[i] == bitmaps[i + 1]);
        }
        lemma_placed_directory(s, at + 8, rest, next_block);
        assert forall|i: int| 0 <= i < bitmaps.len() implies holds_entry(
            s,
            at + 8 * i,
            #[trigger] bitmaps[i],
        ) by {
            if i > 0 {
                assert(bitmaps[i] == rest[i - 1]);
                assert(holds_entry(s, at + 8 + 8 * (i - 1), rest[i - 1]));
            }
        }
    }
}

/// The twenty bytes of a header: the container's signature, the version
/// and the three offsets.
pub open spec fn header_bytes(header: SkinHeader) -> Seq<u8> {
    u32_bytes(SKIN_MAGIC) + u32_bytes(header.version) + u32_bytes(header.params_base) + u32_bytes(
        header.buttons_base,
    ) + u32_bytes(header.bitmaps_base)
}

/// A buffer in which the bytes of a header stand at the front has there
/// the signature and the header's four fields.
pub proof fn lemma_placed_header(s: Seq<u8>, header: SkinHeader)
    requires
        placed(s, 0, header_bytes(header)),
    ensures
        header_bytes(header).len() == 20,
        20 <= s.len(),
        u32_at(s, 0) == SKIN_MAGIC,
        u32_at(s, 4) == header.version,
        u32_at(s, 8) == header.params_base,
        u32_at(s, 12) == header.buttons_base,
        u32_at(s, 16) == header.bitmaps_base,
{
    let m = u32_bytes(SKIN_MAGIC);
    let v = u32_bytes(header.version);
    let p = u32_bytes(header.params_base);
    let b = u32_bytes(header.buttons_base);
    let d = u32_bytes(header.bitmaps_base);
    lemma_placed_bounds(s, 0, header_bytes(header));
    lemma_placed_split(s, 0, m + v + p + b, d);
    lemma_placed_split(s, 0, m + v + p, b);
    lemma_placed_split(s, 0, m + v, p);
    lemma_placed_split(s, 0, m, v);
    lemma_placed_u32(s, 0, SKIN_MAGIC);
    lemma_placed_u32(s, 4, header.version);
    lemma_placed_u32(s, 8, header.params_base);
    lemma_placed_u32(s, 12, header.buttons_base);
    lemma_placed_u32(s, 16, header.bitmaps_base);
}

/// The header of the container that `container_bytes` lays out: the
/// parameters right after the header, then the buttons, then the
/// directory.
pub open spec fn canonical_header(skin: SkinView) -> SkinHeader {
    SkinHeader {
        version: skin.version,
        params_base: 20,
        buttons_base: 100,
        bitmaps_base: (104 + 12 * skin.buttons.len()) as u32,
    }
}

/// Where the pixel blocks start in the container that `container_bytes`
/// lays out: right after the directory.
pub open spec fn first_block_of(skin: SkinView) -> int {
    (108 + 12 * skin.buttons.len() + 8 * skin.bitmaps.len()) as int
}

/// A container for `skin`: the header, the four bytes before the
/// parameters, the parameters, the button list, the directory and the
/// pixel blocks, one after the other.
pub open spec fn container_bytes(skin: SkinView) -> Seq<u8> {
    header_bytes(canonical_header(skin)) + u32_bytes(0) + params_bytes(params_of(skin), 0)
        + button_list_bytes(skin.buttons) + directory_bytes(
        skin.bitmaps,
        first_block_of(skin),
    ) + blocks_bytes(skin.bitmaps)
}

/// Six pieces put one after the other each stand where the pieces before
/// them end.
proof fn lemma_placed_six(
    a: Seq<u8>,
    b: Seq<u8>,
    c: Seq<u8>,
    d: Seq<u8>,
    e: Seq<u8>,
    f: Seq<u8>,
)
    ensures
        placed(a + b + c + d + e + f, 0, a),
        placed(a + b + c + d + e + f, a.len() as int, b),
        placed(a + b + c + d + e + f, (a.len() + b.len()) as int, c),
        placed(a + b + c + d + e + f, (a.len() + b.len() + c.len()) as int, d),
        placed(a + b + c + d + e + f, (a.len() + b.len() + c.len() + d.len()) as int, e),
        placed(a + b + c + d + e + f, (a.len() + b.len() + c.len() + d.len() + e.len()) as int, f),
{
    let s = a + b + c + d + e + f;
    let none = Seq::<u8>::empty();
    lemma_placed_between(none, a, b + c + d + e + f);
    assert(none + a + (b + c + d + e + f) =~= s);
    lemma_placed_between(a, b, c + d + e + f);
    assert(a + b + (c + d + e + f) =~= s);
    lemma_placed_between(a + b, c, d + e + f);
    assert((a + b) + c + (d + e + f) =~= s);
    lemma_placed_between(a + b + c, d, e + f);
    assert((a + b + c) + d + (e + f) =~= s);
    lemma_placed_between(a + b + c + d, e, f);
    lemma_placed_between(a + b + c + d + e, f, none);
    assert((a + b + c + d + e) + f + none =~= s);
}

/// The container that `container_bytes` lays out for a well-formed skin
/// holds that skin.
pub proof fn lemma_container_holds(skin: SkinView)
    requires
        skin.well_formed(),
        container_bytes(skin).len() <= u32::MAX,
    ensures
        holds_skin(container_bytes(skin), canonical_header(skin), skin),
{
    let s = container_bytes(skin);
    let header = canonical_header(skin);
    let h = header_bytes(header);
    let pad = u32_bytes(0);
    let p = params_bytes(params_of(skin), 0);
    let b = button_list_bytes(skin.buttons);
    let first_block = first_block_of(skin);
    let d = directory_bytes(skin.bitmaps, first_block);
    let k = blocks_bytes(skin.bitmaps);
    assert(s == h + pad + p + b + d + k);
    lemma_placed_six(h, pad, p, b, d, k);
    lemma_button_list_len(skin.buttons);
    lemma_directory_len(skin.bitmaps, first_block);
    lemma_placed_header(s, header);
    assert(pad.len() == 4);
    lemma_placed_params(s, 24, params_of(skin), 0);
    lemma_placed_button_list(s, 100, skin.buttons);
    lemma_placed_bounds(s, first_block, k);
    lemma_placed_directory(s, (104 + 12 * skin.buttons.len()) as int, skin.bitmaps, first_block);
}

/// Every well-formed skin has a container, and decoding that container
/// gives the skin back, field for field: no button or bitmap is lost,
/// added or reordered, and every integer and pixel keeps its value.
pub proof fn lemma_round_trip(skin: SkinView)
    requires
        skin.well_formed(),
        container_bytes(skin).len() <= u32::MAX,
    ensures
        container_spec(container_bytes(skin)) == Ok::<SkinView, DecodeError>(skin),
{
    lemma_container_holds(skin);
    lemma_decode_reproduces(container_bytes(skin), canonical_header(skin), skin);
}

} // verus!
