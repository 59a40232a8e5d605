//! What a buffer that holds a skin looks like, and that decoding reads
//! back exactly what it holds.
//!
//! The `holds_*` predicates describe a buffer field by field. The lemmas
//! say that the decoders' results and these descriptions agree.

use crate::bitmaps::{bitmap_at, bitmaps_from, bitmaps_spec, entry_bitmap, is_directory_end};
use crate::buttons::{button_at, buttons_from, buttons_spec};
use crate::decode::{assemble, container_spec};
use crate::error::DecodeError;
use crate::format::{HEADER_LEN, MAX_ENTRIES, PARAMS_LEN, PARAMS_PAD, SKIN_MAGIC};
use crate::header::{header_spec, SkinHeader};
use crate::le::{u16_at, u32_at};
use crate::model::{BitmapView, SkinButton, SkinParams, SkinView};
use crate::params::{params_at, params_spec};
use crate::pixels::expand_bgr;
use vstd::prelude::*;

verus! {

/// The buffer holds the records of `buttons` from `at` on, one after the
/// other, none with a zero type tag, and a zero tag right after them.
pub open spec fn holds_buttons(s: Seq<u8>, at: int, buttons: Seq<SkinButton>) -> bool {
    &&& 0 <= at
    &&& at + 12 * buttons.len() + 4 <= s.len()
    &&& forall|i: int|
        0 <= i < buttons.len() ==> (#[trigger] buttons[i]) == button_at(s, at + 12 * i)
            && buttons[i].btntype != 0
    &&& u32_at(s, at + 12 * buttons.len()) == 0
}

/// Pixel `k` of `data` is the triple `k` of the run that starts at `at`,
/// with red and blue exchanged and full opacity added.
pub open spec fn pixel_matches(s: Seq<u8>, at: int, data: Seq<u8>, k: int) -> bool {
    &&& data[4 * k] == s[at + 3 * k + 2]
    &&& data[4 * k + 1] == s[at + 3 * k + 1]
    &&& data[4 * k + 2] == s[at + 3 * k]
    &&& data[4 * k + 3] == 255
}

/// The buffer holds at `at` the pixel block of `bitmap`: its width, its
/// height, and one (blue, green, red) triple for each of its pixels.
pub open spec fn holds_bitmap(s: Seq<u8>, at: int, bitmap: BitmapView) -> bool {
    &&& 0 <= at
    &&& at + 8 + 3 * (bitmap.width * bitmap.height) <= s.len()
    &&& u32_at(s, at) == bitmap.width
    &&& u32_at(s, at + 4) == bitmap.height
    &&& bitmap.data.len() == 4 * (bitmap.width * bitmap.height)
    &&& forall|k: int|
        0 <= k < bitmap.width * bitmap.height ==> #[trigger] pixel_matches(
            s,
            at + 8,
            bitmap.data,
            k,
        )
}

/// The buffer holds at `at` the directory entry of `bitmap`, which is not a
/// terminator, and at the offset that the entry gives its pixel block.
pub open spec fn holds_entry(s: Seq<u8>, at: int, bitmap: BitmapView) -> bool {
    &&& u16_at(s, at) == bitmap.kind
    &&& u16_at(s, at + 2) == bitmap.bmptype
    &&& !(bitmap.kind == 0 && bitmap.bmptype == 0)
    &&& holds_bitmap(s, u32_at(s, at + 4) as int, bitmap)
}

/// The buffer holds the directory entries of `bitmaps` from `at` on, one
/// after the other, each with its pixel block, and a terminator right after
/// them.
pub open spec fn holds_bitmaps(s: Seq<u8>, at: int, bitmaps: Seq<BitmapView>) -> bool {
    &&& 0 <= at
    &&& at + 8 * bitmaps.len() + 4 <= s.len()
    &&& forall|i: int|
        0 <= i < bitmaps.len() ==> holds_entry(s, at + 8 * i, #[trigger] bitmaps[i])
    &&& is_directory_end(s, at + 8 * bitmaps.len())
}

/// The parameters that `skin` carries.
pub open spec fn params_of(skin: SkinView) -> SkinParams {
    SkinParams {
        margin: skin.margin,
        active: skin.active,
        inactive: skin.inactive,
        system_colors: skin.system_colors,
    }
}

/// The buffer is a container that holds `skin`: a header with the
/// signature, the version of `skin` and the three offsets, and at those
/// offsets the parameters, the buttons and the bitmaps of `skin`.
pub open spec fn holds_skin(s: Seq<u8>, header: SkinHeader, skin: SkinView) -> bool {
    &&& HEADER_LEN <= s.len()
    &&& u32_at(s, 0) == SKIN_MAGIC
    &&& u32_at(s, 4) == header.version
    &&& u32_at(s, 8) == header.params_base
    &&& u32_at(s, 12) == header.buttons_base
    &&& u32_at(s, 16) == header.bitmaps_base
    &&& header.version == skin.version
    &&& header.params_base + PARAMS_PAD + PARAMS_LEN <= s.len()
    &&& params_at(s, header.params_base + PARAMS_PAD) == params_of(skin)
    &&& holds_buttons(s, header.buttons_base as int, skin.buttons)
    &&& skin.buttons.len() <= MAX_ENTRIES
    &&& holds_bitmaps(s, header.bitmaps_base as int, skin.bitmaps)
    &&& skin.bitmaps.len() <= MAX_ENTRIES
}

/// A list that the buffer holds is decoded to exactly that list.
pub proof fn lemma_buttons_decoded(s: Seq<u8>, at: int, buttons: Seq<SkinButton>, budget: nat)
    requires
        holds_buttons(s, at, buttons),
        buttons.len() <= budget,
    ensures
        buttons_from(s, at, budget) == Ok::<Seq<SkinButton>, DecodeError>(buttons),
    decreases buttons.len(),
{
    if buttons.len() == 0 {
        assert(buttons =~= Seq::empty());
    } else {
        let rest = buttons.skip(1);
        assert(buttons[0] == button_at(s, at + 12 * 0));
        assert forall|i: int| 0 <= i < rest.len() implies (#[trigger] rest[i]) == button_at(
            s,
            at + 12 + 12 * i,
        ) && rest[i].btntype != 0 by {
            assert(rest[i] == buttons[i + 1]);
        }
        lemma_buttons_decoded(s, at + 12, rest, (budget - 1) as nat);
        assert(seq![buttons[0]] + rest =~= buttons);
    }
}

/// Whatever list is decoded, the buffer holds it, and it is no longer than
/// the budget.
pub proof fn lemma_buttons_held(s: Seq<u8>, at: int, budget: nat)
    requires
        0 <= at,
        buttons_from(s, at, budget) is Ok,
    ensures
        holds_buttons(s, at, buttons_from(s, at, budget)->Ok_0),
        buttons_from(s, at, budget)->Ok_0.len() <= budget,
    decreases budget,
{
    let buttons = buttons_from(s, at, budget)->Ok_0;
    if u32_at(s, at) != 0 {
        lemma_buttons_held(s, at + 12, (budget - 1) as nat);
        let rest = buttons_from(s, at + 12, (budget - 1) as nat)->Ok_0;
        assert(buttons == seq![button_at(s, at)] + rest);
        assert forall|i: int| 0 <= i < buttons.len() implies (#[trigger] buttons[i]) == button_at(
            s,
            at + 12 * i,
        ) && buttons[i].btntype != 0 by {
            if i > 0 {
                assert(buttons[i] == rest[i - 1]);
            }
        }
    }
}

/// A pixel block that the buffer holds is decoded to exactly that bitmap.
pub proof fn lemma_bitmap_decoded(s: Seq<u8>, at: int, bitmap: BitmapView)
    requires
        holds_bitmap(s, at, bitmap),
    ensures
        bitmap_at(s, bitmap.kind, bitmap.bmptype, at) == Ok::<BitmapView, DecodeError>(bitmap),
{
    let count = bitmap.width * bitmap.height;
    assert(0 <= count) by (nonlinear_arith)
        requires
            count == bitmap.width * bitmap.height,
    ;
    assert(bitmap.width * bitmap.height * 3 == 3 * count);
    let triples = s.subrange(at + 8, at + 8 + 3 * count);
    assert(triples.len() / 3 == count);
    assert forall|i: int| 0 <= i < 4 * count implies expand_bgr(triples)[i] == bitmap.data[i] by {
        let k = i / 4;
        assert(pixel_matches(s, at + 8, bitmap.data, k));
    }
    assert(expand_bgr(triples) =~= bitmap.data);
}

/// Whatever bitmap is decoded from a pixel block, the buffer holds it.
pub proof fn lemma_bitmap_held(s: Seq<u8>, kind: u16, bmptype: u16, at: int)
    requires
        0 <= at,
        bitmap_at(s, kind, bmptype, at) is Ok,
    ensures
        holds_bitmap(s, at, bitmap_at(s, kind, bmptype, at)->Ok_0),
        bitmap_at(s, kind, bmptype, at)->Ok_0.kind == kind,
        bitmap_at(s, kind, bmptype, at)->Ok_0.bmptype == bmptype,
{
    let bitmap = bitmap_at(s, kind, bmptype, at)->Ok_0;
    let count = bitmap.width * bitmap.height;
    assert(0 <= count) by (nonlinear_arith)
        requires
            count == bitmap.width * bitmap.height,
    ;
    assert(bitmap.width * bitmap.height * 3 == 3 * count);
    let triples = s.subrange(at + 8, at + 8 + 3 * count);
    assert(triples.len() / 3 == count);
    assert forall|k: int| 0 <= k < count implies #[trigger] pixel_matches(
        s,
        at + 8,
        bitmap.data,
        k,
    ) by {
        assert(bitmap.data[4 * k] == triples[(4 * k) / 4 * 3 + (2 - (4 * k) % 4)]);
        assert(bitmap.data[4 * k + 1] == triples[(4 * k + 1) / 4 * 3 + (2 - (4 * k + 1) % 4)]);
        assert(bitmap.data[4 * k + 2] == triples[(4 * k + 2) / 4 * 3 + (2 - (4 * k + 2) % 4)]);
        assert(bitmap.data[4 * k + 3] == 255);
    }
}

/// A directory that the buffer holds is decoded to exactly its bitmaps.
pub proof fn lemma_bitmaps_decoded(s: Seq<u8>, at: int, bitmaps: Seq<BitmapView>, budget: nat)
    requires
        holds_bitmaps(s, at, bitmaps),
        bitmaps.len() <= budget,
    ensures
        bitmaps_from(s, at, budget) == Ok::<Seq<BitmapView>, DecodeError>(bitmaps),
    decreases bitmaps.len(),
{
    if bitmaps.len() == 0 {
        assert(bitmaps =~= Seq::empty());
    } else {
        let rest = bitmaps.skip(1);
        assert(holds_entry(s, at + 8 * 0, bitmaps[0]));
        lemma_bitmap_decoded(s, u32_at(s, at + 4) as int, bitmaps[0]);
        assert(entry_bitmap(s, at) == Ok::<BitmapView, DecodeError>(bitmaps[0]));
        assert forall|i: int| 0 <= i < rest.len() implies holds_entry(
            s,
            at + 8 + 8 * i,
            #[trigger] rest[i],
        ) by {
            assert(rest[i] == bitmaps[i + 1]);
            assert(holds_entry(s, at + 8 * (i + 1), bitmaps[i + 1]));
        }
        lemma_bitmaps_decoded(s, at + 8, rest, (budget - 1) as nat);
        assert(seq![bitmaps[0]] + rest =~= bitmaps);
    }
}

/// Whatever directory is decoded, the buffer holds it, and it is no longer
/// than the budget.
pub proof fn lemma_bitmaps_held(s: Seq<u8>, at: int, budget: nat)
    requires
        0 <= at,
        bitmaps_from(s, at, budget) is Ok,
    ensures
        holds_bitmaps(s, at, bitmaps_from(s, at, budget)->Ok_0),
        bitmaps_from(s, at, budget)->Ok_0.len() <= budget,
    decreases budget,
{
    let bitmaps = bitmaps_from(s, at, budget)->Ok_0;
    if !is_directory_end(s, at) {
        let first = entry_bitmap(s, at)->Ok_0;
        lemma_bitmap_held(s, u16_at(s, at), u16_at(s, at + 2), u32_at(s, at + 4) as int);
        lemma_bitmaps_held(s, at + 8, (budget - 1) as nat);
        let rest = bitmaps_from(s, at + 8, (budget - 1) as nat)->Ok_0;
        assert(bitmaps == seq![first] + rest);
        assert forall|i: int| 0 <= i < bitmaps.len() implies holds_entry(
            s,
            at + 8 * i,
            #[trigger] bitmaps[i],
        ) by {
            if i > 0 {
                assert(bitmaps[i] == rest[i - 1]);
                assert(holds_entry(s, at + 8 + 8 * (i - 1), rest[i - 1]));
            }
        }
    }
}

/// Decoding a container that holds a skin gives that skin, field for field.
pub proof fn lemma_decode_reproduces(s: Seq<u8>, header: SkinHeader, skin: SkinView)
    requires
        holds_skin(s, header, skin),
    ensures
        header_spec(s) == Ok::<SkinHeader, DecodeError>(header),
        container_spec(s) == Ok::<SkinView, DecodeError>(skin),
{
    lemma_buttons_decoded(s, header.buttons_base as int, skin.buttons, MAX_ENTRIES as nat);
    lemma_bitmaps_decoded(s, header.bitmaps_base as int, skin.bitmaps, MAX_ENTRIES as nat);
    assert(params_spec(s, header.params_base) == Ok::<SkinParams, DecodeError>(params_of(skin)));
    assert(buttons_spec(s, header.buttons_base) == Ok::<Seq<SkinButton>, DecodeError>(
        skin.buttons,
    ));
    assert(bitmaps_spec(s, header.bitmaps_base) == Ok::<Seq<BitmapView>, DecodeError>(
        skin.bitmaps,
    ));
    assert(assemble(header.version, params_of(skin), skin.buttons, skin.bitmaps) == skin);
}

/// Whatever skin is decoded from a container, the container holds it.
pub proof fn lemma_decoded_is_held(s: Seq<u8>)
    requires
        container_spec(s) is Ok,
    ensures
        holds_skin(s, header_spec(s)->Ok_0, container_spec(s)->Ok_0),
{
    let header = header_spec(s)->Ok_0;
    lemma_buttons_held(s, header.buttons_base as int, MAX_ENTRIES as nat);
    lemma_bitmaps_held(s, header.bitmaps_base as int, MAX_ENTRIES as nat);
}

/// No record of the list that starts at `at` is a terminator: wherever a
/// type tag can be read, it is not zero.
#[verifier::opaque]
pub open spec fn no_button_end(s: Seq<u8>, at: int) -> bool {
    forall|p: int|
        at <= p && p + 4 <= s.len() && (p - at) % 12 == 0 ==> #[trigger] u32_at(s, p) != 0
}

/// What `no_button_end` says of the first record, and that it holds of the
/// list that starts one record later.
proof fn lemma_no_button_end_step(s: Seq<u8>, at: int)
    requires
        no_button_end(s, at),
        at + 4 <= s.len(),
    ensures
        u32_at(s, at) != 0,
        no_button_end(s, at + 12),
{
    reveal(no_button_end);
    assert((at - at) % 12 == 0);
    assert forall|p: int|
        at + 12 <= p && p + 4 <= s.len() && (p - (at + 12)) % 12 == 0 implies #[trigger] u32_at(
        s,
        p,
    ) != 0 by {
        assert((p - at) % 12 == 0);
    }
}

/// A button list without a terminator, in a buffer that ends between two
/// records, is unterminated. (Where the buffer ends inside a record, after
/// its tag, the list is `Truncated` instead.)
pub proof fn lemma_buttons_unterminated(s: Seq<u8>, at: int, budget: nat)
    requires
        0 <= at <= s.len(),
        no_button_end(s, at),
        (s.len() - at) % 12 < 4,
    ensures
        buttons_from(s, at, budget) == Err::<Seq<SkinButton>, DecodeError>(
            DecodeError::UnterminatedList,
        ),
    decreases budget,
{
    if at + 4 <= s.len() {
        lemma_no_button_end_step(s, at);
        if budget > 0 {
            assert(at + 12 <= s.len());
            assert((s.len() - (at + 12)) % 12 == (s.len() - at) % 12);
            lemma_buttons_unterminated(s, at + 12, (budget - 1) as nat);
        }
    }
}

/// No entry of the directory that starts at `at` is a terminator, and the
/// pixel block of every whole entry can be decoded.
#[verifier::opaque]
pub open spec fn no_directory_end(s: Seq<u8>, at: int) -> bool {
    &&& forall|p: int|
        at <= p && p + 4 <= s.len() && (p - at) % 8 == 0 ==> !#[trigger] is_directory_end(s, p)
    &&& forall|p: int|
        at <= p && p + 8 <= s.len() && (p - at) % 8 == 0 ==> #[trigger] entry_bitmap(s, p) is Ok
}

/// What `no_directory_end` says of the first entry, and that it holds of
/// the directory that starts one entry later.
proof fn lemma_no_directory_end_step(s: Seq<u8>, at: int)
    requires
        no_directory_end(s, at),
        at + 4 <= s.len(),
    ensures
        !is_directory_end(s, at),
        at + 8 <= s.len() ==> entry_bitmap(s, at) is Ok,
        no_directory_end(s, at + 8),
{
    reveal(no_directory_end);
    assert((at - at) % 8 == 0);
    assert forall|p: int|
        at + 8 <= p && p + 4 <= s.len() && (p - (at + 8)) % 8 == 0 implies !#[trigger] is_directory_end(
        s,
        p,
    ) by {
        assert((p - at) % 8 == 0);
    }
    assert forall|p: int|
        at + 8 <= p && p + 8 <= s.len() && (p - (at + 8)) % 8 == 0 implies #[trigger] entry_bitmap(
        s,
        p,
    ) is Ok by {
        assert((p - at) % 8 == 0);
    }
}

/// A bitmap directory without a terminator, in a buffer that ends between
/// two entries, is unterminated. (Where the buffer ends inside an entry,
/// after its first four bytes, the directory is `Truncated` instead.)
pub proof fn lemma_bitmaps_unterminated(s: Seq<u8>, at: int, budget: nat)
    requires
        0 <= at <= s.len(),
        no_directory_end(s, at),
        (s.len() - at) % 8 < 4,
    ensures
        bitmaps_from(s, at, budget) == Err::<Seq<BitmapView>, DecodeError>(
            DecodeError::UnterminatedList,
        ),
    decreases budget,
{
    if at + 4 <= s.len() {
        lemma_no_directory_end_step(s, at);
        if budget > 0 {
            assert(at + 8 <= s.len());
            assert((s.len() - (at + 8)) % 8 == (s.len() - at) % 8);
            lemma_bitmaps_unterminated(s, at + 8, (budget - 1) as nat);
        }
    }
}

/// A directory entry whose offset points past the end of the buffer makes
/// the directory fail with `OffsetOutOfRange`, whatever sound entries come
/// before it.
pub proof fn lemma_offset_past_end(s: Seq<u8>, at: int, before: Seq<BitmapView>, budget: nat)
    requires
        0 <= at,
        forall|i: int| 0 <= i < before.len() ==> holds_entry(s, at + 8 * i, #[trigger] before[i]),
        before.len() < budget,
        at + 8 * before.len() + 8 <= s.len(),
        !is_directory_end(s, at + 8 * before.len()),
        u32_at(s, at + 8 * before.len() + 4) > s.len(),
    ensures
        bitmaps_from(s, at, budget) == Err::<Seq<BitmapView>, DecodeError>(
            DecodeError::OffsetOutOfRange,
        ),
    decreases before.len(),
{
    if before.len() > 0 {
        let rest = before.skip(1);
        assert(holds_entry(s, at + 8 * 0, before[0]));
        lemma_bitmap_decoded(s, u32_at(s, at + 4) as int, before[0]);
        assert(entry_bitmap(s, at) == Ok::<BitmapView, DecodeError>(before[0]));
        assert forall|i: int| 0 <= i < rest.len() implies holds_entry(
            s,
            at + 8 + 8 * i,
            #[trigger] rest[i],
        ) by {
            assert(rest[i] == before[i + 1]);
            assert(holds_entry(s, at + 8 * (i + 1), before[i + 1]));
        }
        lemma_offset_past_end(s, at + 8, rest, (budget - 1) as nat);
    }
}

/// The first section that fails decides the error of the container: a
/// directory that fails, after a header, parameters and buttons that
/// decode, fails the container with its own error.
pub proof fn lemma_directory_error_surfaces(s: Seq<u8>)
    requires
        header_spec(s) is Ok,
        params_spec(s, header_spec(s)->Ok_0.params_base) is Ok,
        buttons_spec(s, header_spec(s)->Ok_0.buttons_base) is Ok,
        bitmaps_spec(s, header_spec(s)->Ok_0.bitmaps_base) is Err,
    ensures
        container_spec(s) == Err::<SkinView, DecodeError>(
            bitmaps_spec(s, header_spec(s)->Ok_0.bitmaps_base)->Err_0,
        ),
{
}

/// Every skin that a container decodes to is well formed: no button has a
/// zero type tag, every bitmap has four bytes for each of its pixels and a
/// kind and a variant that are not both zero, and neither list is longer
/// than the entry limit.
pub proof fn lemma_decoded_well_formed(s: Seq<u8>)
    requires
        container_spec(s) is Ok,
    ensures
        container_spec(s)->Ok_0.well_formed(),
{
    let skin = container_spec(s)->Ok_0;
    lemma_decoded_is_held(s);
    let header = header_spec(s)->Ok_0;
    assert forall|i: int| 0 <= i < skin.bitmaps.len() implies (#[trigger] skin.bitmaps[i]).listable() by {
        assert(holds_entry(s, header.bitmaps_base + 8 * i, skin.bitmaps[i]));
        let bitmap = skin.bitmaps[i];
        assert(bitmap.width * bitmap.height * 4 == 4 * (bitmap.width * bitmap.height))
            by (nonlinear_arith);
        let block = u32_at(s, header.bitmaps_base + 8 * i + 4) as int;
        assert forall|j: int| 0 <= j < bitmap.data.len() && j % 4 == 3 implies #[trigger] bitmap.data[j]
            == 255 by {
            assert(pixel_matches(s, block + 8, bitmap.data, j / 4));
        }
    }
}

/// A button list decodes to `buttons` exactly when the buffer holds
/// `buttons` at the list's offset and `buttons` is within the entry limit.
pub proof fn lemma_buttons_ok_iff(s: Seq<u8>, base: u32, buttons: Seq<SkinButton>)
    ensures
        buttons_spec(s, base) == Ok::<Seq<SkinButton>, DecodeError>(buttons) <==> holds_buttons(
            s,
            base as int,
            buttons,
        ) && buttons.len() <= MAX_ENTRIES,
{
    if holds_buttons(s, base as int, buttons) && buttons.len() <= MAX_ENTRIES {
        lemma_buttons_decoded(s, base as int, buttons, MAX_ENTRIES as nat);
    }
    if buttons_spec(s, base) == Ok::<Seq<SkinButton>, DecodeError>(buttons) {
        lemma_buttons_held(s, base as int, MAX_ENTRIES as nat);
    }
}

/// A bitmap directory decodes to `bitmaps` exactly when the buffer holds
/// `bitmaps` at the directory's offset and `bitmaps` is within the entry
/// limit.
pub proof fn lemma_bitmaps_ok_iff(s: Seq<u8>, base: u32, bitmaps: Seq<BitmapView>)
    ensures
        bitmaps_spec(s, base) == Ok::<Seq<BitmapView>, DecodeError>(bitmaps) <==> holds_bitmaps(
            s,
            base as int,
            bitmaps,
        ) && bitmaps.len() <= MAX_ENTRIES,
{
    if holds_bitmaps(s, base as int, bitmaps) && bitmaps.len() <= MAX_ENTRIES {
        lemma_bitmaps_decoded(s, base as int, bitmaps, MAX_ENTRIES as nat);
    }
    if bitmaps_spec(s, base) == Ok::<Seq<BitmapView>, DecodeError>(bitmaps) {
        lemma_bitmaps_held(s, base as int, MAX_ENTRIES as nat);
    }
}

/// A container decodes to `skin` exactly when it holds `skin` under the
/// header that stands at its front.
pub proof fn lemma_container_ok_iff(s: Seq<u8>, skin: SkinView)
    ensures
        container_spec(s) == Ok::<SkinView, DecodeError>(skin) <==> header_spec(s) is Ok
            && holds_skin(s, header_spec(s)->Ok_0, skin),
{
    if header_spec(s) is Ok && holds_skin(s, header_spec(s)->Ok_0, skin) {
        lemma_decode_reproduces(s, header_spec(s)->Ok_0, skin);
    }
    if container_spec(s) == Ok::<SkinView, DecodeError>(skin) {
        lemma_decoded_is_held(s);
    }
}

} // verus!
