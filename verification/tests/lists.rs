use kolibri_skin::bitmaps::{decode_bitmap, decode_bitmaps};
use kolibri_skin::buttons::decode_buttons;
use kolibri_skin::error::DecodeError;
use kolibri_skin::format::MAX_ENTRIES;
use kolibri_skin::model::{SkinBitmap, SkinButton};
use kolibri_skin::pixels::expand_pixels;

fn button_record(btntype: u32, left: u16, top: u16, width: u16, height: u16) -> Vec<u8> {
    let mut out = Vec::new();
    out.extend_from_slice(&btntype.to_le_bytes());
    out.extend_from_slice(&left.to_le_bytes());
    out.extend_from_slice(&top.to_le_bytes());
    out.extend_from_slice(&width.to_le_bytes());
    out.extend_from_slice(&height.to_le_bytes());
    out
}

fn directory_entry(kind: u16, bmptype: u16, offset: u32) -> Vec<u8> {
    let mut out = Vec::new();
    out.extend_from_slice(&kind.to_le_bytes());
    out.extend_from_slice(&bmptype.to_le_bytes());
    out.extend_from_slice(&offset.to_le_bytes());
    out
}

fn pixel_block(width: u32, height: u32, triples: &[u8]) -> Vec<u8> {
    let mut out = Vec::new();
    out.extend_from_slice(&width.to_le_bytes());
    out.extend_from_slice(&height.to_le_bytes());
    out.extend_from_slice(triples);
    out
}

#[test]
fn one_button_list_decodes() {
    let mut buf = button_record(5, 10, 20, 30, 40);
    buf.extend_from_slice(&[0, 0, 0, 0]);
    let buttons = decode_buttons(&buf, 0).unwrap();
    assert_eq!(
        buttons,
        vec![SkinButton { btntype: 5, left: 10, top: 20, width: 30, height: 40 }]
    );
}

#[test]
fn empty_button_list_decodes() {
    assert_eq!(decode_buttons(&[0, 0, 0, 0], 0), Ok(vec![]));
}

#[test]
fn buttons_keep_their_order_and_start_at_the_offset() {
    let mut buf = vec![0xAAu8; 7];
    buf.extend(button_record(1, 2, 3, 4, 5));
    buf.extend(button_record(0xFFFF_FFFF, 0xFFFF, 0, 1, 0x8000));
    buf.extend(button_record(1, 0, 0, 0, 0));
    buf.extend_from_slice(&[0, 0, 0, 0]);
    buf.extend(button_record(9, 9, 9, 9, 9));
    let buttons = decode_buttons(&buf, 7).unwrap();
    assert_eq!(
        buttons,
        vec![
            SkinButton { btntype: 1, left: 2, top: 3, width: 4, height: 5 },
            SkinButton { btntype: 0xFFFF_FFFF, left: 0xFFFF, top: 0, width: 1, height: 0x8000 },
            SkinButton { btntype: 1, left: 0, top: 0, width: 0, height: 0 },
        ]
    );
}

#[test]
fn button_list_without_terminator_is_unterminated() {
    let mut buf = button_record(5, 10, 20, 30, 40);
    buf.extend(button_record(6, 1, 2, 3, 4));
    assert_eq!(decode_buttons(&buf, 0), Err(DecodeError::UnterminatedList));
    buf.extend_from_slice(&[0, 0, 0]);
    assert_eq!(decode_buttons(&buf, 0), Err(DecodeError::UnterminatedList));
    assert_eq!(decode_buttons(&[], 0), Err(DecodeError::UnterminatedList));
}

#[test]
fn button_cut_after_its_tag_is_truncated() {
    let mut buf = button_record(5, 10, 20, 30, 40);
    buf.truncate(11);
    assert_eq!(decode_buttons(&buf, 0), Err(DecodeError::Truncated));
    buf.truncate(4);
    assert_eq!(decode_buttons(&buf, 0), Err(DecodeError::Truncated));
}

#[test]
fn button_offset_past_end_is_out_of_range() {
    let buf = [0u8, 0, 0, 0];
    assert_eq!(decode_buttons(&buf, 5), Err(DecodeError::OffsetOutOfRange));
    assert_eq!(decode_buttons(&buf, u32::MAX), Err(DecodeError::OffsetOutOfRange));
    assert_eq!(decode_buttons(&buf, 4), Err(DecodeError::UnterminatedList));
}

#[test]
fn button_list_at_the_entry_limit_decodes() {
    let mut buf = Vec::new();
    for i in 0..MAX_ENTRIES {
        buf.extend(button_record(i as u32 + 1, 1, 2, 3, 4));
    }
    buf.extend_from_slice(&[0, 0, 0, 0]);
    let buttons = decode_buttons(&buf, 0).unwrap();
    assert_eq!(buttons.len(), 100_000);
    assert_eq!(buttons[99_999].btntype, 100_000);
}

#[test]
fn button_list_over_the_entry_limit_is_unterminated() {
    let mut buf = Vec::new();
    for i in 0..MAX_ENTRIES + 1 {
        buf.extend(button_record(i as u32 + 1, 1, 2, 3, 4));
    }
    buf.extend_from_slice(&[0, 0, 0, 0]);
    assert_eq!(decode_buttons(&buf, 0), Err(DecodeError::UnterminatedList));
}

#[test]
fn pixel_triple_is_reordered() {
    assert_eq!(expand_pixels(&[0x10, 0x20, 0x30]), vec![0x30, 0x20, 0x10, 0xFF]);
}

#[test]
fn pixels_expand_one_by_one() {
    assert_eq!(expand_pixels(&[]), Vec::<u8>::new());
    assert_eq!(expand_pixels(&[1, 2, 3, 4, 5, 6]), vec![3, 2, 1, 255, 6, 5, 4, 255]);
    assert_eq!(expand_pixels(&[1, 2, 3, 4, 5]), vec![3, 2, 1, 255]);
}

#[test]
fn pixel_block_decodes() {
    let mut buf = vec![0u8; 3];
    buf.extend(pixel_block(2, 1, &[0x10, 0x20, 0x30, 1, 2, 3]));
    let bitmap = decode_bitmap(&buf, 3, 1, 3).unwrap();
    assert_eq!(
        bitmap,
        SkinBitmap {
            kind: 3,
            bmptype: 1,
            width: 2,
            height: 1,
            data: vec![0x30, 0x20, 0x10, 0xFF, 3, 2, 1, 0xFF],
        }
    );
    assert_eq!(bitmap.data.len(), 2 * 1 * 4);
}

#[test]
fn pixel_block_without_pixels_decodes() {
    let buf = pixel_block(0, 7, &[]);
    let bitmap = decode_bitmap(&buf, 1, 2, 0).unwrap();
    assert_eq!(bitmap, SkinBitmap { kind: 1, bmptype: 2, width: 0, height: 7, data: vec![] });
}

#[test]
fn pixel_block_larger_than_the_buffer_is_out_of_range() {
    let buf = pixel_block(2, 2, &[0u8; 11]);
    assert_eq!(decode_bitmap(&buf, 1, 1, 0), Err(DecodeError::OffsetOutOfRange));
    let buf = pixel_block(u32::MAX, u32::MAX, &[0u8; 12]);
    assert_eq!(decode_bitmap(&buf, 1, 1, 0), Err(DecodeError::OffsetOutOfRange));
    let buf = pixel_block(0x8000_0000, 2, &[0u8; 12]);
    assert_eq!(decode_bitmap(&buf, 1, 1, 0), Err(DecodeError::OffsetOutOfRange));
}

#[test]
fn pixel_block_with_cut_dimensions_is_truncated() {
    let buf = [1u8, 0, 0, 0, 1, 0, 0];
    assert_eq!(decode_bitmap(&buf, 1, 1, 0), Err(DecodeError::Truncated));
    assert_eq!(decode_bitmap(&buf, 1, 1, 7), Err(DecodeError::Truncated));
    assert_eq!(decode_bitmap(&buf, 1, 1, 8), Err(DecodeError::OffsetOutOfRange));
}

#[test]
fn bitmap_directory_decodes_in_order() {
    let mut buf = Vec::new();
    buf.extend(directory_entry(1, 1, 32));
    buf.extend(directory_entry(3, 0, 24));
    buf.extend(directory_entry(0, 0, 0));
    assert_eq!(buf.len(), 24);
    buf.extend(pixel_block(0, 0, &[]));
    buf.extend(pixel_block(1, 2, &[1, 2, 3, 4, 5, 6]));
    let bitmaps = decode_bitmaps(&buf, 0).unwrap();
    assert_eq!(
        bitmaps,
        vec![
            SkinBitmap {
                kind: 1,
                bmptype: 1,
                width: 1,
                height: 2,
                data: vec![3, 2, 1, 255, 6, 5, 4, 255],
            },
            SkinBitmap { kind: 3, bmptype: 0, width: 0, height: 0, data: vec![] },
        ]
    );
}

#[test]
fn directory_entry_with_one_zero_field_is_no_terminator() {
    let mut buf = Vec::new();
    buf.extend(directory_entry(0, 2, 24));
    buf.extend(directory_entry(2, 0, 24));
    buf.extend(directory_entry(0, 0, 0xFFFF_FFFF));
    buf.extend(pixel_block(0, 0, &[]));
    let bitmaps = decode_bitmaps(&buf, 0).unwrap();
    assert_eq!(bitmaps.len(), 2);
    assert_eq!((bitmaps[0].kind, bitmaps[0].bmptype), (0, 2));
    assert_eq!((bitmaps[1].kind, bitmaps[1].bmptype), (2, 0));
}

#[test]
fn bitmap_directory_without_terminator_is_unterminated() {
    let mut buf = pixel_block(1, 1, &[9, 9, 9]);
    let base = buf.len() as u32;
    buf.extend(directory_entry(1, 1, 0));
    buf.extend(directory_entry(2, 1, 0));
    assert_eq!(decode_bitmaps(&buf, base), Err(DecodeError::UnterminatedList));
    buf.extend_from_slice(&[0, 0, 0]);
    assert_eq!(decode_bitmaps(&buf, base), Err(DecodeError::UnterminatedList));
}

#[test]
fn directory_entry_cut_after_its_key_is_truncated() {
    let mut buf = directory_entry(1, 1, 0);
    buf.truncate(7);
    assert_eq!(decode_bitmaps(&buf, 0), Err(DecodeError::Truncated));
}

#[test]
fn bitmap_offset_past_end_is_out_of_range() {
    let mut buf = directory_entry(1, 1, 17);
    buf.extend(directory_entry(0, 0, 0));
    assert_eq!(buf.len(), 16);
    assert_eq!(decode_bitmaps(&buf, 0), Err(DecodeError::OffsetOutOfRange));
    let mut buf = pixel_block(0, 0, &[]);
    buf.extend(directory_entry(1, 1, 0));
    buf.extend(directory_entry(2, 2, u32::MAX));
    buf.extend(directory_entry(0, 0, 0));
    assert_eq!(decode_bitmaps(&buf, 8), Err(DecodeError::OffsetOutOfRange));
}

#[test]
fn bitmap_directory_offset_past_end_is_out_of_range() {
    let buf = directory_entry(0, 0, 0);
    assert_eq!(decode_bitmaps(&buf, 9), Err(DecodeError::OffsetOutOfRange));
    assert_eq!(decode_bitmaps(&buf, 8), Err(DecodeError::UnterminatedList));
}

#[test]
fn bitmap_directory_over_the_entry_limit_is_unterminated() {
    let mut buf = pixel_block(0, 0, &[]);
    for _ in 0..MAX_ENTRIES {
        buf.extend(directory_entry(1, 1, 0));
    }
    let mut at_limit = buf.clone();
    at_limit.extend(directory_entry(0, 0, 0));
    assert_eq!(decode_bitmaps(&at_limit, 8).unwrap().len(), 100_000);
    buf.extend(directory_entry(1, 1, 0));
    buf.extend(directory_entry(0, 0, 0));
    assert_eq!(decode_bitmaps(&buf, 8), Err(DecodeError::UnterminatedList));
}
