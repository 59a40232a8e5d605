use kolibri_skin::decode::{
    build_skin, decode_container, decode_skin, decode_unpacked, detect, Signature,
};
use kolibri_skin::error::DecodeError;
use kolibri_skin::header::{decode_header, SkinHeader};
use kolibri_skin::model::{
    Skin, SkinBitmap, SkinButton, SkinFrameColors, SkinMargin, SkinParams, SkinSystemColors,
};
use kolibri_skin::params::decode_params;

fn put_u16(buf: &mut [u8], at: usize, value: u16) {
    buf[at..at + 2].copy_from_slice(&value.to_le_bytes());
}

fn put_u32(buf: &mut [u8], at: usize, value: u32) {
    buf[at..at + 4].copy_from_slice(&value.to_le_bytes());
}

fn header(version: u32, params: u32, buttons: u32, bitmaps: u32) -> Vec<u8> {
    let mut buf = vec![0u8; 20];
    buf[0..4].copy_from_slice(b"SKIN");
    put_u32(&mut buf, 4, version);
    put_u32(&mut buf, 8, params);
    put_u32(&mut buf, 12, buttons);
    put_u32(&mut buf, 16, bitmaps);
    buf
}

fn minimal_container() -> Vec<u8> {
    let mut buf = header(1, 20, 60, 80);
    buf.resize(100, 0);
    put_u16(&mut buf, 24, 1);
    put_u16(&mut buf, 26, 2);
    put_u16(&mut buf, 28, 3);
    put_u16(&mut buf, 30, 4);
    buf
}

fn zero_colors() -> SkinFrameColors {
    SkinFrameColors { inner: 0, outer: 0, frame: 0 }
}

fn zero_palette() -> SkinSystemColors {
    SkinSystemColors {
        taskbar: 0,
        taskbar_text: 0,
        work_dark: 0,
        work_light: 0,
        window_title: 0,
        work: 0,
        work_button: 0,
        work_button_text: 0,
        work_text: 0,
        work_graph: 0,
    }
}

fn rich_skin() -> Skin {
    Skin {
        version: 0x0102_0304,
        margin: SkinMargin { right: 0x1122, left: 0x3344, bottom: 0x5566, top: 0x7788 },
        active: SkinFrameColors { inner: 0x00A1_A2A3, outer: 0x00B1_B2B3, frame: 0x00C1_C2C3 },
        inactive: SkinFrameColors { inner: 0xD1D2_D3D4, outer: 0xE1E2_E3E4, frame: 0xF1F2_F3F4 },
        system_colors: SkinSystemColors {
            taskbar: 1,
            taskbar_text: 2,
            work_dark: 3,
            work_light: 4,
            window_title: 5,
            work: 6,
            work_button: 7,
            work_button_text: 8,
            work_text: 9,
            work_graph: 0xFFFF_FFFF,
        },
        buttons: vec![
            SkinButton { btntype: 1, left: 0xFFEB, top: 2, width: 18, height: 18 },
            SkinButton { btntype: 0xFFFF_FFFF, left: 0xFFD8, top: 2, width: 18, height: 0 },
        ],
        bitmaps: vec![
            SkinBitmap {
                kind: 1,
                bmptype: 1,
                width: 2,
                height: 2,
                data: vec![1, 2, 3, 255, 4, 5, 6, 255, 7, 8, 9, 255, 10, 11, 12, 255],
            },
            SkinBitmap { kind: 3, bmptype: 0, width: 1, height: 1, data: vec![0x30, 0x20, 0x10, 255] },
            SkinBitmap { kind: 2, bmptype: 1, width: 0, height: 5, data: vec![] },
        ],
    }
}

/// Lays `skin` out as a container: the directory first, then the pixel
/// blocks, the buttons and, last, the parameters.
fn layout(skin: &Skin) -> Vec<u8> {
    let mut buf = vec![0u8; 20];
    buf[0..4].copy_from_slice(b"SKIN");
    put_u32(&mut buf, 4, skin.version);

    let bitmaps_base = buf.len();
    buf.resize(bitmaps_base + 8 * skin.bitmaps.len() + 8, 0);
    for (i, bitmap) in skin.bitmaps.iter().enumerate() {
        let block = buf.len() as u32;
        put_u16(&mut buf, bitmaps_base + 8 * i, bitmap.kind);
        put_u16(&mut buf, bitmaps_base + 8 * i + 2, bitmap.bmptype);
        put_u32(&mut buf, bitmaps_base + 8 * i + 4, block);
        buf.extend_from_slice(&bitmap.width.to_le_bytes());
        buf.extend_from_slice(&bitmap.height.to_le_bytes());
        for pixel in bitmap.data.chunks(4) {
            buf.extend_from_slice(&[pixel[2], pixel[1], pixel[0]]);
        }
    }

    let buttons_base = buf.len();
    for button in &skin.buttons {
        buf.extend_from_slice(&button.btntype.to_le_bytes());
        buf.extend_from_slice(&button.left.to_le_bytes());
        buf.extend_from_slice(&button.top.to_le_bytes());
        buf.extend_from_slice(&button.width.to_le_bytes());
        buf.extend_from_slice(&button.height.to_le_bytes());
    }
    buf.extend_from_slice(&[0, 0, 0, 0]);

    let params_base = buf.len();
    buf.extend_from_slice(&[0xEE; 4]);
    for edge in [skin.margin.right, skin.margin.left, skin.margin.bottom, skin.margin.top] {
        buf.extend_from_slice(&edge.to_le_bytes());
    }
    for colors in [&skin.active, &skin.inactive] {
        for color in [colors.inner, colors.outer, colors.frame] {
            buf.extend_from_slice(&color.to_le_bytes());
        }
    }
    buf.extend_from_slice(&0xDEAD_BEEFu32.to_le_bytes());
    let palette = &skin.system_colors;
    for color in [
        palette.taskbar,
        palette.taskbar_text,
        palette.work_dark,
        palette.work_light,
        palette.window_title,
        palette.work,
        palette.work_button,
        palette.work_button_text,
        palette.work_text,
        palette.work_graph,
    ] {
        buf.extend_from_slice(&color.to_le_bytes());
    }

    put_u32(&mut buf, 8, params_base as u32);
    put_u32(&mut buf, 12, buttons_base as u32);
    put_u32(&mut buf, 16, bitmaps_base as u32);
    buf
}

/// Lays `skin` out in file order: the header, the parameters, the
/// buttons, the directory and, last, the pixel blocks.
fn layout_in_order(skin: &Skin) -> Vec<u8> {
    let mut buf = vec![0u8; 24];
    buf[0..4].copy_from_slice(b"SKIN");
    put_u32(&mut buf, 4, skin.version);
    put_u32(&mut buf, 8, 20);
    put_u32(&mut buf, 12, 100);
    put_u32(&mut buf, 16, 104 + 12 * skin.buttons.len() as u32);
    for edge in [skin.margin.right, skin.margin.left, skin.margin.bottom, skin.margin.top] {
        buf.extend_from_slice(&edge.to_le_bytes());
    }
    for colors in [&skin.active, &skin.inactive] {
        for color in [colors.inner, colors.outer, colors.frame] {
            buf.extend_from_slice(&color.to_le_bytes());
        }
    }
    buf.extend_from_slice(&[0, 0, 0, 0]);
    let palette = &skin.system_colors;
    for color in [
        palette.taskbar,
        palette.taskbar_text,
        palette.work_dark,
        palette.work_light,
        palette.window_title,
        palette.work,
        palette.work_button,
        palette.work_button_text,
        palette.work_text,
        palette.work_graph,
    ] {
        buf.extend_from_slice(&color.to_le_bytes());
    }
    assert_eq!(buf.len(), 100);
    for button in &skin.buttons {
        buf.extend_from_slice(&button.btntype.to_le_bytes());
        buf.extend_from_slice(&button.left.to_le_bytes());
        buf.extend_from_slice(&button.top.to_le_bytes());
        buf.extend_from_slice(&button.width.to_le_bytes());
        buf.extend_from_slice(&button.height.to_le_bytes());
    }
    buf.extend_from_slice(&[0, 0, 0, 0]);
    let mut block = buf.len() + 8 * skin.bitmaps.len() + 4;
    for bitmap in &skin.bitmaps {
        buf.extend_from_slice(&bitmap.kind.to_le_bytes());
        buf.extend_from_slice(&bitmap.bmptype.to_le_bytes());
        buf.extend_from_slice(&(block as u32).to_le_bytes());
        block += 8 + bitmap.data.len() / 4 * 3;
    }
    buf.extend_from_slice(&[0, 0, 0, 0]);
    for bitmap in &skin.bitmaps {
        buf.extend_from_slice(&bitmap.width.to_le_bytes());
        buf.extend_from_slice(&bitmap.height.to_le_bytes());
        for pixel in bitmap.data.chunks(4) {
            buf.extend_from_slice(&[pixel[2], pixel[1], pixel[0]]);
        }
    }
    buf
}

fn envelope_of(container: &[u8]) -> Vec<u8> {
    let mut buf = b"KPCK".to_vec();
    buf.extend(container.iter().map(|b| b ^ 0x5A));
    buf
}

fn unmask(payload: &[u8]) -> Option<Vec<u8>> {
    Some(payload.iter().map(|b| b ^ 0x5A).collect())
}

fn never_called(_payload: &[u8]) -> Option<Vec<u8>> {
    panic!("a container has no payload to inflate")
}

#[test]
fn minimal_container_decodes() {
    let buf = minimal_container();
    let skin = decode_container(&buf).unwrap();
    assert_eq!(
        skin,
        Skin {
            version: 1,
            margin: SkinMargin { right: 1, left: 2, bottom: 3, top: 4 },
            active: zero_colors(),
            inactive: zero_colors(),
            system_colors: zero_palette(),
            buttons: vec![],
            bitmaps: vec![],
        }
    );
    assert_eq!(decode_skin(&buf, never_called), Ok(skin));
}

#[test]
fn synthetic_container_decodes_field_for_field() {
    let skin = rich_skin();
    let buf = layout(&skin);
    assert_eq!(decode_container(&buf), Ok(skin.clone()));
    assert_eq!(decode_skin(&buf, never_called), Ok(skin));
}

#[test]
fn container_in_file_order_decodes_field_for_field() {
    let skin = rich_skin();
    let buf = layout_in_order(&skin);
    assert_eq!(buf.len(), 100 + 2 * 12 + 4 + 3 * 8 + 4 + (8 + 12) + (8 + 3) + 8);
    assert_eq!(decode_container(&buf), Ok(skin));
    let plain = Skin {
        version: 0,
        margin: SkinMargin { right: 0, left: 0, bottom: 0, top: 0 },
        active: zero_colors(),
        inactive: zero_colors(),
        system_colors: zero_palette(),
        buttons: vec![],
        bitmaps: vec![],
    };
    let buf = layout_in_order(&plain);
    assert_eq!(buf.len(), 108);
    assert_eq!(decode_container(&buf), Ok(plain));
}

#[test]
fn every_bitmap_has_four_bytes_per_pixel() {
    let skin = decode_container(&layout(&rich_skin())).unwrap();
    assert_eq!(skin.bitmaps.len(), 3);
    for bitmap in &skin.bitmaps {
        assert_eq!(bitmap.data.len(), bitmap.width as usize * bitmap.height as usize * 4);
        assert!(bitmap.data.chunks(4).all(|pixel| pixel[3] == 255));
    }
}

#[test]
fn header_decodes() {
    let buf = header(7, 0x100, 0xFFFF_FFFF, 0);
    assert_eq!(
        decode_header(&buf),
        Ok(SkinHeader { version: 7, params_base: 0x100, buttons_base: 0xFFFF_FFFF, bitmaps_base: 0 })
    );
}

#[test]
fn short_buffer_is_truncated() {
    let bytes = *b"SKIN";
    for len in 0..4 {
        assert_eq!(decode_container(&bytes[..len]), Err(DecodeError::Truncated));
        assert_eq!(decode_skin(&bytes[..len], never_called), Err(DecodeError::Truncated));
        assert_eq!(decode_header(&bytes[..len]), Err(DecodeError::Truncated));
        assert_eq!(detect(&bytes[..len]), Err(DecodeError::Truncated));
    }
}

#[test]
fn cut_header_is_truncated() {
    let buf = header(1, 20, 60, 80);
    for len in 4..20 {
        assert_eq!(decode_header(&buf[..len]), Err(DecodeError::Truncated));
        assert_eq!(decode_container(&buf[..len]), Err(DecodeError::Truncated));
    }
}

#[test]
fn foreign_signature_is_bad_magic() {
    let mut buf = minimal_container();
    buf[0..4].copy_from_slice(b"SKIM");
    assert_eq!(decode_container(&buf), Err(DecodeError::BadMagic));
    assert_eq!(decode_skin(&buf, never_called), Err(DecodeError::BadMagic));
    assert_eq!(detect(&buf), Err(DecodeError::BadMagic));
    assert_eq!(detect(b"NIKS"), Err(DecodeError::BadMagic));
}

#[test]
fn signatures_are_told_apart() {
    assert_eq!(detect(b"SKIN"), Ok(Signature::Container));
    assert_eq!(detect(b"KPCK and more"), Ok(Signature::Envelope));
    assert_eq!(detect(&minimal_container()), Ok(Signature::Container));
}

#[test]
fn params_skip_the_pad_and_the_reserved_field() {
    let skin = rich_skin();
    let buf = layout(&skin);
    let base = u32::from_le_bytes([buf[8], buf[9], buf[10], buf[11]]);
    assert_eq!(
        decode_params(&buf, base),
        Ok(SkinParams {
            margin: skin.margin,
            active: skin.active,
            inactive: skin.inactive,
            system_colors: skin.system_colors,
        })
    );
}

#[test]
fn cut_params_are_truncated() {
    let buf = vec![0u8; 80];
    assert_eq!(decode_params(&buf, 0).map(|p| p.margin.right), Ok(0));
    assert_eq!(decode_params(&buf[..79], 0), Err(DecodeError::Truncated));
    assert_eq!(decode_params(&buf, 1), Err(DecodeError::Truncated));
    assert_eq!(decode_params(&buf, 76), Err(DecodeError::Truncated));
}

#[test]
fn params_offset_past_end_is_out_of_range() {
    let buf = vec![0u8; 80];
    assert_eq!(decode_params(&buf, 77), Err(DecodeError::OffsetOutOfRange));
    assert_eq!(decode_params(&buf, u32::MAX), Err(DecodeError::OffsetOutOfRange));
    assert_eq!(decode_params(&[0u8; 3], 0), Err(DecodeError::OffsetOutOfRange));
}

#[test]
fn first_failing_section_decides_the_error() {
    let mut buf = minimal_container();
    put_u32(&mut buf, 16, 101);
    assert_eq!(decode_container(&buf), Err(DecodeError::OffsetOutOfRange));
    put_u32(&mut buf, 12, 98);
    assert_eq!(decode_container(&buf), Err(DecodeError::UnterminatedList));
    put_u32(&mut buf, 8, 21);
    assert_eq!(decode_container(&buf), Err(DecodeError::Truncated));
}

#[test]
fn container_with_unterminated_buttons_fails() {
    let mut buf = minimal_container();
    put_u32(&mut buf, 12, 100);
    assert_eq!(decode_container(&buf), Err(DecodeError::UnterminatedList));
}

#[test]
fn container_with_bitmap_offset_past_end_fails() {
    let mut buf = minimal_container();
    buf.resize(116, 0);
    put_u32(&mut buf, 16, 100);
    put_u16(&mut buf, 100, 1);
    put_u16(&mut buf, 102, 1);
    put_u32(&mut buf, 104, 117);
    assert_eq!(decode_container(&buf), Err(DecodeError::OffsetOutOfRange));
    put_u32(&mut buf, 104, 108);
    assert_eq!(decode_container(&buf).map(|s| s.bitmaps.len()), Ok(1));
}

#[test]
fn envelope_decodes_like_its_container() {
    for container in [minimal_container(), layout(&rich_skin())] {
        let envelope = envelope_of(&container);
        let direct = decode_container(&container);
        assert!(direct.is_ok());
        assert_eq!(decode_skin(&envelope, unmask), direct);
        assert_eq!(decode_unpacked(unmask(&envelope[4..])), direct);
    }
}

#[test]
fn envelope_hands_over_the_bytes_after_the_signature() {
    let envelope = b"KPCKpayload".to_vec();
    let seen = std::cell::RefCell::new(Vec::new());
    let result = decode_skin(&envelope, |payload: &[u8]| {
        seen.borrow_mut().extend_from_slice(payload);
        None
    });
    assert_eq!(result, Err(DecodeError::DecompressionError));
    assert_eq!(seen.into_inner(), b"payload".to_vec());
}

#[test]
fn failed_inflate_is_a_decompression_error() {
    let envelope = envelope_of(&minimal_container());
    assert_eq!(decode_skin(&envelope, |_: &[u8]| None), Err(DecodeError::DecompressionError));
    assert_eq!(decode_unpacked(None), Err(DecodeError::DecompressionError));
    assert_eq!(decode_skin(b"KPCK", |_: &[u8]| None), Err(DecodeError::DecompressionError));
}

#[test]
fn envelope_in_an_envelope_is_bad_magic() {
    let twice = envelope_of(&envelope_of(&minimal_container()));
    assert_eq!(decode_skin(&twice, unmask), Err(DecodeError::BadMagic));
}

#[test]
fn inflated_garbage_fails_like_a_container() {
    assert_eq!(decode_unpacked(Some(vec![1, 2, 3])), Err(DecodeError::Truncated));
    assert_eq!(decode_unpacked(Some(b"JUNKJUNK".to_vec())), Err(DecodeError::BadMagic));
    assert_eq!(decode_unpacked(Some(b"SKIN".to_vec())), Err(DecodeError::Truncated));
}

#[test]
fn build_skin_keeps_every_part() {
    let skin = rich_skin();
    let params = SkinParams {
        margin: skin.margin,
        active: skin.active,
        inactive: skin.inactive,
        system_colors: skin.system_colors,
    };
    let built = build_skin(skin.version, params, skin.buttons.clone(), skin.bitmaps.clone());
    assert_eq!(built, skin);
}
