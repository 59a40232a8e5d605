use kolibri_skin::tile::dup_image_horiz;

fn pixel(tag: u8) -> [u8; 4] {
    [tag, tag + 1, tag + 2, 255]
}

#[test]
fn tiling_repeats_each_row() {
    let mut data = Vec::new();
    for tag in [10u8, 20, 30, 40] {
        data.extend_from_slice(&pixel(tag));
    }
    let out = dup_image_horiz(&data, 2, 2, 5);
    let mut expected = Vec::new();
    for tag in [10u8, 20, 10, 20, 10, 30, 40, 30, 40, 30] {
        expected.extend_from_slice(&pixel(tag));
    }
    assert_eq!(out, expected);
}

#[test]
fn tiling_to_the_same_width_copies() {
    let data: Vec<u8> = (0u8..24).collect();
    assert_eq!(dup_image_horiz(&data, 3, 2, 3), data);
}

#[test]
fn tiling_to_a_smaller_width_crops() {
    let data: Vec<u8> = (0u8..24).collect();
    let out = dup_image_horiz(&data, 3, 2, 1);
    assert_eq!(out, vec![0, 1, 2, 3, 12, 13, 14, 15]);
}

#[test]
fn tiling_a_single_pixel_fills_the_row() {
    let out = dup_image_horiz(&[1, 2, 3, 4], 1, 1, 3);
    assert_eq!(out, vec![1, 2, 3, 4, 1, 2, 3, 4, 1, 2, 3, 4]);
    assert_eq!(out.len(), 3 * 1 * 4);
}
