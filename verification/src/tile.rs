//! Repeating an image sideways to a new width.

use vstd::arithmetic::div_mod::lemma_fundamental_div_mod_converse;
use vstd::prelude::*;

verus! {

/// Where byte `i` of an image tiled to `target_width` pixels per row comes
/// from in the image of `width` pixels per row: the same row and channel,
/// and the column taken modulo `width`.
pub open spec fn tile_source(i: int, width: int, target_width: int) -> int {
    let pixel = i / 4;
    let row = pixel / target_width;
    let col = pixel % target_width;
    (row * width + col % width) * 4 + i % 4
}

/// The image `data`, of `width` by `height` pixels of four bytes, repeated
/// sideways until each row has `target_width` pixels.
pub open spec fn tiled(data: Seq<u8>, width: int, height: int, target_width: int) -> Seq<u8> {
    Seq::new(
        (target_width * height * 4) as nat,
        |i: int| data[tile_source(i, width, target_width)],
    )
}

/// The byte of a tiled image at a row, a column and a channel is the byte
/// of the source at the same row and channel, in the column taken modulo
/// the source's width; and that byte exists.
pub proof fn lemma_tiled_pixel(
    data: Seq<u8>,
    width: int,
    height: int,
    target_width: int,
    row: int,
    col: int,
    channel: int,
)
    requires
        width > 0,
        height > 0,
        target_width > 0,
        data.len() == width * height * 4,
        0 <= row < height,
        0 <= col < target_width,
        0 <= channel < 4,
    ensures
        tiled(data, width, height, target_width).len() == target_width * height * 4,
        0 <= (row * target_width + col) * 4 + channel < target_width * height * 4,
        0 <= (row * width + col % width) * 4 + channel < data.len(),
        tiled(data, width, height, target_width)[(row * target_width + col) * 4 + channel]
            == data[(row * width + col % width) * 4 + channel],
{
    let pixel = row * target_width + col;
    let i = pixel * 4 + channel;
    lemma_fundamental_div_mod_converse(pixel, target_width, row, col);
    assert(i / 4 == pixel && i % 4 == channel);
    assert(tile_source(i, width, target_width) == (row * width + col % width) * 4 + channel);
    assert(0 <= pixel < target_width * height) by (nonlinear_arith)
        requires
            pixel == row * target_width + col,
            0 <= row < height,
            0 <= col < target_width,
    ;
    assert(0 <= target_width * height) by (nonlinear_arith)
        requires
            target_width > 0,
            height > 0,
    ;
    let source_col = col % width;
    assert(0 <= row * width + source_col < width * height) by (nonlinear_arith)
        requires
            0 <= row < height,
            0 <= source_col < width,
    ;
}

/// Repeats an image of `width` by `height` four-byte pixels sideways until
/// each row has `target_width` pixels.
pub fn dup_image_horiz(data: &[u8], width: usize, height: usize, target_width: usize) -> (out:
    Vec<u8>)
    requires
        data@.len() == width * height * 4,
        width > 0,
        height > 0,
        target_width > 0,
        target_width * height * 4 <= usize::MAX,
    ensures
        out@ == tiled(data@, width as int, height as int, target_width as int),
        out@.len() == target_width * height * 4,
{
    assert(target_width * height <= target_width * height * 4 && 0 <= target_width * height)
        by (nonlinear_arith)
        requires
            target_width > 0,
            height > 0,
    ;
    assert(data@.len() == data.len());
    let mut out: Vec<u8> = Vec::with_capacity(target_width * height * 4);
    let mut row: usize = 0;
    while row < height
        invariant
            row <= height,
            width > 0,
            height > 0,
            target_width > 0,
            data@.len() == width * height * 4,
            data@.len() <= usize::MAX,
            target_width * height * 4 <= usize::MAX,
            out@.len() == row * target_width * 4,
            forall|i: int|
                0 <= i < out@.len() ==> out@[i] == data@[tile_source(
                    i,
                    width as int,
                    target_width as int,
                )],
        decreases height - row,
    {
        let mut col: usize = 0;
        while col < target_width
            invariant
                row < height,
                col <= target_width,
                width > 0,
                height > 0,
                target_width > 0,
                data@.len() == width * height * 4,
                data@.len() <= usize::MAX,
                target_width * height * 4 <= usize::MAX,
                out@.len() == (row * target_width + col) * 4,
                forall|i: int|
                    0 <= i < out@.len() ==> out@[i] == data@[tile_source(
                        i,
                        width as int,
                        target_width as int,
                    )],
            decreases target_width - col,
        {
            let source_col: usize = col % width;
            let ghost pixel = row * target_width + col;
            proof {
                lemma_tiled_pixel(
                    data@,
                    width as int,
                    height as int,
                    target_width as int,
                    row as int,
                    col as int,
                    3,
                );
                lemma_fundamental_div_mod_converse(
                    pixel,
                    target_width as int,
                    row as int,
                    col as int,
                );
                assert(0 <= row * width <= row * width + source_col) by (nonlinear_arith)
                    requires
                        0 <= row,
                        0 < width,
                        0 <= source_col,
                ;
            }
            let source_index: usize = (row * width + source_col) * 4;
            out.push(data[source_index]);
            out.push(data[source_index + 1]);
            out.push(data[source_index + 2]);
            out.push(data[source_index + 3]);
            proof {
                assert forall|i: int| 0 <= i < out@.len() implies out@[i] == data@[tile_source(
                    i,
                    width as int,
                    target_width as int,
                )] by {
                    if i >= pixel * 4 {
                        assert(i / 4 == pixel);
                        assert(tile_source(i, width as int, target_width as int) == source_index
                            + i % 4);
                    }
                }
            }
            col = col + 1;
        }
        proof {
            assert((row * target_width + target_width) * 4 == (row + 1) * target_width * 4)
                by (nonlinear_arith);
        }
        row = row + 1;
    }
    proof {
        assert(height * target_width * 4 == target_width * height * 4) by (nonlinear_arith);
    }
    assert(out@ =~= tiled(data@, width as int, height as int, target_width as int));
    out
}

} // verus!
