//! From stored color triples to four-channel pixels.

use vstd::prelude::*;

verus! {

/// The pixels that a run of (blue, green, red) triples stands for: for each
/// whole triple, four bytes (red, green, blue, 255). Bytes after the last
/// whole triple stand for nothing.
pub open spec fn expand_bgr(triples: Seq<u8>) -> Seq<u8> {
    Seq::new(
        (triples.len() / 3 * 4) as nat,
        |i: int|
            if i % 4 == 3 {
                255u8
            } else {
                triples[i / 4 * 3 + (2 - i % 4)]
            },
    )
}

/// Each pixel of `expand_bgr`, channel by channel.
pub proof fn lemma_expand_bgr_pixel(triples: Seq<u8>, k: int)
    requires
        0 <= k < triples.len() / 3,
    ensures
        expand_bgr(triples).len() == triples.len() / 3 * 4,
        expand_bgr(triples)[4 * k] == triples[3 * k + 2],
        expand_bgr(triples)[4 * k + 1] == triples[3 * k + 1],
        expand_bgr(triples)[4 * k + 2] == triples[3 * k],
        expand_bgr(triples)[4 * k + 3] == 255,
{
}

/// Expands stored (blue, green, red) triples to (red, green, blue, alpha)
/// pixels with full opacity.
pub fn expand_pixels(triples: &[u8]) -> (pixels: Vec<u8>)
    ensures
        pixels@ == expand_bgr(triples@),
{
    let count: usize = triples.len() / 3;
    let mut pixels: Vec<u8> = Vec::new();
    let mut k: usize = 0;
    while k < count
        invariant
            k <= count,
            count == triples@.len() / 3,
            3 * count <= triples@.len() <= usize::MAX,
            pixels@.len() == 4 * k,
            forall|i: int| 0 <= i < 4 * k ==> pixels@[i] == expand_bgr(triples@)[i],
        decreases count - k,
    {
        let blue: u8 = triples[3 * k];
        let green: u8 = triples[3 * k + 1];
        let red: u8 = triples[3 * k + 2];
        proof {
            lemma_expand_bgr_pixel(triples@, k as int);
        }
        pixels.push(red);
        pixels.push(green);
        pixels.push(blue);
        pixels.push(255);
        k = k + 1;
    }
    assert(pixels@ =~= expand_bgr(triples@));
    pixels
}

} // verus!
