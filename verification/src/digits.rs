//! Packing grayscale digit images into binary row masks.
//!
//! A digit sample is a square of one-byte pixels. Each row is folded into
//! one integer: walking the columns left to right, a set bit is shifted in
//! for every nonzero pixel, and the whole row is shifted once more at each
//! step, exactly as the fold below states. The caller supplies the raw
//! pixel buffers, one per digit, already read from storage.

use vstd::prelude::*;

verus! {

/// How many digit samples one raw data buffer holds.
pub const DIGIT_COUNT: usize = 1000;

/// The pixel width and height of one digit sample.
pub const DIGIT_SIZE: usize = 28;

/// The byte length of one digit sample.
pub const DIGIT_BUFFER_SIZE: usize = DIGIT_SIZE * DIGIT_SIZE;

/// The bit shifted in for one pixel: one when the pixel is lit.
pub open spec fn bit_of(px: u8) -> u32 {
    if px > 0 {
        1u32
    } else {
        0u32
    }
}

/// The packed accumulator after the first `n` pixels of a row: at each
/// step the pixel's bit is or-ed in and the accumulator shifts left once.
pub open spec fn pack_prefix(pixels: Seq<u8>, n: int) -> u32
    decreases n,
{
    if n <= 0 {
        0u32
    } else {
        (pack_prefix(pixels, n - 1) | bit_of(pixels[n - 1])) << 1
    }
}

/// Row `r` of a raw digit buffer.
pub open spec fn row_pixels(img: Seq<u8>, r: int) -> Seq<u8> {
    img.subrange(r * (DIGIT_SIZE as int), r * (DIGIT_SIZE as int) + DIGIT_SIZE as int)
}

/// The packed row mask of row `r` of a raw digit buffer.
pub open spec fn packed_row(img: Seq<u8>, r: int) -> i32 {
    pack_prefix(row_pixels(img, r), DIGIT_SIZE as int) as i32
}

/// Every digit buffer packed into its row masks, one mask per pixel row.
pub fn get_bin_digits(image_data: &Vec<Vec<u8>>) -> (digits: Vec<Vec<i32>>)
    requires
        image_data@.len() == DIGIT_COUNT,
        forall|d: int|
            0 <= d < image_data@.len() ==> (#[trigger] image_data@[d])@.len() == DIGIT_BUFFER_SIZE,
    ensures
        digits@.len() == DIGIT_COUNT,
        forall|d: int| 0 <= d < DIGIT_COUNT ==> (#[trigger] digits@[d])@.len() == DIGIT_SIZE,
        forall|d: int, r: int|
            0 <= d < DIGIT_COUNT && 0 <= r < DIGIT_SIZE ==> #[trigger] (digits@[d])@[r]
                == packed_row(image_data@[d]@, r),
{
    let mut digits: Vec<Vec<i32>> = Vec::new();
    let mut d: usize = 0;
    while d < DIGIT_COUNT
        invariant
            image_data@.len() == DIGIT_COUNT,
            forall|q: int|
                0 <= q < image_data@.len() ==> (#[trigger] image_data@[q])@.len()
                    == DIGIT_BUFFER_SIZE,
            0 <= d <= DIGIT_COUNT,
            digits@.len() == d,
            forall|q: int| 0 <= q < d ==> (#[trigger] digits@[q])@.len() == DIGIT_SIZE,
            forall|q: int, r: int|
                0 <= q < d && 0 <= r < DIGIT_SIZE ==> #[trigger] (digits@[q])@[r] == packed_row(
                    image_data@[q]@,
                    r,
                ),
        decreases DIGIT_COUNT - d,
    {
        let img: &Vec<u8> = &image_data[d];
        let mut rows: Vec<i32> = Vec::new();
        let mut r: usize = 0;
        while r < DIGIT_SIZE
            invariant
                img@.len() == DIGIT_BUFFER_SIZE,
                0 <= r <= DIGIT_SIZE,
                rows@.len() == r,
                forall|q: int| 0 <= q < r ==> rows@[q] == packed_row(img@, q),
            decreases DIGIT_SIZE - r,
        {
            proof {
                assert(r * (DIGIT_SIZE as int) + DIGIT_SIZE <= DIGIT_BUFFER_SIZE)
                    by (nonlinear_arith)
                    requires
                        0 <= r < DIGIT_SIZE,
                        DIGIT_SIZE == 28,
                        DIGIT_BUFFER_SIZE == 784,
                ;
            }
            let mut d_row: u32 = 0;
            let mut c: usize = 0;
            while c < DIGIT_SIZE
                invariant
                    img@.len() == DIGIT_BUFFER_SIZE,
                    0 <= r < DIGIT_SIZE,
                    0 <= c <= DIGIT_SIZE,
                    r * (DIGIT_SIZE as int) + DIGIT_SIZE <= DIGIT_BUFFER_SIZE,
                    d_row == pack_prefix(row_pixels(img@, r as int), c as int),
                decreases DIGIT_SIZE - c,
            {
                proof {
                    assert(row_pixels(img@, r as int)[c as int] == img@[r * (DIGIT_SIZE as int)
                        + c]);
                }
                let px: u8 = img[r * DIGIT_SIZE + c];
                let bit: u32 = if px > 0 {
                    1u32
                } else {
                    0u32
                };
                d_row = (d_row | bit) << 1u32;
                c = c + 1;
            }
            #[verifier::truncate]
            let packed: i32 = d_row as i32;
            rows.push(packed);
            r = r + 1;
        }
        digits.push(rows);
        d = d + 1;
    }
    digits
}

} // verus!
