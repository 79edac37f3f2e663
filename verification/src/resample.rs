//! Resampling of a colour image to new dimensions. The interpolation itself
//! is the `image` crate's; this module states what the rest of the library
//! relies on.

use vstd::prelude::*;

verus! {

/// What the library relies on when `out` are the samples that come back
/// from resampling the four-channel image `source` of `width`×`height` to
/// `new_width`×`new_height`: there are four samples for every new pixel; an
/// image resampled to its own dimensions is unchanged; and an image without
/// pixels gives samples that are all zero.
pub open spec fn is_resampling(
    out: Seq<u8>,
    source: Seq<u8>,
    width: int,
    height: int,
    new_width: int,
    new_height: int,
) -> bool {
    &&& out.len() == new_width * new_height * 4
    &&& (new_width == width && new_height == height) ==> out == source
    &&& (width == 0 || height == 0) ==> forall|k: int| 0 <= k < out.len() ==> out[k] == 0
}

/// The longest side, in pixels, that the library hands to the resampler:
/// 2^23.
pub const MAX_RESAMPLED_SIDE: u32 = 8_388_608;

/// The resampler can be called for these dimensions.
///
/// * No side exceeds `MAX_RESAMPLED_SIDE`.
/// * An image with pixels is not enlarged, and keeps at least one pixel
///   each way.
/// * The buffers that the call allocates stay within what a vector can
///   hold: one of four `f32` samples for each of `width`×`new_height`
///   pixels, and the result.
pub open spec fn resampling_admitted(
    width: int,
    height: int,
    new_width: int,
    new_height: int,
) -> bool {
    &&& width <= MAX_RESAMPLED_SIDE
    &&& height <= MAX_RESAMPLED_SIDE
    &&& new_width <= MAX_RESAMPLED_SIDE
    &&& new_height <= MAX_RESAMPLED_SIDE
    &&& (width == 0 || height == 0) || (1 <= new_width <= width && 1 <= new_height <= height)
    &&& width * new_height * 16 <= isize::MAX
    &&& new_width * new_height * 4 <= isize::MAX
}

/// Calls `image::imageops::resize` with `FilterType::Lanczos3` on a buffer of
/// `Rgba<u8>` pixels (`ImageBuffer::from_raw` before it, `into_raw` after).
///
/// Not proved, taken from the crate's source: the buffer returned has the
/// dimensions asked for; when they are the dimensions of the input the
/// pixels are copied instead of resampled; when the input has no pixels the
/// buffer is freshly zeroed.
///
/// The preconditions are there to keep the call from panicking.
///
/// * The input buffer is exactly as large as its dimensions say, and with
///   sides of at most 2^23 the products that `from_raw` checks fit a machine
///   word whenever the buffer exists.
/// * The buffers allocated are within what a vector can hold.
/// * The call divides each output sample by the sum of the filter weights of
///   its window and unwraps the conversion of the result to `u8`, which fails
///   on a NaN. So the sum must not vanish. The crate computes the window in
///   `f32`. With sides of at most 2^23 every row and column index, and every
///   index plus one half, is exact in `f32`; the ratio of the two lengths is
///   off by at most one part in 2^24 and the product by half a unit in the
///   last place, so the centre of a window is off by less than 0.75 pixel.
///   Since the image is not enlarged, the true centre lies between the first
///   and the last source pixel; hence some source pixel lies within 0.75
///   pixel of the computed centre, inside the window, where the kernel is at
///   least 0.27. The kernel is negative only on its first side lobes, where
///   it stays below 0.14 in size. That these never cancel the main lobe is
///   argued from the shape of the kernel, not derived line by line.
#[verifier::external_body]
pub(crate) fn resize_lanczos3(
    data: &Vec<u8>,
    width: u32,
    height: u32,
    new_width: u32,
    new_height: u32,
) -> (out: Vec<u8>)
    requires
        data@.len() == width * height * 4,
        resampling_admitted(width as int, height as int, new_width as int, new_height as int),
    ensures
        is_resampling(
            out@,
            data@,
            width as int,
            height as int,
            new_width as int,
            new_height as int,
        ),
{
    let source = image::ImageBuffer::<image::Rgba<u8>, &[u8]>::from_raw(
        width,
        height,
        data.as_slice(),
    ).unwrap();
    image::imageops::resize(
        &source,
        new_width,
        new_height,
        image::imageops::FilterType::Lanczos3,
    ).into_raw()
}

} // verus!
