//! The pixel transform: luminance, the tiled threshold lookup, and the
//! quantisation of a colour image to pure black and white; and the engine
//! that resizes an image and then quantises it.

use crate::geometry::{larger, scaled_side, target_dimensions};
use crate::matrix::{
    bayer_matrix, bayer_threshold, generate_bayer_matrix, is_power_of_two, BayerMatrix,
    MAX_BAYER_ORDER,
};
use crate::raster::{OutputImage, PixelGrid, SourceImage};
use crate::geometry::{lemma_downscale_stays_within_limit, lemma_scaled_side_never_grows};
use crate::resample::{is_resampling, resize_lanczos3, MAX_RESAMPLED_SIDE};
use vstd::arithmetic::div_mod::{lemma_fundamental_div_mod_converse, lemma_mod_pos_bound};
use vstd::prelude::*;

verus! {

/// ITU-R BT.601 luma of a colour, `0.299 R + 0.587 G + 0.114 B`, truncated
/// to an integer.
pub open spec fn luminance(red: int, green: int, blue: int) -> int {
    (299 * red + 587 * green + 114 * blue) / 1000
}

/// The factor that brings thresholds of `1..=order²` to the range of a
/// sample: `256 / order²`, truncated.
pub open spec fn threshold_scale(order: int) -> int {
    256int / (order * order)
}

/// The threshold that pixel `(x, y)` is held against: the matrix is tiled
/// over the image, and its cell scaled by `threshold_scale`.
pub open spec fn scaled_threshold(order: int, x: int, y: int) -> int {
    bayer_threshold(order, y % order, x % order) * threshold_scale(order)
}

/// The output sample of a pixel: white if its luminance exceeds the
/// threshold at its place, else black.
pub open spec fn dithered_sample(order: int, x: int, y: int, red: u8, green: u8, blue: u8) -> u8 {
    if luminance(red as int, green as int, blue as int) > scaled_threshold(order, x, y) {
        255
    } else {
        0
    }
}

/// The luminance of pixel number `k` (row-major) of a four-channel grid.
pub open spec fn pixel_luminance(color: PixelGrid, k: int) -> int {
    luminance(
        color.samples[k * 4] as int,
        color.samples[k * 4 + 1] as int,
        color.samples[k * 4 + 2] as int,
    )
}

/// The single-channel grid that dithering a four-channel grid with the
/// matrix of side `order` gives: same dimensions, each pixel quantised.
pub open spec fn dithered(color: PixelGrid, order: int) -> PixelGrid {
    PixelGrid {
        width: color.width,
        height: color.height,
        samples: Seq::new(
            (color.width * color.height) as nat,
            |k: int|
                dithered_sample(
                    order,
                    k % color.width,
                    k / color.width,
                    color.samples[k * 4],
                    color.samples[k * 4 + 1],
                    color.samples[k * 4 + 2],
                ),
        ),
    }
}

/// Every sample of a dithered grid is black or white.
pub proof fn lemma_dithered_is_binary(color: PixelGrid, order: int)
    requires
        color.width >= 0,
        color.height >= 0,
    ensures
        forall|k: int|
            0 <= k < color.width * color.height ==> (#[trigger] dithered(color, order).samples[k])
                == 0 || dithered(color, order).samples[k] == 255,
{
    assert(0 <= color.width * color.height) by (nonlinear_arith)
        requires
            color.width >= 0,
            color.height >= 0,
    ;
}

/// On an image of one luminance the dither is a flat threshold test: if
/// every scaled threshold of the matrix lies below the luminance the output
/// is white throughout, and if none does it is black throughout.
pub proof fn lemma_uniform_luminance_flat_output(color: PixelGrid, order: int, level: int)
    requires
        is_power_of_two(order),
        color.width >= 0,
        color.height >= 0,
        forall|k: int|
            0 <= k < color.width * color.height ==> #[trigger] pixel_luminance(color, k) == level,
    ensures
        (forall|row: int, col: int|
            0 <= row < order && 0 <= col < order ==> #[trigger] bayer_threshold(order, row, col)
                * threshold_scale(order) < level) ==> (forall|k: int|
            0 <= k < color.width * color.height ==> #[trigger] dithered(color, order).samples[k]
                == 255),
        (forall|row: int, col: int|
            0 <= row < order && 0 <= col < order ==> #[trigger] bayer_threshold(order, row, col)
                * threshold_scale(order) >= level) ==> (forall|k: int|
            0 <= k < color.width * color.height ==> #[trigger] dithered(color, order).samples[k]
                == 0),
{
    assert(0 <= color.width * color.height) by (nonlinear_arith)
        requires
            color.width >= 0,
            color.height >= 0,
    ;
    assert forall|k: int| 0 <= k < color.width * color.height implies 0 <= (k / color.width)
        % order < order && 0 <= (k % color.width) % order < order && dithered(
        color,
        order,
    ).samples[k] == (if pixel_luminance(color, k) > scaled_threshold(
        order,
        k % color.width,
        k / color.width,
    ) {
        255u8
    } else {
        0u8
    }) by {
        assert(color.width > 0) by (nonlinear_arith)
            requires
                0 <= k < color.width * color.height,
                color.width >= 0,
        ;
        assert(k / color.width >= 0 && k % color.width >= 0) by (nonlinear_arith)
            requires
                0 <= k,
                color.width > 0,
        ;
        lemma_mod_pos_bound(k / color.width, order);
        lemma_mod_pos_bound(k % color.width, order);
    }
}

/// Computes the luminance of a colour.
pub fn luminance_of(red: u8, green: u8, blue: u8) -> (gray: u8)
    ensures
        gray == luminance(red as int, green as int, blue as int),
{
    let weighted: u32 = 299 * (red as u32) + 587 * (green as u32) + 114 * (blue as u32);
    (weighted / 1000) as u8
}

proof fn lemma_scaled_threshold_bound(order: int, cell: int)
    requires
        order >= 1,
        1 <= cell <= order * order,
    ensures
        0 <= cell * threshold_scale(order) <= 256,
{
    let d = order * order;
    let f = 256int / d;
    assert(0 <= f && d * f <= 256) by (nonlinear_arith)
        requires
            d >= 1,
            f == 256int / d,
    ;
    assert(0 <= cell * f <= d * f) by (nonlinear_arith)
        requires
            0 <= cell <= d,
            0 <= f,
    ;
}

/// Quantises a colour image against the tiled threshold matrix.
pub fn quantize(color: &SourceImage, matrix: &BayerMatrix) -> (out: OutputImage)
    ensures
        out@ == dithered(color@, matrix@.len() as int),
{
    let width = color.width();
    let height = color.height();
    let data = color.samples();
    let order = matrix.order();
    proof {
        assert(1 <= order * order <= 0x4000_0000) by (nonlinear_arith)
            requires
                1 <= order <= 32768,
        ;
    }
    let factor: u32 = 256 / ((order * order) as u32);
    let total: usize = data.len();
    let mut samples: Vec<u8> = Vec::new();
    let mut y: u32 = 0;
    while y < height
        invariant
            y <= height,
            total == data@.len(),
            width == color@.width,
            height == color@.height,
            data@ == color@.samples,
            data@.len() == width * height * 4,
            order == matrix@.len(),
            1 <= order <= MAX_BAYER_ORDER,
            factor == threshold_scale(order as int),
            samples@.len() == y * width,
            forall|k: int|
                0 <= k < samples@.len() ==> #[trigger] samples@[k] == dithered(
                    color@,
                    order as int,
                ).samples[k],
        decreases height - y,
    {
        let mut x: u32 = 0;
        proof {
            assert((y + 1) * width <= height * width && (y + 1) * width == y * width + width)
                by (nonlinear_arith)
                requires
                    0 <= y < height,
                    0 <= width,
            ;
        }
        while x < width
            invariant
                y < height,
                x <= width,
                total == data@.len(),
                width == color@.width,
                height == color@.height,
                data@ == color@.samples,
                data@.len() == width * height * 4,
                (y + 1) * width <= height * width,
                (y + 1) * width == y * width + width,
                order == matrix@.len(),
                1 <= order <= MAX_BAYER_ORDER,
                factor == threshold_scale(order as int),
                samples@.len() == y * width + x,
                forall|k: int|
                    0 <= k < samples@.len() ==> #[trigger] samples@[k] == dithered(
                        color@,
                        order as int,
                    ).samples[k],
            decreases width - x,
        {
            let k: usize = samples.len();
            proof {
                lemma_fundamental_div_mod_converse(k as int, width as int, y as int, x as int);
                lemma_mod_pos_bound(y as int, order as int);
                lemma_mod_pos_bound(x as int, order as int);
                assert(height * width == width * height) by (nonlinear_arith);
            }
            let gray = luminance_of(data[4 * k], data[4 * k + 1], data[4 * k + 2]);
            let cell = matrix.get(y as usize % order, x as usize % order);
            proof {
                lemma_scaled_threshold_bound(order as int, cell as int);
            }
            let threshold: u32 = cell * factor;
            let sample: u8 = if gray as u32 > threshold { 255 } else { 0 };
            samples.push(sample);
            x += 1;
        }
        y += 1;
    }
    proof {
        assert(height * width == width * height) by (nonlinear_arith);
        assert(samples@ =~= dithered(color@, order as int).samples);
    }
    OutputImage::from_luma(width, height, samples).unwrap()
}

/// The width to which an image of the given dimensions is resized.
pub open spec fn target_width(source: PixelGrid, limit: int) -> int {
    scaled_side(source.width, larger(source.width, source.height), limit)
}

/// The height to which an image of the given dimensions is resized.
pub open spec fn target_height(source: PixelGrid, limit: int) -> int {
    scaled_side(source.height, larger(source.width, source.height), limit)
}

/// `out` is what resizing `source` within `limit` and dithering it with the
/// matrix of side `order` can give: it has the target dimensions, and it is
/// the dither of some resampling of `source` to those dimensions.
pub open spec fn is_dithered_resize(
    out: PixelGrid,
    source: PixelGrid,
    order: int,
    limit: int,
) -> bool {
    exists|resampled: Seq<u8>|
        {
            &&& #[trigger] is_resampling(
                resampled,
                source.samples,
                source.width,
                source.height,
                target_width(source, limit),
                target_height(source, limit),
            )
            &&& out == dithered(
                PixelGrid {
                    width: target_width(source, limit),
                    height: target_height(source, limit),
                    samples: resampled,
                },
                order,
            )
        }
}

/// The image can go through the resize step: no side exceeds
/// `MAX_RESAMPLED_SIDE`, and a buffer of four `f32` samples for each of its
/// pixels (counting an empty side as 1) can be addressed.
pub open spec fn can_be_resized(source: PixelGrid) -> bool {
    &&& source.width <= MAX_RESAMPLED_SIDE
    &&& source.height <= MAX_RESAMPLED_SIDE
    &&& larger(1, source.width) * larger(1, source.height) * 16 <= isize::MAX
}

/// Decides whether the image can go through the resize step.
pub fn check_can_be_resized(image: &SourceImage) -> (fits: bool)
    ensures
        fits == can_be_resized(image@),
{
    if image.width() > MAX_RESAMPLED_SIDE || image.height() > MAX_RESAMPLED_SIDE {
        return false;
    }
    let width: u128 = if image.width() == 0 { 1 } else { image.width() as u128 };
    let height: u128 = if image.height() == 0 { 1 } else { image.height() as u128 };
    proof {
        assert(width * height <= 0xFFFF_FFFF * 0xFFFF_FFFF) by (nonlinear_arith)
            requires
                0 <= width <= 0xFFFF_FFFF,
                0 <= height <= 0xFFFF_FFFF,
        ;
    }
    width * height * 16 <= isize::MAX as u128
}

/// What holds of the dimensions and samples of every dithered resize: the
/// output has the target dimensions, at least one pixel each way and no more
/// than the source; an image beyond a limit of at least 1 comes out within
/// it; an image with pixels that lies within the limit is dithered exactly as
/// it is; and every output sample is black or white.
pub open spec fn has_resized_shape(
    out: PixelGrid,
    source: PixelGrid,
    order: int,
    limit: int,
) -> bool {
    &&& out.width == target_width(source, limit)
    &&& out.height == target_height(source, limit)
    &&& 1 <= out.width <= larger(1, source.width)
    &&& 1 <= out.height <= larger(1, source.height)
    &&& limit >= 1 && larger(source.width, source.height) > limit ==> out.width <= limit
        && out.height <= limit
    &&& 1 <= source.width <= limit && 1 <= source.height <= limit ==> out == dithered(
        source,
        order,
    )
    &&& out.samples.len() == out.width * out.height
    &&& forall|k: int|
        0 <= k < out.width * out.height ==> #[trigger] out.samples[k] == 0 || out.samples[k]
            == 255
}

/// Every dithered resize has the shape that `has_resized_shape` describes.
pub proof fn lemma_dithered_resize_shape(
    out: PixelGrid,
    source: PixelGrid,
    order: int,
    limit: int,
)
    requires
        0 <= source.width,
        0 <= source.height,
        0 <= limit,
        is_dithered_resize(out, source, order, limit),
    ensures
        has_resized_shape(out, source, order, limit),
{
    let longest = larger(source.width, source.height);
    lemma_scaled_side_never_grows(source.width, longest, limit);
    lemma_scaled_side_never_grows(source.height, longest, limit);
    if limit >= 1 && longest > limit {
        lemma_downscale_stays_within_limit(source.width, longest, limit);
        lemma_downscale_stays_within_limit(source.height, longest, limit);
    }
    assert(0 <= out.width * out.height) by (nonlinear_arith)
        requires
            out.width >= 1,
            out.height >= 1,
    ;
}

/// An image with pixels that lies within the limit is dithered as it is:
/// the output has its dimensions and is exactly the dither of its samples.
pub proof fn lemma_within_limit_dithers_source(
    out: PixelGrid,
    source: PixelGrid,
    order: int,
    limit: int,
)
    requires
        1 <= source.width <= limit,
        1 <= source.height <= limit,
        is_dithered_resize(out, source, order, limit),
    ensures
        out == dithered(source, order),
{
}

/// Where every grid that resampling the source can give has one luminance,
/// the dithered resize is a flat threshold test: white throughout if every
/// scaled threshold of the matrix lies below that luminance, black
/// throughout if none does.
pub proof fn lemma_uniform_resize_flat_output(
    out: PixelGrid,
    source: PixelGrid,
    order: int,
    limit: int,
    level: int,
)
    requires
        is_power_of_two(order),
        0 <= source.width,
        0 <= source.height,
        0 <= limit,
        is_dithered_resize(out, source, order, limit),
        forall|resampled: Seq<u8>, k: int|
            #[trigger] is_resampling(
                resampled,
                source.samples,
                source.width,
                source.height,
                target_width(source, limit),
                target_height(source, limit),
            ) && 0 <= k < target_width(source, limit) * target_height(source, limit)
                ==> #[trigger] pixel_luminance(
                PixelGrid {
                    width: target_width(source, limit),
                    height: target_height(source, limit),
                    samples: resampled,
                },
                k,
            ) == level,
    ensures
        (forall|row: int, col: int|
            0 <= row < order && 0 <= col < order ==> #[trigger] bayer_threshold(order, row, col)
                * threshold_scale(order) < level) ==> (forall|k: int|
            0 <= k < out.width * out.height ==> #[trigger] out.samples[k] == 255),
        (forall|row: int, col: int|
            0 <= row < order && 0 <= col < order ==> #[trigger] bayer_threshold(order, row, col)
                * threshold_scale(order) >= level) ==> (forall|k: int|
            0 <= k < out.width * out.height ==> #[trigger] out.samples[k] == 0),
{
    let width = target_width(source, limit);
    let height = target_height(source, limit);
    let resampled = choose|resampled: Seq<u8>|
        {
            &&& #[trigger] is_resampling(
                resampled,
                source.samples,
                source.width,
                source.height,
                width,
                height,
            )
            &&& out == dithered(PixelGrid { width, height, samples: resampled }, order)
        };
    let grid = PixelGrid { width, height, samples: resampled };
    lemma_dithered_resize_shape(out, source, order, limit);
    assert forall|k: int| 0 <= k < grid.width * grid.height implies #[trigger] pixel_luminance(
        grid,
        k,
    ) == level by {}
    lemma_uniform_luminance_flat_output(grid, order, level);
}

/// Two orders give the same scaled thresholds: they are equal, or both lie
/// above 16, where `256 / order²` is 0 and every scaled threshold with it.
pub open spec fn same_scaled_thresholds(first: int, second: int) -> bool {
    first == second || (first > 16 && second > 16)
}

/// Orders with the same scaled thresholds dither every grid alike.
pub proof fn lemma_same_thresholds_same_dither(color: PixelGrid, first: int, second: int)
    requires
        same_scaled_thresholds(first, second),
    ensures
        dithered(color, first) == dithered(color, second),
{
    if first != second {
        assert(threshold_scale(first) == 0 && threshold_scale(second) == 0) by (nonlinear_arith)
            requires
                first > 16,
                second > 16,
                threshold_scale(first) == 256int / (first * first),
                threshold_scale(second) == 256int / (second * second),
        ;
        assert forall|x: int, y: int|
            scaled_threshold(first, x, y) == 0 && scaled_threshold(second, x, y) == 0 by {}
        assert(dithered(color, first).samples =~= dithered(color, second).samples);
    }
}

/// The matrix to dither with for a run of Bayer order `order`: the matrix of
/// that order up to 16, and beyond it the matrix of order 32, which gives
/// the same scaled thresholds and is small whatever the order.
pub fn matrix_for_order(order: usize) -> (matrix: BayerMatrix)
    requires
        is_power_of_two(order as int),
    ensures
        same_scaled_thresholds(matrix@.len() as int, order as int),
        order <= 16 ==> matrix@ == bayer_matrix(order as int),
        order > 16 ==> matrix@ == bayer_matrix(32),
{
    if order <= 16 {
        generate_bayer_matrix(order)
    } else {
        proof {
            reveal_with_fuel(is_power_of_two, 7);
        }
        generate_bayer_matrix(32)
    }
}

/// Resizes `image` so that its longer side is at most `max_image_side`
/// (never enlarging it, and leaving no side below 1), then dithers the
/// result against `matrix`.
pub fn apply_with_matrix(
    image: &SourceImage,
    matrix: &BayerMatrix,
    max_image_side: u32,
) -> (out: OutputImage)
    requires
        can_be_resized(image@),
    ensures
        is_dithered_resize(out@, image@, matrix@.len() as int, max_image_side as int),
        has_resized_shape(out@, image@, matrix@.len() as int, max_image_side as int),
{
    let width = image.width();
    let height = image.height();
    let (new_width, new_height) = target_dimensions(width, height, max_image_side);
    let data = image.samples();
    proof {
        let longest = larger(width as int, height as int);
        lemma_scaled_side_never_grows(width as int, longest, max_image_side as int);
        lemma_scaled_side_never_grows(height as int, longest, max_image_side as int);
        let w1 = larger(1, width as int);
        let h1 = larger(1, height as int);
        assert(width * new_height * 16 <= w1 * h1 * 16 && new_width * new_height * 4 <= w1 * h1
            * 16) by (nonlinear_arith)
            requires
                0 <= width <= w1,
                1 <= new_width <= w1,
                1 <= new_height <= h1,
        ;
    }
    let resampled = resize_lanczos3(data, width, height, new_width, new_height);
    let ghost resampled_samples = resampled@;
    let resized = SourceImage::from_rgba(new_width, new_height, resampled).unwrap();
    let out = quantize(&resized, matrix);
    proof {
        assert(is_resampling(
            resampled_samples,
            image@.samples,
            image@.width,
            image@.height,
            target_width(image@, max_image_side as int),
            target_height(image@, max_image_side as int),
        ));
        lemma_dithered_resize_shape(
            out@,
            image@,
            matrix@.len() as int,
            max_image_side as int,
        );
    }
    out
}

/// Resizes `image` within `max_image_side` and dithers it with the Bayer
/// matrix of side `order`. There is an output exactly when the image can go
/// through the resize step.
pub fn apply_bayer_dithering_and_resize(
    image: &SourceImage,
    order: usize,
    max_image_side: u32,
) -> (result: Option<OutputImage>)
    requires
        is_power_of_two(order as int),
    ensures
        result is Some <==> can_be_resized(image@),
        result matches Some(out) ==> is_dithered_resize(
            out@,
            image@,
            order as int,
            max_image_side as int,
        ) && has_resized_shape(out@, image@, order as int, max_image_side as int),
{
    if !check_can_be_resized(image) {
        return None;
    }
    let matrix = matrix_for_order(order);
    let out = apply_with_matrix(image, &matrix, max_image_side);
    let width = image.width();
    let height = image.height();
    proof {
        assert(0 <= width == image@.width && 0 <= height == image@.height);
        lemma_dithered_resize_for_order(
            out@,
            image@,
            matrix@.len() as int,
            order as int,
            max_image_side as int,
        );
    }
    Some(out)
}

/// A dithered resize for one order is a dithered resize for every order
/// with the same scaled thresholds.
pub proof fn lemma_dithered_resize_for_order(
    out: PixelGrid,
    source: PixelGrid,
    first: int,
    second: int,
    limit: int,
)
    requires
        0 <= source.width,
        0 <= source.height,
        0 <= limit,
        same_scaled_thresholds(first, second),
        is_dithered_resize(out, source, first, limit),
    ensures
        is_dithered_resize(out, source, second, limit),
        has_resized_shape(out, source, second, limit),
{
    let width = target_width(source, limit);
    let height = target_height(source, limit);
    let resampled = choose|resampled: Seq<u8>|
        {
            &&& #[trigger] is_resampling(
                resampled,
                source.samples,
                source.width,
                source.height,
                width,
                height,
            )
            &&& out == dithered(PixelGrid { width, height, samples: resampled }, first)
        };
    lemma_same_thresholds_same_dither(
        PixelGrid { width, height, samples: resampled },
        first,
        second,
    );
    lemma_dithered_resize_shape(out, source, second, limit);
}

} // verus!
