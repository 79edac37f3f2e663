//! Output dimensions: the aspect-preserving downscale that brings the longer
//! side of an image within a limit, and never enlarges.

use vstd::prelude::*;

verus! {

/// The larger of two numbers.
pub open spec fn larger(a: int, b: int) -> int {
    if a >= b {
        a
    } else {
        b
    }
}

/// `numerator / denominator` rounded to the nearest integer, halves upwards.
pub open spec fn rounded_quotient(numerator: int, denominator: int) -> int {
    (2 * numerator + denominator) / (2 * denominator)
}

/// The length that a side of `side` pixels gets when the image whose longest
/// side is `longest` is brought within `limit`: the side itself if the image
/// already fits, else `side * limit / longest` rounded to the nearest
/// integer; in both cases at least 1.
pub open spec fn scaled_side(side: int, longest: int, limit: int) -> int {
    if longest <= limit {
        larger(1, side)
    } else {
        larger(1, rounded_quotient(side * limit, longest))
    }
}

proof fn lemma_rounded_quotient_bounds(side: int, longest: int, limit: int)
    requires
        0 <= side <= longest,
        0 <= limit < longest,
    ensures
        0 <= rounded_quotient(side * limit, longest) <= limit,
        rounded_quotient(side * limit, longest) <= side,
{
    let n = 2 * (side * limit) + longest;
    let d = 2 * longest;
    assert(0 <= side * limit <= longest * limit && side * limit <= side * longest)
        by (nonlinear_arith)
        requires
            0 <= side <= longest,
            0 <= limit < longest,
    ;
    assert(n < d * (limit + 1)) by (nonlinear_arith)
        requires
            n == 2 * (side * limit) + longest,
            d == 2 * longest,
            side * limit <= longest * limit,
            longest > 0,
    ;
    assert(0 <= n / d <= limit) by (nonlinear_arith)
        requires
            0 <= n < d * (limit + 1),
            d > 0,
            limit >= 0,
    ;
    if side < longest {
        assert(n < d * (side + 1)) by (nonlinear_arith)
            requires
                n == 2 * (side * limit) + longest,
                d == 2 * longest,
                side * limit <= side * longest,
                longest > 0,
                side >= 0,
        ;
        assert(n / d <= side) by (nonlinear_arith)
            requires
                0 <= n < d * (side + 1),
                d > 0,
                side >= 0,
        ;
    }
}

/// An image that exceeds the limit comes out with both sides within it.
pub proof fn lemma_downscale_stays_within_limit(side: int, longest: int, limit: int)
    requires
        0 <= side <= longest,
        1 <= limit < longest,
    ensures
        1 <= scaled_side(side, longest, limit) <= limit,
{
    lemma_rounded_quotient_bounds(side, longest, limit);
}

/// An image within the limit keeps its dimensions.
pub proof fn lemma_no_upscale_within_limit(side: int, longest: int, limit: int)
    requires
        1 <= side <= longest <= limit,
    ensures
        scaled_side(side, longest, limit) == side,
{
}

/// No side ever grows, whatever the limit: the result is at most the side
/// itself, or 1 where the side is 0.
pub proof fn lemma_scaled_side_never_grows(side: int, longest: int, limit: int)
    requires
        0 <= side <= longest,
        0 <= limit,
    ensures
        1 <= scaled_side(side, longest, limit) <= larger(1, side),
{
    if longest > limit {
        lemma_rounded_quotient_bounds(side, longest, limit);
    }
}

/// Computes `scaled_side` for one side of an image.
pub fn scale_side(side: u32, longest: u32, limit: u32) -> (scaled: u32)
    requires
        side <= longest,
    ensures
        scaled == scaled_side(side as int, longest as int, limit as int),
{
    if longest <= limit {
        if side == 0 {
            1
        } else {
            side
        }
    } else {
        proof {
            lemma_rounded_quotient_bounds(side as int, longest as int, limit as int);
            assert(side * limit <= 0xFFFF_FFFF * 0xFFFF_FFFF) by (nonlinear_arith)
                requires
                    0 <= side <= 0xFFFF_FFFF,
                    0 <= limit <= 0xFFFF_FFFF,
            ;
        }
        let product: u128 = (side as u128) * (limit as u128);
        let quotient: u128 = (2 * product + longest as u128) / (2 * (longest as u128));
        if quotient == 0 {
            1
        } else {
            quotient as u32
        }
    }
}

/// The dimensions to which an image of `width`×`height` is resized so that
/// its longer side is at most `max_image_side`.
pub fn target_dimensions(width: u32, height: u32, max_image_side: u32) -> (dims: (u32, u32))
    ensures
        dims.0 == scaled_side(
            width as int,
            larger(width as int, height as int),
            max_image_side as int,
        ),
        dims.1 == scaled_side(
            height as int,
            larger(width as int, height as int),
            max_image_side as int,
        ),
{
    let longest = if width >= height { width } else { height };
    (scale_side(width, longest, max_image_side), scale_side(height, longest, max_image_side))
}

} // verus!
