use bayer_dither::dither::{
    apply_bayer_dithering_and_resize, apply_with_matrix, check_can_be_resized, luminance_of,
    matrix_for_order, quantize,
};
use bayer_dither::resample::MAX_RESAMPLED_SIDE;
use bayer_dither::matrix::generate_bayer_matrix;
use bayer_dither::raster::{OutputImage, SourceImage};
use image::ImageEncoder;

fn uniform_rgba(width: u32, height: u32, red: u8, green: u8, blue: u8) -> SourceImage {
    let mut data: Vec<u8> = Vec::new();
    for _ in 0..(width as usize * height as usize) {
        data.push(red);
        data.push(green);
        data.push(blue);
        data.push(255);
    }
    SourceImage::from_rgba(width, height, data).unwrap()
}

fn patterned_rgba(width: u32, height: u32) -> SourceImage {
    let mut data: Vec<u8> = Vec::new();
    for y in 0..height {
        for x in 0..width {
            data.push(((x * 7 + y * 3) % 256) as u8);
            data.push(((x * 5 + y * 11 + 40) % 256) as u8);
            data.push(((x + y * 13 + 90) % 256) as u8);
            data.push(((x + y) % 256) as u8);
        }
    }
    SourceImage::from_rgba(width, height, data).unwrap()
}

#[test]
fn luminance_uses_the_601_weights_and_truncates() {
    assert_eq!(luminance_of(0, 0, 0), 0);
    assert_eq!(luminance_of(255, 255, 255), 255);
    assert_eq!(luminance_of(255, 0, 0), 76);
    assert_eq!(luminance_of(0, 255, 0), 149);
    assert_eq!(luminance_of(0, 0, 255), 29);
    assert_eq!(luminance_of(10, 20, 30), 18);
    assert_eq!(luminance_of(200, 200, 200), 200);
    assert_eq!(luminance_of(1, 1, 1), 1);
}

#[test]
fn source_image_checks_its_sample_count() {
    assert!(SourceImage::from_rgba(2, 2, vec![0u8; 16]).is_some());
    assert!(SourceImage::from_rgba(2, 2, vec![0u8; 15]).is_none());
    assert!(SourceImage::from_rgba(2, 2, vec![0u8; 17]).is_none());
    assert!(SourceImage::from_rgba(0, 7, Vec::new()).is_some());
    assert!(SourceImage::from_rgba(u32::MAX, u32::MAX, Vec::new()).is_none());
    assert!(SourceImage::from_rgb(2, 2, vec![0u8; 12]).is_some());
    assert!(SourceImage::from_rgb(2, 2, vec![0u8; 16]).is_none());
    assert!(OutputImage::from_luma(3, 2, vec![0u8; 6]).is_some());
    assert!(OutputImage::from_luma(3, 2, vec![0u8; 5]).is_none());
}

#[test]
fn three_channel_samples_become_opaque_pixels() {
    let image = SourceImage::from_rgb(2, 1, vec![1, 2, 3, 4, 5, 6]).unwrap();
    assert_eq!(image.width(), 2);
    assert_eq!(image.height(), 1);
    assert_eq!(image.samples(), &vec![1u8, 2, 3, 255, 4, 5, 6, 255]);
}

#[test]
fn output_image_hands_its_samples_over() {
    let image = OutputImage::from_luma(2, 2, vec![0, 255, 255, 0]).unwrap();
    assert_eq!(image.width(), 2);
    assert_eq!(image.height(), 2);
    assert_eq!(image.samples(), &vec![0u8, 255, 255, 0]);
    assert_eq!(image.into_samples(), vec![0u8, 255, 255, 0]);
}

#[test]
fn quantize_compares_luminance_with_the_tiled_scaled_threshold() {
    // Order 2 holds [[2, 4], [3, 1]], scaled by 256 / 4 = 64: [[128, 256], [192, 64]].
    let matrix = generate_bayer_matrix(2);
    let image = uniform_rgba(4, 3, 130, 130, 130);
    let out = quantize(&image, &matrix);
    assert_eq!(out.width(), 4);
    assert_eq!(out.height(), 3);
    assert_eq!(
        out.samples(),
        &vec![255u8, 0, 255, 0, 0, 255, 0, 255, 255, 0, 255, 0]
    );
}

#[test]
fn quantize_is_strict_at_the_threshold() {
    let matrix = generate_bayer_matrix(2);
    let at = quantize(&uniform_rgba(2, 2, 128, 128, 128), &matrix);
    assert_eq!(at.samples(), &vec![0u8, 0, 0, 255]);
    let above = quantize(&uniform_rgba(2, 2, 129, 129, 129), &matrix);
    assert_eq!(above.samples(), &vec![255u8, 0, 0, 255]);
}

#[test]
fn uniform_gray_below_every_threshold_is_black() {
    let matrix = generate_bayer_matrix(2);
    let out = quantize(&uniform_rgba(5, 5, 64, 64, 64), &matrix);
    assert!(out.samples().iter().all(|&s| s == 0));
    let matrix = generate_bayer_matrix(8);
    let out = quantize(&uniform_rgba(9, 17, 4, 4, 4), &matrix);
    assert!(out.samples().iter().all(|&s| s == 0));
}

#[test]
fn uniform_gray_above_every_threshold_is_white() {
    // Order 32: 256 / 1024 = 0, so every scaled threshold is 0.
    let matrix = generate_bayer_matrix(32);
    let out = quantize(&uniform_rgba(40, 33, 1, 1, 1), &matrix);
    assert!(out.samples().iter().all(|&s| s == 255));
    let out = quantize(&uniform_rgba(40, 33, 0, 0, 0), &matrix);
    assert!(out.samples().iter().all(|&s| s == 0));
}

#[test]
fn largest_threshold_of_a_dividing_order_is_never_exceeded() {
    // Order 8: 64 * 4 = 256 at the cell that holds 64.
    let matrix = generate_bayer_matrix(8);
    let out = quantize(&uniform_rgba(8, 8, 255, 255, 255), &matrix);
    let mut black = 0;
    for row in 0..8usize {
        for col in 0..8usize {
            let sample = out.samples()[row * 8 + col];
            if matrix.get(row, col) == 64 {
                assert_eq!(sample, 0);
                black += 1;
            } else {
                assert_eq!(sample, 255);
            }
        }
    }
    assert_eq!(black, 1);
}

#[test]
fn image_within_limit_is_dithered_without_resampling() {
    let image = patterned_rgba(300, 200);
    let out = apply_bayer_dithering_and_resize(&image, 8, 800).unwrap();
    assert_eq!(out.width(), 300);
    assert_eq!(out.height(), 200);
    assert_eq!(out.samples().len(), 300 * 200);
    let matrix = generate_bayer_matrix(8).to_rows();
    let data = image.samples();
    for y in 0..200usize {
        for x in 0..300usize {
            let k = y * 300 + x;
            let gray = (299 * data[4 * k] as u32 + 587 * data[4 * k + 1] as u32
                + 114 * data[4 * k + 2] as u32) / 1000;
            let threshold = matrix[y % 8][x % 8] * 4;
            let expected: u8 = if gray > threshold { 255 } else { 0 };
            assert_eq!(out.samples()[k], expected);
        }
    }
}

#[test]
fn image_beyond_limit_is_resampled_to_the_target_dimensions() {
    let image = patterned_rgba(160, 80);
    let out = apply_bayer_dithering_and_resize(&image, 8, 40).unwrap();
    assert_eq!(out.width(), 40);
    assert_eq!(out.height(), 20);
    assert_eq!(out.samples().len(), 40 * 20);
    assert!(out.samples().iter().all(|&s| s == 0 || s == 255));
}

#[test]
fn resampled_uniform_image_is_dithered_as_one_gray() {
    let image = uniform_rgba(64, 64, 0, 0, 0);
    let out = apply_bayer_dithering_and_resize(&image, 4, 16).unwrap();
    assert_eq!(out.width(), 16);
    assert_eq!(out.height(), 16);
    assert!(out.samples().iter().all(|&s| s == 0));
}

#[test]
fn thin_image_keeps_one_row() {
    let image = patterned_rgba(2000, 1);
    let out = apply_bayer_dithering_and_resize(&image, 8, 100).unwrap();
    assert_eq!(out.width(), 100);
    assert_eq!(out.height(), 1);
    assert!(out.samples().iter().all(|&s| s == 0 || s == 255));
}

#[test]
fn image_without_pixels_gives_black() {
    let image = SourceImage::from_rgba(0, 5, Vec::new()).unwrap();
    let out = apply_bayer_dithering_and_resize(&image, 8, 800).unwrap();
    assert_eq!(out.width(), 1);
    assert_eq!(out.height(), 5);
    assert_eq!(out.samples(), &vec![0u8; 5]);
}

#[test]
fn shared_matrix_gives_the_same_output() {
    let image = patterned_rgba(50, 30);
    let matrix = generate_bayer_matrix(4);
    let shared = apply_with_matrix(&image, &matrix, 20);
    let own = apply_bayer_dithering_and_resize(&image, 4, 20).unwrap();
    assert_eq!(shared.width(), own.width());
    assert_eq!(shared.height(), own.height());
    assert_eq!(shared.samples(), own.samples());
}

#[test]
fn output_survives_lossless_encoding() {
    let image = patterned_rgba(37, 23);
    let out = apply_bayer_dithering_and_resize(&image, 8, 800).unwrap();
    let mut encoded: Vec<u8> = Vec::new();
    image::codecs::png::PngEncoder::new(&mut encoded)
        .write_image(out.samples(), out.width(), out.height(), image::ExtendedColorType::L8)
        .unwrap();
    let decoded = image::load_from_memory_with_format(&encoded, image::ImageFormat::Png).unwrap();
    assert_eq!(decoded.color(), image::ColorType::L8);
    let gray = decoded.to_luma8();
    assert_eq!(gray.width(), out.width());
    assert_eq!(gray.height(), out.height());
    assert_eq!(gray.as_raw(), out.samples());
}

#[test]
fn image_with_a_side_beyond_the_resampler_has_no_output() {
    let side = MAX_RESAMPLED_SIDE + 1;
    let image = SourceImage::from_rgba(side, 1, vec![0u8; side as usize * 4]).unwrap();
    assert!(!check_can_be_resized(&image));
    assert!(apply_bayer_dithering_and_resize(&image, 8, 800).is_none());
    let image = SourceImage::from_rgba(1, side, vec![0u8; side as usize * 4]).unwrap();
    assert!(!check_can_be_resized(&image));
    assert!(apply_bayer_dithering_and_resize(&image, 8, side - 1).is_none());
}

#[test]
fn image_at_the_longest_side_is_resized() {
    let side = MAX_RESAMPLED_SIDE;
    let image = SourceImage::from_rgba(side, 1, vec![90u8; side as usize * 4]).unwrap();
    assert!(check_can_be_resized(&image));
    let out = apply_bayer_dithering_and_resize(&image, 8, 1024).unwrap();
    assert_eq!(out.width(), 1024);
    assert_eq!(out.height(), 1);
    assert!(out.samples().iter().all(|&s| s == 0 || s == 255));
}

#[test]
fn tall_image_barely_downscaled_is_resized() {
    let side: u32 = 1 << 20;
    let image = SourceImage::from_rgba(1, side, vec![200u8; side as usize * 4]).unwrap();
    let out = apply_bayer_dithering_and_resize(&image, 2, side - 1).unwrap();
    assert_eq!(out.width(), 1);
    assert_eq!(out.height(), side - 1);
    assert!(out.samples().iter().all(|&s| s == 0 || s == 255));
}

#[test]
fn orders_above_sixteen_have_thresholds_of_zero() {
    assert_eq!(matrix_for_order(8).order(), 8);
    assert_eq!(matrix_for_order(16).order(), 16);
    assert_eq!(matrix_for_order(32).order(), 32);
    assert_eq!(matrix_for_order(64).order(), 32);
    assert_eq!(matrix_for_order(65536).order(), 32);
    let image = patterned_rgba(40, 30);
    let fine = apply_bayer_dithering_and_resize(&image, 65536, 800).unwrap();
    let data = image.samples();
    for k in 0..40 * 30usize {
        let gray = (299 * data[4 * k] as u32 + 587 * data[4 * k + 1] as u32
            + 114 * data[4 * k + 2] as u32) / 1000;
        let expected: u8 = if gray > 0 { 255 } else { 0 };
        assert_eq!(fine.samples()[k], expected);
    }
    let coarse = apply_bayer_dithering_and_resize(&image, 32, 800).unwrap();
    assert_eq!(fine.samples(), coarse.samples());
}
