use bayer_dither::geometry::{scale_side, target_dimensions};

#[test]
fn image_within_limit_keeps_its_dimensions() {
    assert_eq!(target_dimensions(300, 200, 800), (300, 200));
    assert_eq!(target_dimensions(800, 800, 800), (800, 800));
    assert_eq!(target_dimensions(1, 1, 800), (1, 1));
}

#[test]
fn image_beyond_limit_is_brought_within_it() {
    assert_eq!(target_dimensions(1600, 800, 800), (800, 400));
    assert_eq!(target_dimensions(800, 1600, 800), (400, 800));
    assert_eq!(target_dimensions(1000, 500, 800), (800, 400));
    assert_eq!(target_dimensions(4000, 3000, 800), (800, 600));
    assert_eq!(target_dimensions(801, 801, 800), (800, 800));
}

#[test]
fn quotient_is_rounded_to_nearest_with_halves_up() {
    // 3 * 5 / 6 = 2.5
    assert_eq!(scale_side(3, 6, 5), 3);
    // 1000 * 800 / 1001 = 799.2
    assert_eq!(scale_side(1000, 1001, 800), 799);
    // 7 * 2 / 9 = 1.56
    assert_eq!(scale_side(7, 9, 2), 2);
    // 2 * 2 / 9 = 0.44, raised to 1
    assert_eq!(scale_side(2, 9, 2), 1);
}

#[test]
fn no_side_falls_below_one() {
    assert_eq!(target_dimensions(10000, 1, 800), (800, 1));
    assert_eq!(target_dimensions(1, 10000, 800), (1, 800));
    assert_eq!(target_dimensions(500, 300, 0), (1, 1));
    assert_eq!(target_dimensions(0, 5, 800), (1, 5));
    assert_eq!(target_dimensions(0, 0, 800), (1, 1));
}

#[test]
fn largest_dimensions_do_not_overflow() {
    assert_eq!(target_dimensions(u32::MAX, u32::MAX, u32::MAX), (u32::MAX, u32::MAX));
    assert_eq!(target_dimensions(u32::MAX, u32::MAX, u32::MAX - 1), (u32::MAX - 1, u32::MAX - 1));
    assert_eq!(target_dimensions(u32::MAX, 1, 1), (1, 1));
}

#[test]
fn resize_never_exceeds_limit_and_never_enlarges() {
    let limits: [u32; 5] = [1, 2, 7, 100, 800];
    let sides: [u32; 7] = [1, 2, 3, 99, 100, 801, 5000];
    for limit in limits {
        for width in sides {
            for height in sides {
                let (w, h) = target_dimensions(width, height, limit);
                assert!(w >= 1 && h >= 1);
                assert!(w <= width && h <= height);
                if width > limit || height > limit {
                    assert!(w <= limit && h <= limit);
                    assert!(w == limit || h == limit);
                } else {
                    assert_eq!((w, h), (width, height));
                }
            }
        }
    }
}
