use bayer_dither::config::{
    parse_decimal, Config, ConfigError, DEFAULT_BAYER_ORDER, DEFAULT_MAX_IMAGE_SIDE,
};

fn args(values: &[&str]) -> Vec<String> {
    values.iter().map(|v| v.to_string()).collect()
}

#[test]
fn decimal_numbers_are_read() {
    assert_eq!(parse_decimal("0", 100), Some(0));
    assert_eq!(parse_decimal("12", 100), Some(12));
    assert_eq!(parse_decimal("100", 100), Some(100));
    assert_eq!(parse_decimal("+7", 100), Some(7));
    assert_eq!(parse_decimal("007", 100), Some(7));
    assert_eq!(parse_decimal("4294967295", u32::MAX as u64), Some(4294967295));
    assert_eq!(parse_decimal("18446744073709551615", u64::MAX), Some(u64::MAX));
}

#[test]
fn anything_else_is_not_a_number() {
    assert_eq!(parse_decimal("", 100), None);
    assert_eq!(parse_decimal("+", 100), None);
    assert_eq!(parse_decimal("-1", 100), None);
    assert_eq!(parse_decimal("++1", 100), None);
    assert_eq!(parse_decimal("1+", 100), None);
    assert_eq!(parse_decimal(" 1", 100), None);
    assert_eq!(parse_decimal("1 ", 100), None);
    assert_eq!(parse_decimal("1_0", 100), None);
    assert_eq!(parse_decimal("1.5", 100), None);
    assert_eq!(parse_decimal("abc", 100), None);
    assert_eq!(parse_decimal("١٢", 100), None);
    assert_eq!(parse_decimal("101", 100), None);
    assert_eq!(parse_decimal("4294967296", u32::MAX as u64), None);
    assert_eq!(parse_decimal("18446744073709551616", u64::MAX), None);
    assert_eq!(parse_decimal("99999999999999999999999999", u64::MAX), None);
}

#[test]
fn defaults_apply_when_only_the_directory_is_named() {
    let config = Config::from_args(&args(&["prog", "photos"]), true).unwrap();
    assert_eq!(config.dir_path(), "photos");
    assert_eq!(config.max_image_side(), 800);
    assert_eq!(config.bayer_order(), 8);
    assert_eq!(DEFAULT_MAX_IMAGE_SIDE, 800);
    assert_eq!(DEFAULT_BAYER_ORDER, 8);
}

#[test]
fn optional_arguments_are_taken() {
    let config = Config::from_args(&args(&["prog", "photos", "1024", "4"]), true).unwrap();
    assert_eq!(config.dir_path(), "photos");
    assert_eq!(config.max_image_side(), 1024);
    assert_eq!(config.bayer_order(), 4);
    let config = Config::from_args(&args(&["prog", "photos", "320"]), true).unwrap();
    assert_eq!(config.max_image_side(), 320);
    assert_eq!(config.bayer_order(), 8);
}

#[test]
fn unreadable_optional_arguments_count_as_absent() {
    let config = Config::from_args(&args(&["prog", "photos", "wide", "big"]), true).unwrap();
    assert_eq!(config.max_image_side(), 800);
    assert_eq!(config.bayer_order(), 8);
    let config = Config::from_args(&args(&["prog", "photos", "-5", "16"]), true).unwrap();
    assert_eq!(config.max_image_side(), 800);
    assert_eq!(config.bayer_order(), 16);
    let config = Config::from_args(&args(&["prog", "photos", "4294967296", ""]), true).unwrap();
    assert_eq!(config.max_image_side(), 800);
    assert_eq!(config.bayer_order(), 8);
}

#[test]
fn missing_directory_argument_is_refused_with_usage() {
    let error = Config::from_args(&args(&["dither"]), false).unwrap_err();
    assert!(matches!(&error, ConfigError::MissingDirectory { program } if program == "dither"));
    assert_eq!(
        error.message(),
        "Usage: dither <path-to-images> [max_image_side] [bayer_order]"
    );
    let error = Config::from_args(&args(&[]), true).unwrap_err();
    assert!(matches!(&error, ConfigError::MissingDirectory { program } if program == "program"));
    assert_eq!(
        error.message(),
        "Usage: program <path-to-images> [max_image_side] [bayer_order]"
    );
}

#[test]
fn directory_that_does_not_exist_is_refused() {
    let error = Config::from_args(&args(&["prog", "nowhere", "800", "3"]), false).unwrap_err();
    assert!(matches!(&error, ConfigError::DirectoryNotFound { dir_path } if dir_path == "nowhere"));
    assert_eq!(error.message(), "Directory does not exist: nowhere");
}

#[test]
fn order_that_is_not_a_power_of_two_is_refused() {
    for order in ["0", "3", "6", "12", "100"] {
        let error = Config::from_args(&args(&["prog", "photos", "800", order]), true).unwrap_err();
        assert!(matches!(error, ConfigError::InvalidBayerOrder));
        assert_eq!(error.message(), "Bayer order must be a power of 2");
    }
}

#[test]
fn order_below_two_is_refused() {
    let error = Config::from_args(&args(&["prog", "photos", "800", "1"]), true).unwrap_err();
    assert!(matches!(error, ConfigError::InvalidBayerOrder));
}

#[test]
fn powers_of_two_from_two_up_are_accepted() {
    for order in ["2", "4", "8", "16", "32", "1024", "65536"] {
        let config = Config::from_args(&args(&["prog", "photos", "640", order]), true).unwrap();
        assert_eq!(config.bayer_order().to_string(), order);
        assert_eq!(config.max_image_side(), 640);
        assert_eq!(config.dir_path(), "photos");
    }
}

#[test]
fn longest_side_of_zero_counts_as_absent() {
    let config = Config::from_args(&args(&["prog", "photos", "0"]), true).unwrap();
    assert_eq!(config.max_image_side(), 800);
    let config = Config::from_args(&args(&["prog", "photos", "+0", "4"]), true).unwrap();
    assert_eq!(config.max_image_side(), 800);
    assert_eq!(config.bayer_order(), 4);
    let config = Config::from_args(&args(&["prog", "photos", "1"]), true).unwrap();
    assert_eq!(config.max_image_side(), 1);
    let config = Config::from_args(&args(&["prog", "photos", "4294967295"]), true).unwrap();
    assert_eq!(config.max_image_side(), u32::MAX);
}
