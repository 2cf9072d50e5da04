use grist_image_optimizer::encoder::{decimal_string, webp_arguments, EncoderError, QUALITY_LIMIT};
use grist_image_optimizer::method::ConversionMethod;
use grist_image_optimizer::worker::select_quality;

#[test]
fn decimal_string_writes_numbers() {
    assert_eq!(decimal_string(0), "0");
    assert_eq!(decimal_string(7), "7");
    assert_eq!(decimal_string(10), "10");
    assert_eq!(decimal_string(40), "40");
    assert_eq!(decimal_string(100), "100");
    assert_eq!(decimal_string(1234567890), "1234567890");
    assert_eq!(decimal_string(u64::MAX), "18446744073709551615");
}

#[test]
fn decimal_string_agrees_with_the_standard_library() {
    for n in 0..1500u64 {
        assert_eq!(decimal_string(n), n.to_string());
    }
}

#[test]
fn encoder_arguments_in_order() {
    let arguments =
        webp_arguments(ConversionMethod::Slowest, 40, "/tmp/a.jpg", "/tmp/a.webp").unwrap();
    assert_eq!(
        arguments,
        vec!["-m", "6", "-q", "40", "-mt", "-af", "-progress", "/tmp/a.jpg", "-o", "/tmp/a.webp"]
    );
}

#[test]
fn encoder_arguments_name_the_method_by_number() {
    let methods = [
        ConversionMethod::Fastest,
        ConversionMethod::Faster,
        ConversionMethod::Fast,
        ConversionMethod::Normal,
        ConversionMethod::Slow,
        ConversionMethod::Slower,
        ConversionMethod::Slowest,
    ];
    for (number, method) in methods.iter().enumerate() {
        let arguments = webp_arguments(*method, 3, "in", "out").unwrap();
        assert_eq!(arguments[1], number.to_string());
    }
}

#[test]
fn encoder_takes_qualities_up_to_one_hundred() {
    assert!(webp_arguments(ConversionMethod::Normal, 0, "in", "out").is_ok());
    let arguments = webp_arguments(ConversionMethod::Normal, 100, "in", "out").unwrap();
    assert_eq!(arguments[3], "100");
    assert_eq!(QUALITY_LIMIT, 100);
}

#[test]
fn encoder_turns_down_a_quality_above_one_hundred() {
    assert_eq!(
        webp_arguments(ConversionMethod::Normal, 101, "in", "out"),
        Err(EncoderError::QualityOutOfRange)
    );
    assert_eq!(
        webp_arguments(ConversionMethod::Normal, u64::MAX, "in", "out"),
        Err(EncoderError::QualityOutOfRange)
    );
    assert_eq!(EncoderError::QualityOutOfRange.message(), "Quality must be between 0 and 100");
}

#[test]
fn every_selected_quality_is_taken_by_the_encoder() {
    for kib in [0u64, 99, 100, 300, 669, 670, 1000, 10000, u64::MAX] {
        let quality = select_quality(kib);
        assert!(webp_arguments(ConversionMethod::Normal, quality, "in", "out").is_ok());
    }
}
