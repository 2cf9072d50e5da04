use grist_image_optimizer::args::{Args, DEFAULT_CONCURRENT_DOWNLOADS};
use grist_image_optimizer::method::ConversionMethod;

fn args() -> Args {
    Args::new("https://docs.example/api".to_string(), "/tmp/".to_string(), "SECRET".to_string())
}

#[test]
fn args_defaults() {
    let args = args();
    assert_eq!(args.base_url, "https://docs.example/api");
    assert_eq!(args.dir, "/tmp/");
    assert_eq!(args.token, "SECRET");
    assert_eq!(args.conversion_method, ConversionMethod::Normal);
    assert_eq!(args.specific_document, None);
    assert_eq!(args.concurrent_downloads, 5);
    assert_eq!(DEFAULT_CONCURRENT_DOWNLOADS, 5);
}

#[test]
fn run_without_filter_selects_every_document() {
    let args = args();
    assert!(args.selects("Inventory"));
    assert!(args.selects(""));
}

#[test]
fn run_with_filter_selects_that_document_alone() {
    let mut args = args();
    args.specific_document = Some("Inventory".to_string());
    assert!(args.selects("Inventory"));
    assert!(!args.selects("inventory"));
    assert!(!args.selects("Inventory 2"));
    assert!(!args.selects(""));
}

#[test]
fn method_levels_run_from_zero_to_six() {
    let methods = [
        ConversionMethod::Fastest,
        ConversionMethod::Faster,
        ConversionMethod::Fast,
        ConversionMethod::Normal,
        ConversionMethod::Slow,
        ConversionMethod::Slower,
        ConversionMethod::Slowest,
    ];
    for (number, method) in methods.iter().enumerate() {
        assert_eq!(method.level() as usize, number);
        assert_eq!(ConversionMethod::from_level(number as u8), Some(*method));
    }
    assert_eq!(ConversionMethod::from_level(7), None);
    assert_eq!(ConversionMethod::from_level(255), None);
}

#[test]
fn method_names_are_lower_case() {
    assert_eq!(ConversionMethod::Fastest.name(), "fastest");
    assert_eq!(ConversionMethod::Faster.name(), "faster");
    assert_eq!(ConversionMethod::Fast.name(), "fast");
    assert_eq!(ConversionMethod::Normal.name(), "normal");
    assert_eq!(ConversionMethod::Slow.name(), "slow");
    assert_eq!(ConversionMethod::Slower.name(), "slower");
    assert_eq!(ConversionMethod::Slowest.name(), "slowest");
}
