use webshot::comparison::ComparisonResult;
use webshot::report::format_comparison_result;
use webshot::report::parse_algorithm;
use webshot::report::parse_rgb_color;
use webshot::ComparisonAlgorithm;
use webshot::WebshotError;

#[test]
fn test_parse_rgb_color() {
    assert_eq!(parse_rgb_color("255,0,0").unwrap(), (255, 0, 0));
    assert_eq!(parse_rgb_color("0,0,0").unwrap(), (0, 0, 0));
    assert_eq!(parse_rgb_color(" 12 , 34 , 56 ").unwrap(), (12, 34, 56));
    assert_eq!(parse_rgb_color("+17,007,0").unwrap(), (17, 7, 0));
}

#[test]
fn test_parse_rgb_color_errors() {
    match parse_rgb_color("1,2") {
        Err(WebshotError::Config(msg)) => {
            assert_eq!(
                msg,
                "Invalid color format: 1,2. Expected format: R,G,B (e.g., 255,0,0)"
            );
        }
        other => panic!("expected a configuration error, got {:?}", other),
    }
    match parse_rgb_color("300,0,0") {
        Err(WebshotError::Config(msg)) => assert_eq!(msg, "Invalid red value: 300"),
        other => panic!("expected a configuration error, got {:?}", other),
    }
    match parse_rgb_color("0,x,0") {
        Err(WebshotError::Config(msg)) => assert_eq!(msg, "Invalid green value: x"),
        other => panic!("expected a configuration error, got {:?}", other),
    }
    match parse_rgb_color("0,0,") {
        Err(WebshotError::Config(msg)) => assert_eq!(msg, "Invalid blue value: "),
        other => panic!("expected a configuration error, got {:?}", other),
    }
    assert!(parse_rgb_color("1,2,3,4").is_err());
    assert!(parse_rgb_color("").is_err());
    assert!(parse_rgb_color("-1,0,0").is_err());
}

#[test]
fn test_parse_algorithm() {
    assert_eq!(
        parse_algorithm("pixel-diff").unwrap(),
        ComparisonAlgorithm::PixelDiff
    );
    assert_eq!(
        parse_algorithm("PIXEL").unwrap(),
        ComparisonAlgorithm::PixelDiff
    );
    assert_eq!(parse_algorithm("Ssim").unwrap(), ComparisonAlgorithm::SSIM);
    assert_eq!(parse_algorithm("mse").unwrap(), ComparisonAlgorithm::MSE);
    assert_eq!(parse_algorithm("PSNR").unwrap(), ComparisonAlgorithm::PSNR);
    match parse_algorithm("wavelet") {
        Err(WebshotError::Config(msg)) => {
            assert_eq!(
                msg,
                "Unknown algorithm: wavelet. Supported: pixel-diff, ssim, mse, psnr"
            );
        }
        other => panic!("expected a configuration error, got {:?}", other),
    }
}

#[test]
fn test_format_comparison_result_full() {
    let result = ComparisonResult {
        similar: true,
        similarity: 1_000_000,
        different_pixels: Some(0),
        total_pixels: 10000,
        algorithm: ComparisonAlgorithm::PixelDiff,
        threshold: 100_000,
        diff_image_path: None,
    };
    let text = format_comparison_result(&result);
    assert_eq!(
        text,
        "Image Comparison Results\n\
         ========================\n\n\
         Algorithm: PixelDiff\n\
         Threshold: 0.10\n\
         Similarity: 1.0000 (100.00%)\n\
         Similar: YES\n\
         Different pixels: 0/10000 (0.00%)\n\
         Total pixels: 10000\n"
    );
}

#[test]
fn test_format_comparison_result_without_pixel_count() {
    let result = ComparisonResult {
        similar: false,
        similarity: 809_566,
        different_pixels: None,
        total_pixels: 2500,
        algorithm: ComparisonAlgorithm::SSIM,
        threshold: 100_000,
        diff_image_path: Some(String::from("out/diff.png")),
    };
    let text = format_comparison_result(&result);
    assert_eq!(
        text,
        "Image Comparison Results\n\
         ========================\n\n\
         Algorithm: SSIM\n\
         Threshold: 0.10\n\
         Similarity: 0.8096 (80.96%)\n\
         Similar: NO\n\
         Total pixels: 2500\n\
         Difference image: out/diff.png\n"
    );
}

#[test]
fn test_format_comparison_result_rounding() {
    let result = ComparisonResult {
        similar: false,
        similarity: 500_000,
        different_pixels: Some(1),
        total_pixels: 3,
        algorithm: ComparisonAlgorithm::PixelDiff,
        threshold: 250_000,
        diff_image_path: None,
    };
    let text = format_comparison_result(&result);
    // 1/3 of the pixels differ: 33.33 percent, rounded half-up
    assert!(text.contains("Threshold: 0.25\n"), "{}", text);
    assert!(text.contains("Similarity: 0.5000 (50.00%)\n"), "{}", text);
    assert!(text.contains("Different pixels: 1/3 (33.33%)\n"), "{}", text);
    assert!(text.contains("Similar: NO\n"), "{}", text);
}
