use webshot::comparison::SIMILARITY_SCALE;
use webshot::ComparisonAlgorithm;
use webshot::ComparisonOptions;
use webshot::ImageComparator;
use webshot::Image;
use webshot::Pixel;
use webshot::WebshotError;

fn create_test_image(width: u32, height: u32, color: [u8; 3]) -> Image {
    Image::new(width, height, Pixel::new(color[0], color[1], color[2]))
}

#[test]
fn test_identical_images() {
    let img1 = create_test_image(100, 100, [255, 0, 0]);
    let img2 = create_test_image(100, 100, [255, 0, 0]);

    let options = ComparisonOptions::new();
    let result = ImageComparator::compare_images(&img1, &img2, &options).unwrap();

    assert!(result.similar);
    assert_eq!(result.similarity, 1_000_000);
    assert_eq!(result.different_pixels, Some(0));
}

#[test]
fn test_different_images() {
    let img1 = create_test_image(100, 100, [255, 0, 0]);
    let img2 = create_test_image(100, 100, [0, 255, 0]);

    let options = ComparisonOptions::new();
    let result = ImageComparator::compare_images(&img1, &img2, &options).unwrap();

    assert!(!result.similar);
    assert_eq!(result.similarity, 0);
    assert_eq!(result.different_pixels, Some(10000));
}

#[test]
fn test_dimension_mismatch() {
    let img1 = create_test_image(100, 100, [255, 0, 0]);
    let img2 = create_test_image(200, 100, [255, 0, 0]);

    let options = ComparisonOptions::new();
    let result = ImageComparator::compare_images(&img1, &img2, &options);

    assert!(result.is_err());
}

#[test]
fn test_comparison_algorithms() {
    // Identical images should score high under every algorithm
    for algorithm in [
        ComparisonAlgorithm::PixelDiff,
        ComparisonAlgorithm::SSIM,
        ComparisonAlgorithm::MSE,
        ComparisonAlgorithm::PSNR,
    ] {
        let img1 = create_test_image(50, 50, [255, 0, 0]);
        let img2 = create_test_image(50, 50, [255, 0, 0]);

        let options = ComparisonOptions::new().algorithm(algorithm);
        let result = ImageComparator::compare_images(&img1, &img2, &options).unwrap();

        assert!(
            result.similarity >= 900_000,
            "Algorithm {:?} didn't recognize identical images: {}",
            algorithm,
            result.similarity
        );
        assert_eq!(result.algorithm, algorithm);
    }

    // Completely different solid colors should score low; SSIM sees
    // structure, so solid colors may still score fairly high there
    for algorithm in [
        ComparisonAlgorithm::PixelDiff,
        ComparisonAlgorithm::SSIM,
        ComparisonAlgorithm::MSE,
        ComparisonAlgorithm::PSNR,
    ] {
        let img1 = create_test_image(50, 50, [255, 0, 0]);
        let img2 = create_test_image(50, 50, [0, 255, 0]);

        let options = ComparisonOptions::new().algorithm(algorithm);
        let result = ImageComparator::compare_images(&img1, &img2, &options).unwrap();

        let max_similarity = if algorithm == ComparisonAlgorithm::SSIM {
            900_000
        } else {
            500_000
        };
        assert!(
            result.similarity <= max_similarity,
            "Algorithm {:?} gave too high similarity for different images: {}",
            algorithm,
            result.similarity
        );
        assert_eq!(result.algorithm, algorithm);
    }
}

#[test]
fn test_dimension_mismatch_names_both_dimensions() {
    let img1 = create_test_image(100, 100, [10, 20, 30]);
    let img2 = create_test_image(200, 100, [10, 20, 30]);

    let options = ComparisonOptions::new();
    match ImageComparator::compare_images(&img1, &img2, &options) {
        Err(WebshotError::DimensionMismatch { width1, height1, width2, height2 }) => {
            assert_eq!((width1, height1), (100, 100));
            assert_eq!((width2, height2), (200, 100));
        }
        other => panic!("expected a dimension mismatch, got {:?}", other),
    }
}

#[test]
fn test_similar_flag_tracks_threshold() {
    // 2x1: one pixel equal, one different: similarity is exactly 1/2
    let mut pixels = Vec::new();
    pixels.push(Pixel::new(0, 0, 0));
    pixels.push(Pixel::new(255, 255, 255));
    let img1 = Image::from_pixels(2, 1, pixels);
    let img2 = create_test_image(2, 1, [0, 0, 0]);

    let strict = ComparisonOptions::new().threshold(400_000);
    let result = ImageComparator::compare_images(&img1, &img2, &strict).unwrap();
    assert_eq!(result.similarity, 500_000);
    assert!(!result.similar);

    let lax = ComparisonOptions::new().threshold(500_000);
    let result = ImageComparator::compare_images(&img1, &img2, &lax).unwrap();
    assert_eq!(result.similarity, 500_000);
    assert!(result.similar);
}

#[test]
fn test_mse_exact_value() {
    let img1 = create_test_image(50, 50, [255, 0, 0]);
    let img2 = create_test_image(50, 50, [0, 255, 0]);
    assert_eq!(ImageComparator::mse_comparison(&img1, &img2), 5847);
}

#[test]
fn test_ssim_exact_value() {
    let img1 = create_test_image(50, 50, [255, 0, 0]);
    let img2 = create_test_image(50, 50, [0, 255, 0]);
    assert_eq!(ImageComparator::ssim_comparison(&img1, &img2), 809_566);
}

#[test]
fn test_psnr_exact_value_at_power_of_ten() {
    // Squared error 39015 over 2 pixels gives a ratio of exactly 10,
    // so the similarity is exactly one tenth of the scale
    let mut pixels = Vec::new();
    pixels.push(Pixel::new(197, 14, 3));
    pixels.push(Pixel::new(1, 0, 0));
    let img1 = Image::from_pixels(2, 1, pixels);
    let img2 = create_test_image(2, 1, [0, 0, 0]);
    assert_eq!(ImageComparator::psnr_comparison(&img1, &img2), 100_000);
}

#[test]
fn test_psnr_red_green_value() {
    let img1 = create_test_image(50, 50, [255, 0, 0]);
    let img2 = create_test_image(50, 50, [0, 255, 0]);
    let sim = ImageComparator::psnr_comparison(&img1, &img2);
    // 10 * log10(1.5) in hundred-thousandths, up to the last digit
    assert!((17_500..17_700).contains(&sim), "psnr similarity {}", sim);
}

#[test]
fn test_pixel_classifier_tolerances() {
    let a = Pixel::new(100, 100, 100);
    let close = Pixel::new(102, 98, 100);
    let near = Pixel::new(110, 95, 100);
    let far = Pixel::new(120, 100, 100);

    assert!(ImageComparator::pixels_similar(&a, &a, false));
    assert!(ImageComparator::pixels_similar(&a, &close, false));
    assert!(!ImageComparator::pixels_similar(&a, &near, false));
    assert!(ImageComparator::pixels_similar(&a, &near, true));
    assert!(!ImageComparator::pixels_similar(&a, &far, true));
}

#[test]
fn test_scenario_identical_red_images() {
    let img1 = create_test_image(100, 100, [255, 0, 0]);
    let img2 = create_test_image(100, 100, [255, 0, 0]);
    let options = ComparisonOptions::new();
    let result = ImageComparator::compare_images(&img1, &img2, &options).unwrap();
    assert_eq!(result.similarity, 1_000_000);
    assert!(result.similar);
    assert_eq!(result.different_pixels, Some(0));
    assert_eq!(result.total_pixels, 10000);
    assert_eq!(result.threshold, 100_000);
}

#[test]
fn test_scenario_red_vs_green() {
    let img1 = create_test_image(100, 100, [255, 0, 0]);
    let img2 = create_test_image(100, 100, [0, 255, 0]);
    let options = ComparisonOptions::new();
    let result = ImageComparator::compare_images(&img1, &img2, &options).unwrap();
    assert_eq!(result.similarity, 0);
    assert!(!result.similar);
    assert_eq!(result.different_pixels, Some(10000));
}

#[test]
fn test_scenario_antialiasing_tolerance() {
    // (250,5,5) is outside the strict tolerance of 2 per channel but
    // inside the anti-aliasing tolerance of 10
    let img1 = create_test_image(50, 50, [255, 0, 0]);
    let img2 = create_test_image(50, 50, [250, 5, 5]);

    let options = ComparisonOptions::new().ignore_antialiasing();
    let result = ImageComparator::compare_images(&img1, &img2, &options).unwrap();
    assert_eq!(result.different_pixels, Some(0));
    assert_eq!(result.similarity, 1_000_000);

    let options = ComparisonOptions::new();
    let result = ImageComparator::compare_images(&img1, &img2, &options).unwrap();
    assert_eq!(result.different_pixels, Some(2500));
    assert_eq!(result.similarity, 0);
}

#[test]
fn test_diff_image_uniform_highlight() {
    // Diff generation with a blue highlight: every pixel differs, so
    // the whole diff image is the highlight color
    let img1 = create_test_image(50, 50, [255, 0, 0]);
    let img2 = create_test_image(50, 50, [0, 255, 0]);
    let options = ComparisonOptions::new().diff_color(0, 0, 255);

    let diff = ImageComparator::generate_diff_image(&img1, &img2, &options);
    assert_eq!(diff.dimensions(), (50, 50));
    for y in 0..50 {
        for x in 0..50 {
            assert_eq!(diff.get_pixel(x, y), Pixel::new(0, 0, 255));
        }
    }
}

#[test]
fn test_diff_image_mixed_pixels() {
    // One pixel equal, one different: the equal position keeps the
    // first image's pixel, the differing one takes the highlight
    let mut pixels = Vec::new();
    pixels.push(Pixel::new(7, 8, 9));
    pixels.push(Pixel::new(200, 200, 200));
    let img1 = Image::from_pixels(2, 1, pixels);
    let img2 = create_test_image(2, 1, [7, 8, 9]);
    let options = ComparisonOptions::new();

    let diff = ImageComparator::generate_diff_image(&img1, &img2, &options);
    assert_eq!(diff.dimensions(), (2, 1));
    assert_eq!(diff.get_pixel(0, 0), Pixel::new(7, 8, 9));
    assert_eq!(diff.get_pixel(1, 0), Pixel::new(255, 0, 0));
}

#[test]
fn test_diff_path_echoed_when_requested() {
    let img1 = create_test_image(10, 10, [255, 0, 0]);
    let img2 = create_test_image(10, 10, [0, 255, 0]);
    let options = ComparisonOptions::new().generate_diff_image(String::from("diff.png"));
    let result = ImageComparator::compare_images(&img1, &img2, &options).unwrap();
    assert_eq!(result.diff_image_path, Some(String::from("diff.png")));

    let options = ComparisonOptions::new();
    let result = ImageComparator::compare_images(&img1, &img2, &options).unwrap();
    assert_eq!(result.diff_image_path, None);
}

#[test]
fn test_threshold_validation() {
    let mut options = ComparisonOptions::new();
    options.threshold = 1_500_000;
    assert!(options.validate().is_err());

    options.threshold = -100_000;
    assert!(options.validate().is_err());

    options.threshold = 0;
    assert!(options.validate().is_ok());

    options.threshold = 1_000_000;
    assert!(options.validate().is_ok());
}

#[test]
fn test_threshold_builder_clamps() {
    let options = ComparisonOptions::new().threshold(2_000_000);
    assert_eq!(options.threshold, 1_000_000);
    let options = ComparisonOptions::new().threshold(-5);
    assert_eq!(options.threshold, 0);
    let options = ComparisonOptions::new().threshold(123_456);
    assert_eq!(options.threshold, 123_456);
}

#[test]
fn test_diff_image_option_requires_path() {
    let mut options = ComparisonOptions::new();
    options.generate_diff_image = true;
    match options.validate() {
        Err(WebshotError::Config(msg)) => {
            assert_eq!(msg, "Diff output path must be specified when generating diff image");
        }
        other => panic!("expected a configuration error, got {:?}", other),
    }

    options.diff_output_path = Some(String::from("diff.png"));
    assert!(options.validate().is_ok());
}

#[test]
fn test_invalid_options_rejected_before_comparison() {
    let img1 = create_test_image(10, 10, [255, 0, 0]);
    let img2 = create_test_image(20, 20, [255, 0, 0]);
    let mut options = ComparisonOptions::new();
    options.threshold = 5_000_000;
    // options are validated before dimensions are checked
    match ImageComparator::compare_images(&img1, &img2, &options) {
        Err(WebshotError::Config(_)) => {}
        other => panic!("expected a configuration error, got {:?}", other),
    }
}

#[test]
fn test_default_algorithm_is_pixel_diff() {
    assert_eq!(ComparisonAlgorithm::default(), ComparisonAlgorithm::PixelDiff);
    let options = ComparisonOptions::new();
    assert_eq!(options.algorithm, ComparisonAlgorithm::PixelDiff);
    assert_eq!(options.threshold, webshot::comparison::DEFAULT_THRESHOLD);
    assert!(!options.generate_diff_image);
    assert!(!options.ignore_antialiasing);
    assert_eq!(options.diff_color, Pixel::new(255, 0, 0));

    let options = ComparisonOptions::default();
    assert_eq!(options.algorithm, ComparisonAlgorithm::PixelDiff);
    assert_eq!(options.threshold, 100_000);
    assert_eq!(options.diff_output_path, None);
}

#[test]
fn test_similarity_scale_bounds() {
    // every algorithm stays inside the unit interval on a mixed image
    let mut pixels = Vec::new();
    for i in 0..64u32 {
        pixels.push(Pixel::new((i * 4) as u8, (255 - i) as u8, (i * 2) as u8));
    }
    let img1 = Image::from_pixels(8, 8, pixels);
    let img2 = create_test_image(8, 8, [128, 128, 128]);
    for algorithm in [
        ComparisonAlgorithm::PixelDiff,
        ComparisonAlgorithm::SSIM,
        ComparisonAlgorithm::MSE,
        ComparisonAlgorithm::PSNR,
    ] {
        let options = ComparisonOptions::new().algorithm(algorithm);
        let result = ImageComparator::compare_images(&img1, &img2, &options).unwrap();
        assert!(result.similarity <= SIMILARITY_SCALE);
        assert_eq!(result.similar, result.similarity >= SIMILARITY_SCALE - 100_000);
    }
}
