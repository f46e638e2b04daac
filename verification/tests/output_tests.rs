use webshot::output::format_file_size;
use webshot::output::sanitize_filename;
use webshot::ImageFormat;
use webshot::OutputHandler;
use webshot::WebshotError;

#[test]
fn test_sanitize_filename() {
    assert_eq!(sanitize_filename("test.com"), "test.com");
    assert_eq!(sanitize_filename("test/file.png"), "test_file.png");
    assert_eq!(sanitize_filename("test:file?.png"), "test_file_.png");
    assert_eq!(sanitize_filename("normal_file.png"), "normal_file.png");
}

#[test]
fn test_format_file_size() {
    assert_eq!(format_file_size(512), "512 B");
    assert_eq!(format_file_size(1024), "1.0 KB");
    assert_eq!(format_file_size(1536), "1.5 KB");
    assert_eq!(format_file_size(1048576), "1.0 MB");
    assert_eq!(format_file_size(1073741824), "1.0 GB");
}

#[test]
fn test_validate_output_path() {
    assert_eq!(
        OutputHandler::validate_output_path("test.png").unwrap(),
        ImageFormat::Png
    );
    assert_eq!(
        OutputHandler::validate_output_path("test.jpg").unwrap(),
        ImageFormat::Jpeg
    );
    assert_eq!(
        OutputHandler::validate_output_path("test.jpeg").unwrap(),
        ImageFormat::Jpeg
    );
    assert_eq!(
        OutputHandler::validate_output_path("test.pdf").unwrap(),
        ImageFormat::Pdf
    );
    assert_eq!(
        OutputHandler::validate_output_path("test.webp").unwrap(),
        ImageFormat::WebP
    );

    assert!(OutputHandler::validate_output_path("test.gif").is_err());
    assert!(OutputHandler::validate_output_path("test").is_err());
}

#[test]
fn test_validate_output_path_errors() {
    match OutputHandler::validate_output_path("test.gif") {
        Err(WebshotError::UnsupportedFormat { format }) => assert_eq!(format, "gif"),
        other => panic!("expected an unsupported format error, got {:?}", other),
    }
    match OutputHandler::validate_output_path("test") {
        Err(WebshotError::Config(msg)) => assert_eq!(msg, "No file extension found"),
        other => panic!("expected a configuration error, got {:?}", other),
    }
    // a dot inside the directory part names no extension
    assert!(OutputHandler::validate_output_path("dir.d/test").is_err());
    // a hidden file's leading dot names no extension
    assert!(OutputHandler::validate_output_path(".png").is_err());
}

#[test]
fn test_sanitize_filename_trims_dots_and_controls() {
    assert_eq!(sanitize_filename("..name.."), "name");
    assert_eq!(sanitize_filename("...."), "");
    assert_eq!(sanitize_filename("a\u{0007}b"), "a_b");
    assert_eq!(sanitize_filename("<b>|c\"d"), "_b__c_d");
}

#[test]
fn test_format_file_size_boundaries() {
    assert_eq!(format_file_size(0), "0 B");
    assert_eq!(format_file_size(1023), "1023 B");
    assert_eq!(format_file_size(1099511627776), "1.0 TB");
    assert_eq!(format_file_size(1048064), "1023.5 KB");
}

#[test]
fn test_resolve_output_path() {
    // With extension
    let path = OutputHandler::resolve_output_path(
        Some("test.png"),
        "example.com_20240101.png",
        ImageFormat::Png,
    );
    assert_eq!(path, "test.png");

    // Without extension
    let path = OutputHandler::resolve_output_path(
        Some("test"),
        "example.com_20240101.png",
        ImageFormat::Png,
    );
    assert_eq!(path, "test.png");

    // No output path provided: the generated fallback name is used
    let path = OutputHandler::resolve_output_path(
        None,
        "example.com_20240101.png",
        ImageFormat::Png,
    );
    assert_eq!(path, "example.com_20240101.png");
}

#[test]
fn test_error_messages() {
    let e = WebshotError::Config(String::from("boom"));
    assert_eq!(e.message(), "Configuration error: boom");
    let e = WebshotError::UnsupportedFormat {
        format: String::from("gif"),
    };
    assert_eq!(e.message(), "Unsupported image format: gif");
    let e = WebshotError::DimensionMismatch {
        width1: 100,
        height1: 100,
        width2: 200,
        height2: 100,
    };
    assert_eq!(
        e.message(),
        "Image dimensions don't match: (100, 100) vs (200, 100)"
    );
    let e = WebshotError::InvalidViewport { width: 0, height: 800 };
    assert_eq!(e.message(), "Invalid viewport dimensions: width=0, height=800");
    let e = WebshotError::timeout(String::from("page load"));
    assert_eq!(e.message(), "Timeout waiting for condition: page load");
}

#[test]
fn test_handle_existing_file() {
    assert!(OutputHandler::handle_existing_file("out.png", false, false).is_ok());
    assert!(OutputHandler::handle_existing_file("out.png", false, true).is_ok());
    assert!(OutputHandler::handle_existing_file("out.png", true, true).is_ok());
    match OutputHandler::handle_existing_file("out.png", true, false) {
        Err(WebshotError::Config(msg)) => {
            assert_eq!(msg, "File already exists: out.png. Use --force to overwrite.");
        }
        other => panic!("expected a configuration error, got {:?}", other),
    }
}

fn sample_png_bytes() -> Vec<u8> {
    let img = image::RgbImage::from_pixel(4, 4, image::Rgb([10, 200, 30]));
    let mut out = Vec::new();
    let encoder = image::codecs::png::PngEncoder::new(&mut out);
    image::DynamicImage::ImageRgb8(img)
        .write_with_encoder(encoder)
        .unwrap();
    out
}

#[test]
fn test_convert_image_identity() {
    let data = sample_png_bytes();
    let out =
        OutputHandler::convert_image(&data, ImageFormat::Png, ImageFormat::Png, None).unwrap();
    assert_eq!(out, data);
}

#[test]
fn test_convert_image_png_to_jpeg() {
    let data = sample_png_bytes();
    let out =
        OutputHandler::convert_image(&data, ImageFormat::Png, ImageFormat::Jpeg, Some(90)).unwrap();
    assert_ne!(out, data);
    // the result must decode as JPEG with the original dimensions
    let decoded = image::load_from_memory_with_format(&out, image::ImageFormat::Jpeg).unwrap();
    assert_eq!((decoded.width(), decoded.height()), (4, 4));
}

#[test]
fn test_convert_image_png_to_webp_roundtrip() {
    let data = sample_png_bytes();
    let webp =
        OutputHandler::convert_image(&data, ImageFormat::Png, ImageFormat::WebP, None).unwrap();
    let back =
        OutputHandler::convert_image(&webp, ImageFormat::WebP, ImageFormat::Png, None).unwrap();
    let decoded = image::load_from_memory_with_format(&back, image::ImageFormat::Png).unwrap();
    assert_eq!((decoded.width(), decoded.height()), (4, 4));
}

#[test]
fn test_convert_image_pdf_rejected() {
    let data = sample_png_bytes();
    match OutputHandler::convert_image(&data, ImageFormat::Pdf, ImageFormat::Png, None) {
        Err(WebshotError::Config(msg)) => assert_eq!(msg, "Cannot convert from PDF format"),
        other => panic!("expected a configuration error, got {:?}", other),
    }
    match OutputHandler::convert_image(&data, ImageFormat::Png, ImageFormat::Pdf, None) {
        Err(WebshotError::Config(msg)) => {
            assert_eq!(msg, "Cannot convert to PDF format using image conversion");
        }
        other => panic!("expected a configuration error, got {:?}", other),
    }
}

#[test]
fn test_convert_image_bad_bytes() {
    let data = vec![1u8, 2, 3, 4];
    match OutputHandler::convert_image(&data, ImageFormat::Png, ImageFormat::Jpeg, None) {
        Err(WebshotError::Image(_)) => {}
        other => panic!("expected an image error, got {:?}", other),
    }
}
