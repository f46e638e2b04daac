use webshot::ImageFormat;
use webshot::ScreenshotOptions;

#[test]
fn test_screenshot_options_builder() {
    let options = ScreenshotOptions::new()
        .viewport(1920, 1080)
        .selector(".header")
        .javascript("console.log('test')")
        .wait_for(".content")
        .timeout(60)
        .retina()
        .quality(90)
        .wait(5)
        .user_agent("Custom Agent");

    assert_eq!(options.width, 1920);
    assert_eq!(options.height, 1080);
    assert_eq!(options.selector.as_deref(), Some(".header"));
    assert_eq!(options.javascript.as_deref(), Some("console.log('test')"));
    assert_eq!(options.wait_for.as_deref(), Some(".content"));
    assert_eq!(options.timeout, 60);
    assert!(options.retina);
    assert_eq!(options.quality, Some(90));
    assert_eq!(options.wait, 5);
    assert_eq!(options.user_agent.as_deref(), Some("Custom Agent"));
}

#[test]
fn test_options_validation() {
    let defaults = ScreenshotOptions::default();
    assert_eq!((defaults.width, defaults.height, defaults.timeout), (1280, 800, 30));

    let mut options = ScreenshotOptions::new();
    assert!(options.validate().is_ok());

    options.width = 0;
    assert!(options.validate().is_err());

    options.width = 1280;
    options.quality = Some(150);
    assert!(options.validate().is_err());

    options.quality = Some(80);
    options.timeout = 0;
    assert!(options.validate().is_err());
}

#[test]
fn test_output_format_detection() {
    let options = ScreenshotOptions::new();

    assert_eq!(options.output_format("test.png").unwrap(), ImageFormat::Png);
    assert_eq!(options.output_format("test.jpg").unwrap(), ImageFormat::Jpeg);
    assert_eq!(options.output_format("test.jpeg").unwrap(), ImageFormat::Jpeg);
    assert_eq!(options.output_format("test.pdf").unwrap(), ImageFormat::Pdf);
    assert_eq!(options.output_format("test.webp").unwrap(), ImageFormat::WebP);

    assert!(options.output_format("test.gif").is_err());
    assert!(options.output_format("test").is_err());
}

#[test]
fn test_image_format() {
    assert_eq!(ImageFormat::Png.extension(), "png");
    assert_eq!(ImageFormat::Jpeg.extension(), "jpg");
    assert_eq!(ImageFormat::Pdf.extension(), "pdf");
    assert_eq!(ImageFormat::WebP.extension(), "webp");

    assert_eq!(ImageFormat::Png.mime_type(), "image/png");
    assert_eq!(ImageFormat::Jpeg.mime_type(), "image/jpeg");
    assert_eq!(ImageFormat::Pdf.mime_type(), "application/pdf");
    assert_eq!(ImageFormat::WebP.mime_type(), "image/webp");

    assert!(!ImageFormat::Png.supports_quality());
    assert!(ImageFormat::Jpeg.supports_quality());
    assert!(!ImageFormat::Pdf.supports_quality());
    assert!(ImageFormat::WebP.supports_quality());

    assert!(ImageFormat::Png.supports_transparency());
    assert!(!ImageFormat::Jpeg.supports_transparency());
    assert!(!ImageFormat::Pdf.supports_transparency());
    assert!(ImageFormat::WebP.supports_transparency());
}

#[test]
fn test_uppercase_extensions_accepted() {
    let options = ScreenshotOptions::new();
    assert_eq!(options.output_format("shot.PNG").unwrap(), ImageFormat::Png);
    assert_eq!(options.output_format("shot.JPEG").unwrap(), ImageFormat::Jpeg);
    assert_eq!(options.output_format("dir.d/shot.WebP").unwrap(), ImageFormat::WebP);
}

#[test]
fn test_viewport_quality_messages() {
    let mut options = ScreenshotOptions::new();
    options.quality = Some(150);
    match options.validate() {
        Err(webshot::WebshotError::Config(msg)) => {
            assert_eq!(msg, "JPEG quality must be between 1-100, got: 150");
        }
        other => panic!("expected a configuration error, got {:?}", other),
    }

    options.quality = None;
    options.height = 0;
    match options.validate() {
        Err(webshot::WebshotError::InvalidViewport { width, height }) => {
            assert_eq!((width, height), (1280, 0));
        }
        other => panic!("expected an invalid viewport error, got {:?}", other),
    }
}
