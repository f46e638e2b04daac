use webshot::config::default_algorithm;
use webshot::config::default_diff_color;
use webshot::config::default_height;
use webshot::config::default_timeout;
use webshot::config::default_width;
use webshot::config::DefaultConfig;
use webshot::Config;
use webshot::ScreenshotConfig;
use webshot::WebshotError;

fn sample_screenshot() -> ScreenshotConfig {
    ScreenshotConfig {
        url: String::from("https://example.com"),
        output: String::from("test.png"),
        width: 1920,
        height: 1080,
        selector: None,
        javascript: None,
        wait_for: None,
        timeout: 30,
        retina: false,
        quality: None,
        wait: 0,
        user_agent: None,
        format: None,
        headers: Vec::new(),
        cookies: Vec::new(),
        auth: None,
        comparison: None,
    }
}

#[test]
fn config_test_config_validation() {
    let mut config = Config {
        screenshots: vec![sample_screenshot()],
        defaults: DefaultConfig::default(),
    };

    assert!(config.validate().is_ok());

    // Test invalid URL
    config.screenshots[0].url = String::from("not-a-url");
    assert!(config.validate().is_err());

    // Test invalid dimensions
    config.screenshots[0].url = String::from("https://example.com");
    config.screenshots[0].width = 0;
    assert!(config.validate().is_err());
}

#[test]
fn test_empty_config_rejected() {
    let config = Config {
        screenshots: Vec::new(),
        defaults: DefaultConfig::default(),
    };
    match config.validate() {
        Err(WebshotError::Config(msg)) => {
            assert_eq!(msg, "No screenshots defined in configuration");
        }
        other => panic!("expected a configuration error, got {:?}", other),
    }
}

#[test]
fn test_config_validation_details() {
    let mut config = Config {
        screenshots: vec![sample_screenshot()],
        defaults: DefaultConfig::default(),
    };

    // quality out of range
    config.screenshots[0].quality = Some(0);
    assert!(config.validate().is_err());
    config.screenshots[0].quality = Some(100);
    assert!(config.validate().is_ok());

    // zero timeout
    config.screenshots[0].timeout = 0;
    assert!(config.validate().is_err());
    config.screenshots[0].timeout = 10;

    // unsupported output extension without a format override
    config.screenshots[0].output = String::from("shot.gif");
    match config.validate() {
        Err(WebshotError::UnsupportedFormat { format }) => assert_eq!(format, "gif"),
        other => panic!("expected an unsupported format error, got {:?}", other),
    }

    // a format override lifts the extension requirement
    config.screenshots[0].format = Some(String::from("png"));
    assert!(config.validate().is_ok());

    // missing extension
    config.screenshots[0].format = None;
    config.screenshots[0].output = String::from("shot");
    assert!(config.validate().is_err());

    // webp is not acceptable as a screenshot output extension
    config.screenshots[0].output = String::from("shot.webp");
    assert!(config.validate().is_err());
}

#[test]
fn test_defaults() {
    assert_eq!(default_width(), 1280);
    assert_eq!(default_height(), 800);
    assert_eq!(default_timeout(), 30);
    assert_eq!(default_algorithm(), "pixel-diff");
    assert_eq!(default_diff_color(), "255,0,0");
    let d = DefaultConfig::default();
    assert_eq!((d.width, d.height, d.timeout), (1280, 800, 30));
    assert!(d.headers.is_empty() && d.cookies.is_empty());
}

#[test]
fn test_apply_defaults_fills_unset_fields() {
    let mut sc = sample_screenshot();
    sc.width = 1280;
    sc.height = 800;
    sc.timeout = 30;
    let mut config = Config {
        screenshots: vec![sc],
        defaults: DefaultConfig {
            width: 1920,
            height: 1080,
            timeout: 60,
            user_agent: Some(String::from("Agent")),
            output_dir: None,
            wait: 0,
            retina: false,
            quality: Some(85),
            headers: Vec::new(),
            cookies: Vec::new(),
        },
    };
    config.apply_defaults();
    let sc = &config.screenshots[0];
    assert_eq!((sc.width, sc.height, sc.timeout), (1920, 1080, 60));
    assert_eq!(sc.user_agent.as_deref(), Some("Agent"));
    assert_eq!(sc.quality, Some(85));
}

#[test]
fn test_apply_defaults_keeps_explicit_fields() {
    let mut sc = sample_screenshot();
    sc.width = 640;
    sc.quality = Some(50);
    sc.user_agent = Some(String::from("Mine"));
    let mut config = Config {
        screenshots: vec![sc],
        defaults: DefaultConfig {
            width: 1920,
            height: 1080,
            timeout: 60,
            user_agent: Some(String::from("Agent")),
            output_dir: None,
            wait: 0,
            retina: false,
            quality: Some(85),
            headers: Vec::new(),
            cookies: Vec::new(),
        },
    };
    config.apply_defaults();
    let sc = &config.screenshots[0];
    assert_eq!(sc.width, 640);
    assert_eq!(sc.quality, Some(50));
    assert_eq!(sc.user_agent.as_deref(), Some("Mine"));
}

#[test]
fn test_apply_defaults_merges_headers() {
    let mut sc = sample_screenshot();
    sc.headers = vec![(String::from("Accept"), String::from("text/html"))];
    let mut config = Config {
        screenshots: vec![sc],
        defaults: DefaultConfig {
            headers: vec![
                (String::from("Accept"), String::from("overridden")),
                (String::from("X-Extra"), String::from("1")),
            ],
            ..DefaultConfig::default()
        },
    };
    config.apply_defaults();
    let hs = &config.screenshots[0].headers;
    assert_eq!(hs.len(), 2);
    assert_eq!(hs[0], (String::from("Accept"), String::from("text/html")));
    assert_eq!(hs[1], (String::from("X-Extra"), String::from("1")));
}

#[test]
fn test_apply_defaults_resolves_relative_output() {
    let mut config = Config {
        screenshots: vec![sample_screenshot()],
        defaults: DefaultConfig {
            output_dir: Some(String::from("shots")),
            ..DefaultConfig::default()
        },
    };
    config.apply_defaults();
    assert_eq!(config.screenshots[0].output, "shots/test.png");

    let mut sc = sample_screenshot();
    sc.output = String::from("/abs/test.png");
    let mut config = Config {
        screenshots: vec![sc],
        defaults: DefaultConfig {
            output_dir: Some(String::from("shots/")),
            ..DefaultConfig::default()
        },
    };
    config.apply_defaults();
    assert_eq!(config.screenshots[0].output, "/abs/test.png");
}
