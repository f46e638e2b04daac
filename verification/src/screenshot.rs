//! Screenshot configuration options and output formats.

use vstd::prelude::*;

use crate::error::WebshotError;
use crate::output::OutputHandler;
use crate::text::ci_matches;
use crate::text::dec_seq;
use crate::text::dec_str_u64;
use crate::text::spec_extension;

verus! {

/// Screenshot configuration options.
#[derive(Debug, Clone)]
pub struct ScreenshotOptions {
    /// Viewport width.
    pub width: u32,
    /// Viewport height.
    pub height: u32,
    /// CSS selector for an element screenshot.
    pub selector: Option<String>,
    /// JavaScript to execute before the screenshot.
    pub javascript: Option<String>,
    /// Element to wait for before taking the screenshot.
    pub wait_for: Option<String>,
    /// Timeout in seconds.
    pub timeout: u64,
    /// Enable retina/high-DPI mode.
    pub retina: bool,
    /// JPEG quality (1-100).
    pub quality: Option<u8>,
    /// Wait time before taking the screenshot.
    pub wait: u64,
    /// Custom user agent.
    pub user_agent: Option<String>,
}

impl ScreenshotOptions {
    /// The default options: a 1280x800 viewport, a 30 second
    /// timeout, and nothing else set.
    pub open spec fn is_default(&self) -> bool {
        &&& self.width == 1280
        &&& self.height == 800
        &&& self.selector is None
        &&& self.javascript is None
        &&& self.wait_for is None
        &&& self.timeout == 30
        &&& !self.retina
        &&& self.quality is None
        &&& self.wait == 0
        &&& self.user_agent is None
    }

    /// The options pass validation: non-zero viewport, a quality
    /// inside 1-100 when set, and a non-zero timeout.
    pub open spec fn is_valid(&self) -> bool {
        &&& self.width != 0
        &&& self.height != 0
        &&& (self.quality matches Some(q) ==> 1 <= q <= 100)
        &&& self.timeout != 0
    }

    /// Create new screenshot options with default values.
    pub fn new() -> (r: Self)
        ensures
            r.is_default(),
    {
        ScreenshotOptions {
            width: 1280,
            height: 800,
            selector: None,
            javascript: None,
            wait_for: None,
            timeout: 30,
            retina: false,
            quality: None,
            wait: 0,
            user_agent: None,
        }
    }

    /// Set the viewport dimensions.
    pub fn viewport(self, width: u32, height: u32) -> (r: Self)
        ensures
            r == (ScreenshotOptions { width, height, ..self }),
    {
        ScreenshotOptions { width, height, ..self }
    }

    /// Set the CSS selector for an element screenshot.
    pub fn selector(self, selector: &str) -> (r: Self)
        ensures
            r == (ScreenshotOptions { selector: r.selector, ..self }),
            r.selector matches Some(s) && s@ == selector@,
    {
        ScreenshotOptions { selector: Some(selector.to_owned()), ..self }
    }

    /// Set the JavaScript to execute.
    pub fn javascript(self, script: &str) -> (r: Self)
        ensures
            r == (ScreenshotOptions { javascript: r.javascript, ..self }),
            r.javascript matches Some(s) && s@ == script@,
    {
        ScreenshotOptions { javascript: Some(script.to_owned()), ..self }
    }

    /// Set the element to wait for.
    pub fn wait_for(self, selector: &str) -> (r: Self)
        ensures
            r == (ScreenshotOptions { wait_for: r.wait_for, ..self }),
            r.wait_for matches Some(s) && s@ == selector@,
    {
        ScreenshotOptions { wait_for: Some(selector.to_owned()), ..self }
    }

    /// Set the timeout in seconds.
    pub fn timeout(self, timeout: u64) -> (r: Self)
        ensures
            r == (ScreenshotOptions { timeout, ..self }),
    {
        ScreenshotOptions { timeout, ..self }
    }

    /// Enable retina mode.
    pub fn retina(self) -> (r: Self)
        ensures
            r == (ScreenshotOptions { retina: true, ..self }),
    {
        ScreenshotOptions { retina: true, ..self }
    }

    /// Set the JPEG quality.
    pub fn quality(self, quality: u8) -> (r: Self)
        ensures
            r == (ScreenshotOptions { quality: Some(quality), ..self }),
    {
        ScreenshotOptions { quality: Some(quality), ..self }
    }

    /// Set the wait time before the screenshot.
    pub fn wait(self, wait: u64) -> (r: Self)
        ensures
            r == (ScreenshotOptions { wait, ..self }),
    {
        ScreenshotOptions { wait, ..self }
    }

    /// Set a custom user agent.
    pub fn user_agent(self, user_agent: &str) -> (r: Self)
        ensures
            r == (ScreenshotOptions { user_agent: r.user_agent, ..self }),
            r.user_agent matches Some(s) && s@ == user_agent@,
    {
        ScreenshotOptions { user_agent: Some(user_agent.to_owned()), ..self }
    }

    /// Validate the options: `Ok` exactly when the viewport is
    /// non-zero, any quality lies in 1-100, and the timeout is
    /// non-zero.
    pub fn validate(&self) -> (r: Result<(), WebshotError>)
        ensures
            r is Ok <==> self.is_valid(),
            (self.width == 0 || self.height == 0) ==> r->Err_0 == (WebshotError::InvalidViewport {
                width: self.width,
                height: self.height,
            }),
            self.width != 0 && self.height != 0 && (self.quality matches Some(q) && !(1 <= q
                <= 100)) ==> (r->Err_0 matches WebshotError::Config(m) && m@
                == "JPEG quality must be between 1-100, got: "@ + dec_seq(
                self.quality->0 as int,
            )),
            self.width != 0 && self.height != 0 && (self.quality matches Some(q) ==> 1 <= q <= 100)
                && self.timeout == 0 ==> (r->Err_0 matches WebshotError::Config(m) && m@
                == "Timeout must be greater than 0"@),
    {
        if self.width == 0 || self.height == 0 {
            return Err(WebshotError::InvalidViewport { width: self.width, height: self.height });
        }
        match self.quality {
            Some(quality) => {
                if quality < 1 || quality > 100 {
                    let mut msg = String::from_str("JPEG quality must be between 1-100, got: ");
                    let digits = dec_str_u64(quality as u64);
                    msg.append(digits.as_str());
                    return Err(WebshotError::Config(msg));
                }
            },
            None => {},
        }
        if self.timeout == 0 {
            return Err(WebshotError::Config(String::from_str("Timeout must be greater than 0")));
        }
        Ok(())
    }

    /// Determine the output format from a file path, by its
    /// extension.
    pub fn output_format(&self, path: &str) -> (r: Result<ImageFormat, WebshotError>)
        ensures
            spec_extension(path@) is None ==> (r->Err_0 matches WebshotError::Config(m) && m@
                == "No file extension found"@),
            spec_extension(path@) matches Some(e) ==> (format_for_extension(e) matches Some(f)
                ==> r == Ok::<ImageFormat, WebshotError>(f)),
            spec_extension(path@) matches Some(e) ==> (format_for_extension(e) is None ==> (
            r->Err_0 matches WebshotError::UnsupportedFormat { format } && format@ == e)),
            r is Ok <==> (spec_extension(path@) matches Some(e) && format_for_extension(e)
                is Some),
    {
        OutputHandler::validate_output_path(path)
    }
}

impl Default for ScreenshotOptions {
    /// The same values as [`ScreenshotOptions::new`].
    fn default() -> (r: Self)
        ensures
            r.is_default(),
    {
        ScreenshotOptions::new()
    }
}

/// Supported output formats.
#[derive(Debug, Clone, Copy, PartialEq, Eq, Structural)]
pub enum ImageFormat {
    Png,
    Jpeg,
    WebP,
    Pdf,
}

/// The format a file-name extension selects, matched without regard
/// to ASCII case.
pub open spec fn format_for_extension(e: Seq<char>) -> Option<ImageFormat> {
    if ci_matches(e, "png"@) {
        Some(ImageFormat::Png)
    } else if ci_matches(e, "jpg"@) || ci_matches(e, "jpeg"@) {
        Some(ImageFormat::Jpeg)
    } else if ci_matches(e, "webp"@) {
        Some(ImageFormat::WebP)
    } else if ci_matches(e, "pdf"@) {
        Some(ImageFormat::Pdf)
    } else {
        None
    }
}

/// The default file extension of a format.
pub open spec fn extension_name(f: ImageFormat) -> Seq<char> {
    match f {
        ImageFormat::Png => "png"@,
        ImageFormat::Jpeg => "jpg"@,
        ImageFormat::WebP => "webp"@,
        ImageFormat::Pdf => "pdf"@,
    }
}

impl ImageFormat {
    /// The default file extension for this format.
    pub fn extension(&self) -> (r: &'static str)
        ensures
            r@ == extension_name(*self),
    {
        match self {
            ImageFormat::Png => "png",
            ImageFormat::Jpeg => "jpg",
            ImageFormat::WebP => "webp",
            ImageFormat::Pdf => "pdf",
        }
    }

    /// The MIME type for this format.
    pub fn mime_type(&self) -> (r: &'static str)
        ensures
            r@ == match *self {
                ImageFormat::Png => "image/png"@,
                ImageFormat::Jpeg => "image/jpeg"@,
                ImageFormat::WebP => "image/webp"@,
                ImageFormat::Pdf => "application/pdf"@,
            },
    {
        match self {
            ImageFormat::Png => "image/png",
            ImageFormat::Jpeg => "image/jpeg",
            ImageFormat::WebP => "image/webp",
            ImageFormat::Pdf => "application/pdf",
        }
    }

    /// Whether this format supports quality settings.
    pub fn supports_quality(&self) -> (r: bool)
        ensures
            r == (*self is Jpeg || *self is WebP),
    {
        matches!(self, ImageFormat::Jpeg | ImageFormat::WebP)
    }

    /// Whether this format supports transparency.
    pub fn supports_transparency(&self) -> (r: bool)
        ensures
            r == (*self is Png || *self is WebP),
    {
        matches!(self, ImageFormat::Png | ImageFormat::WebP)
    }
}

} // verus!
