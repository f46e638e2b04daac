//! Error taxonomy of the library.
//!
//! Every failure the library can report is a distinct, inspectable
//! variant carrying plain data, so callers can match on the cause.

use vstd::prelude::*;

use crate::text::dec_seq;
use crate::text::dec_str_u64;

verus! {

/// Application error types.
#[derive(Debug, Clone, PartialEq, Eq)]
pub enum WebshotError {
    /// Browser launch failure, reported by the capture pipeline.
    BrowserLaunch(String),
    /// Browser tab failure, reported by the capture pipeline.
    Tab(String),
    /// Navigation failure, reported by the capture pipeline.
    Navigation(String),
    /// Screenshot capture failure, reported by the capture pipeline.
    Screenshot(String),
    /// A CSS selector matched no element.
    ElementNotFound { selector: String },
    /// JavaScript evaluation failure.
    JavaScript(String),
    /// Image decoding or encoding failure.
    Image(String),
    /// The two compared images differ in width or height.
    DimensionMismatch { width1: u32, height1: u32, width2: u32, height2: u32 },
    /// An output path names a format the library does not handle.
    UnsupportedFormat { format: String },
    /// A wait condition was not met in time.
    Timeout { condition: String },
    /// Invalid configuration, rejected before any computation.
    Config(String),
    /// PDF generation failure.
    Pdf(String),
    /// Viewport width or height of zero.
    InvalidViewport { width: u32, height: u32 },
}

/// The human-readable message of an error: the cause named, then
/// the details the variant carries.
pub open spec fn message_spec(e: WebshotError) -> Seq<char> {
    match e {
        WebshotError::BrowserLaunch(m) => "Browser launch error: "@ + m@,
        WebshotError::Tab(m) => "Tab error: "@ + m@,
        WebshotError::Navigation(m) => "Navigation error: "@ + m@,
        WebshotError::Screenshot(m) => "Screenshot error: "@ + m@,
        WebshotError::ElementNotFound { selector } => "Element not found: "@ + selector@,
        WebshotError::JavaScript(m) => "JavaScript execution error: "@ + m@,
        WebshotError::Image(m) => "Image processing error: "@ + m@,
        WebshotError::DimensionMismatch { width1, height1, width2, height2 } => {
            "Image dimensions don't match: ("@ + dec_seq(width1 as int) + ", "@ + dec_seq(
                height1 as int,
            ) + ") vs ("@ + dec_seq(width2 as int) + ", "@ + dec_seq(height2 as int) + ")"@
        },
        WebshotError::UnsupportedFormat { format } => "Unsupported image format: "@ + format@,
        WebshotError::Timeout { condition } => "Timeout waiting for condition: "@ + condition@,
        WebshotError::Config(m) => "Configuration error: "@ + m@,
        WebshotError::Pdf(m) => "PDF generation error: "@ + m@,
        WebshotError::InvalidViewport { width, height } => {
            "Invalid viewport dimensions: width="@ + dec_seq(width as int) + ", height="@
                + dec_seq(height as int)
        },
    }
}

impl WebshotError {
    /// The human-readable message of this error.
    pub fn message(&self) -> (r: String)
        ensures
            r@ == message_spec(*self),
    {
        match self {
            WebshotError::BrowserLaunch(m) => {
                let mut s = String::from_str("Browser launch error: ");
                s.append(m.as_str());
                s
            },
            WebshotError::Tab(m) => {
                let mut s = String::from_str("Tab error: ");
                s.append(m.as_str());
                s
            },
            WebshotError::Navigation(m) => {
                let mut s = String::from_str("Navigation error: ");
                s.append(m.as_str());
                s
            },
            WebshotError::Screenshot(m) => {
                let mut s = String::from_str("Screenshot error: ");
                s.append(m.as_str());
                s
            },
            WebshotError::ElementNotFound { selector } => {
                let mut s = String::from_str("Element not found: ");
                s.append(selector.as_str());
                s
            },
            WebshotError::JavaScript(m) => {
                let mut s = String::from_str("JavaScript execution error: ");
                s.append(m.as_str());
                s
            },
            WebshotError::Image(m) => {
                let mut s = String::from_str("Image processing error: ");
                s.append(m.as_str());
                s
            },
            WebshotError::DimensionMismatch { width1, height1, width2, height2 } => {
                let mut s = String::from_str("Image dimensions don't match: (");
                let w1 = dec_str_u64(*width1 as u64);
                s.append(w1.as_str());
                s.append(", ");
                let h1 = dec_str_u64(*height1 as u64);
                s.append(h1.as_str());
                s.append(") vs (");
                let w2 = dec_str_u64(*width2 as u64);
                s.append(w2.as_str());
                s.append(", ");
                let h2 = dec_str_u64(*height2 as u64);
                s.append(h2.as_str());
                s.append(")");
                s
            },
            WebshotError::UnsupportedFormat { format } => {
                let mut s = String::from_str("Unsupported image format: ");
                s.append(format.as_str());
                s
            },
            WebshotError::Timeout { condition } => {
                let mut s = String::from_str("Timeout waiting for condition: ");
                s.append(condition.as_str());
                s
            },
            WebshotError::Config(m) => {
                let mut s = String::from_str("Configuration error: ");
                s.append(m.as_str());
                s
            },
            WebshotError::Pdf(m) => {
                let mut s = String::from_str("PDF generation error: ");
                s.append(m.as_str());
                s
            },
            WebshotError::InvalidViewport { width, height } => {
                let mut s = String::from_str("Invalid viewport dimensions: width=");
                let w = dec_str_u64(*width as u64);
                s.append(w.as_str());
                s.append(", height=");
                let h = dec_str_u64(*height as u64);
                s.append(h.as_str());
                s
            },
        }
    }

    /// Create a navigation error.
    pub fn navigation(msg: String) -> (r: Self)
        ensures
            r == WebshotError::Navigation(msg),
    {
        WebshotError::Navigation(msg)
    }

    /// Create a screenshot error.
    pub fn screenshot(msg: String) -> (r: Self)
        ensures
            r == WebshotError::Screenshot(msg),
    {
        WebshotError::Screenshot(msg)
    }

    /// Create a JavaScript error.
    pub fn javascript(msg: String) -> (r: Self)
        ensures
            r == WebshotError::JavaScript(msg),
    {
        WebshotError::JavaScript(msg)
    }

    /// Create a configuration error.
    pub fn config(msg: String) -> (r: Self)
        ensures
            r == WebshotError::Config(msg),
    {
        WebshotError::Config(msg)
    }

    /// Create a PDF error.
    pub fn pdf(msg: String) -> (r: Self)
        ensures
            r == WebshotError::Pdf(msg),
    {
        WebshotError::Pdf(msg)
    }

    /// Create a timeout error.
    pub fn timeout(condition: String) -> (r: Self)
        ensures
            r == (WebshotError::Timeout { condition }),
    {
        WebshotError::Timeout { condition }
    }
}

} // verus!
