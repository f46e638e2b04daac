//! Image comparison engine for visual-regression testing, with the
//! configuration, validation and output-handling types around it.
//!
//! Two equally sized RGB images are compared under one of four
//! interchangeable algorithms; the caller receives a similarity score,
//! a boolean similar-or-not answer against a configurable threshold, and optionally a
//! synthesized difference image.  All scores are exact integers in
//! millionths, so every formula is stated and proved precisely.

pub mod comparison;
pub mod config;
pub mod error;
pub mod numeric;
pub mod output;
pub mod raster;
pub mod report;
pub mod screenshot;
pub mod ssim;
pub mod text;

pub use comparison::{ComparisonAlgorithm, ComparisonOptions, ComparisonResult, ImageComparator};
pub use config::{Config, ScreenshotConfig};
pub use error::WebshotError;
pub use output::OutputHandler;
pub use raster::{GrayImage, Image, Pixel};
pub use screenshot::{ImageFormat, ScreenshotOptions};
