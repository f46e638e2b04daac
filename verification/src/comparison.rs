//! The image comparison engine.
//!
//! Given two equally sized images and a set of options, the engine
//! computes a similarity score in millionths (0 = completely
//! different, 1000000 = identical) under one of four interchangeable
//! algorithms, derives a boolean similar-or-not answer against the configured
//! threshold, and can synthesize a difference image highlighting the
//! pixels that differ.

use vstd::prelude::*;

use crate::error::WebshotError;
use crate::numeric::lemma_div_le_scale;
use crate::numeric::log10_fixed;
use crate::numeric::spec_log10_fixed;
use crate::raster::GrayImage;
use crate::raster::Image;
use crate::raster::Pixel;
use crate::ssim;

verus! {

/// Similarity scores and thresholds are integers in millionths of
/// the unit interval: this value stands for 1.0.
pub const SIMILARITY_SCALE: u64 = 1_000_000;

/// Default threshold: a tenth of the unit interval, in millionths.
pub const DEFAULT_THRESHOLD: i64 = 100_000;

/// Image comparison algorithms.
#[derive(Debug, Clone, Copy, PartialEq, Eq, Structural)]
pub enum ComparisonAlgorithm {
    /// Pixel-by-pixel difference.
    PixelDiff,
    /// Structural Similarity Index (SSIM).
    SSIM,
    /// Mean Squared Error.
    MSE,
    /// Peak Signal-to-Noise Ratio.
    PSNR,
}

/// The display name of an algorithm.
pub open spec fn algorithm_name(a: ComparisonAlgorithm) -> Seq<char> {
    match a {
        ComparisonAlgorithm::PixelDiff => "PixelDiff"@,
        ComparisonAlgorithm::SSIM => "SSIM"@,
        ComparisonAlgorithm::MSE => "MSE"@,
        ComparisonAlgorithm::PSNR => "PSNR"@,
    }
}

impl ComparisonAlgorithm {
    /// The display name of this algorithm.
    pub fn name(&self) -> (r: &'static str)
        ensures
            r@ == algorithm_name(*self),
    {
        match self {
            ComparisonAlgorithm::PixelDiff => "PixelDiff",
            ComparisonAlgorithm::SSIM => "SSIM",
            ComparisonAlgorithm::MSE => "MSE",
            ComparisonAlgorithm::PSNR => "PSNR",
        }
    }
}

impl Default for ComparisonAlgorithm {
    /// The default algorithm is the pixel-by-pixel difference.
    fn default() -> (r: Self)
        ensures
            r == ComparisonAlgorithm::PixelDiff,
    {
        ComparisonAlgorithm::PixelDiff
    }
}

/// Comparison options.
#[derive(Debug, Clone)]
pub struct ComparisonOptions {
    /// Comparison algorithm to use.
    pub algorithm: ComparisonAlgorithm,
    /// Threshold for considering images different, in millionths of
    /// the unit interval (0 to 1000000).
    pub threshold: i64,
    /// Generate a difference image highlighting changes.
    pub generate_diff_image: bool,
    /// Output path for the difference image.
    pub diff_output_path: Option<String>,
    /// Ignore minor color differences (useful for anti-aliasing).
    pub ignore_antialiasing: bool,
    /// Color to highlight differences in the diff image.
    pub diff_color: Pixel,
}

/// Result of an image comparison.
#[derive(Debug, Clone)]
pub struct ComparisonResult {
    /// Are the images considered similar based on the threshold.
    pub similar: bool,
    /// Similarity score in millionths (0 = completely different,
    /// 1000000 = identical).
    pub similarity: u64,
    /// Number of differing pixels (for the pixel diff algorithm).
    pub different_pixels: Option<u32>,
    /// Total number of pixels compared.
    pub total_pixels: u32,
    /// Algorithm used for the comparison.
    pub algorithm: ComparisonAlgorithm,
    /// Threshold used, in millionths.
    pub threshold: i64,
    /// Path for the difference image, if one was requested.
    pub diff_image_path: Option<String>,
}

/// The per-channel tolerance of the pixel classifier: 10 when
/// anti-aliasing differences are ignored, 2 otherwise.
pub open spec fn channel_tolerance(ignore_antialiasing: bool) -> int {
    if ignore_antialiasing {
        10
    } else {
        2
    }
}

/// Absolute difference of two 8-bit channel values.
pub open spec fn abs_diff(a: u8, b: u8) -> int {
    if a >= b {
        a - b
    } else {
        b - a
    }
}

/// The pixel classifier: two pixels count as equal when every
/// channel differs by at most `tol`.
pub open spec fn pixels_within_tolerance(p1: Pixel, p2: Pixel, tol: int) -> bool {
    &&& abs_diff(p1.r, p2.r) <= tol
    &&& abs_diff(p1.g, p2.g) <= tol
    &&& abs_diff(p1.b, p2.b) <= tol
}

/// Number of positions among the first `n` where the classifier
/// finds the pixels different.
pub open spec fn diff_count(s1: Seq<Pixel>, s2: Seq<Pixel>, tol: int, n: int) -> int
    decreases n,
{
    if n <= 0 {
        0
    } else {
        diff_count(s1, s2, tol, n - 1) + if pixels_within_tolerance(s1[n - 1], s2[n - 1], tol) {
            0int
        } else {
            1int
        }
    }
}

/// The pixel-diff similarity: the differing fraction subtracted from
/// one, in millionths, truncated.
pub open spec fn pixel_diff_similarity(s1: Seq<Pixel>, s2: Seq<Pixel>, tol: int, total: int) -> int {
    (total - diff_count(s1, s2, tol, total)) * SIMILARITY_SCALE / total
}

/// Squared difference of two 8-bit channel values.
pub open spec fn sq_diff(a: u8, b: u8) -> int {
    (a - b) * (a - b)
}

/// Squared error of one pixel pair, summed over the three channels.
pub open spec fn pixel_sq_error(p1: Pixel, p2: Pixel) -> int {
    sq_diff(p1.r, p2.r) + sq_diff(p1.g, p2.g) + sq_diff(p1.b, p2.b)
}

/// Total squared error over the first `n` positions.
pub open spec fn sq_error_sum(s1: Seq<Pixel>, s2: Seq<Pixel>, n: int) -> int
    decreases n,
{
    if n <= 0 {
        0
    } else {
        sq_error_sum(s1, s2, n - 1) + pixel_sq_error(s1[n - 1], s2[n - 1])
    }
}

/// The MSE similarity `1 / (1 + mse / 255)` in millionths: with
/// `mse = sq / (3 * total)` this is `765 * total / (765 * total + sq)`,
/// scaled and truncated.
pub open spec fn mse_similarity(s1: Seq<Pixel>, s2: Seq<Pixel>, total: int) -> int {
    765 * total * SIMILARITY_SCALE / (765 * total + sq_error_sum(s1, s2, total))
}

/// The PSNR similarity `clamp(psnr / 100, 0, 1)` in millionths.
///
/// With `mse = sq / (3 * total)` the decibel value is
/// `20*log10(255) - 10*log10(mse) = 10 * log10(195075 * total / sq)`,
/// so a hundredth of it, in millionths, is the fixed-point logarithm
/// of that ratio in hundred-thousandths.  Zero error means identical
/// images and a similarity of exactly one.
pub open spec fn psnr_similarity(s1: Seq<Pixel>, s2: Seq<Pixel>, total: int) -> int {
    let sq = sq_error_sum(s1, s2, total);
    if sq == 0 {
        SIMILARITY_SCALE as int
    } else {
        let l = spec_log10_fixed(195_075 * total, sq);
        if l >= SIMILARITY_SCALE {
            SIMILARITY_SCALE as int
        } else {
            l
        }
    }
}

/// The similarity score selected by `algorithm`, over the flat pixel
/// grids of the two images.
pub open spec fn similarity_spec(
    algorithm: ComparisonAlgorithm,
    s1: Seq<Pixel>,
    s2: Seq<Pixel>,
    ignore_antialiasing: bool,
    total: int,
) -> int {
    match algorithm {
        ComparisonAlgorithm::PixelDiff => pixel_diff_similarity(
            s1,
            s2,
            channel_tolerance(ignore_antialiasing),
            total,
        ),
        ComparisonAlgorithm::SSIM => ssim::ssim_similarity(
            ssim::gray_seq(s1),
            ssim::gray_seq(s2),
            total,
        ),
        ComparisonAlgorithm::MSE => mse_similarity(s1, s2, total),
        ComparisonAlgorithm::PSNR => psnr_similarity(s1, s2, total),
    }
}

/// The squared error of one pixel pair is between 0 and 195075.
pub proof fn lemma_pixel_sq_error_bounds(p1: Pixel, p2: Pixel)
    ensures
        0 <= pixel_sq_error(p1, p2) <= 195_075,
{
    assert(0 <= sq_diff(p1.r, p2.r) <= 65_025) by (nonlinear_arith)
        requires
            -255 <= p1.r - p2.r <= 255,
    ;
    assert(0 <= sq_diff(p1.g, p2.g) <= 65_025) by (nonlinear_arith)
        requires
            -255 <= p1.g - p2.g <= 255,
    ;
    assert(0 <= sq_diff(p1.b, p2.b) <= 65_025) by (nonlinear_arith)
        requires
            -255 <= p1.b - p2.b <= 255,
    ;
}

/// A pixel always lies within any non-negative tolerance of itself,
/// so identical grids have no differing positions.
proof fn lemma_diff_count_identical(s: Seq<Pixel>, tol: int, n: int)
    requires
        0 <= tol,
        n <= s.len(),
    ensures
        diff_count(s, s, tol, n) == 0,
    decreases n,
{
    if n > 0 {
        lemma_diff_count_identical(s, tol, n - 1);
    }
}

/// Identical grids accumulate no squared error.
proof fn lemma_sq_error_identical(s: Seq<Pixel>, n: int)
    requires
        n <= s.len(),
    ensures
        sq_error_sum(s, s, n) == 0,
    decreases n,
{
    if n > 0 {
        lemma_sq_error_identical(s, n - 1);
    }
}

/// When every one of the first `n` positions differs, the count is
/// exactly `n`.
proof fn lemma_diff_count_all_differ(s1: Seq<Pixel>, s2: Seq<Pixel>, tol: int, n: int)
    requires
        forall|i: int| 0 <= i < n ==> !pixels_within_tolerance(s1[i], s2[i], tol),
    ensures
        diff_count(s1, s2, tol, n) == if n <= 0 {
            0
        } else {
            n
        },
    decreases n,
{
    if n > 0 {
        lemma_diff_count_all_differ(s1, s2, tol, n - 1);
    }
}

/// Comparing an image with itself gives a similarity of exactly one
/// under every algorithm, and zero differing pixels: the pixel count
/// and the squared error are zero, PSNR takes its zero-error case,
/// and the SSIM variance terms cancel against the covariance.
pub proof fn lemma_identical_images(img: &Image, ignore_antialiasing: bool)
    requires
        img.wf(),
        1 <= img.spec_total(),
    ensures
        diff_count(img@, img@, channel_tolerance(ignore_antialiasing), img.spec_total()) == 0,
        similarity_spec(
            ComparisonAlgorithm::PixelDiff,
            img@,
            img@,
            ignore_antialiasing,
            img.spec_total(),
        ) == SIMILARITY_SCALE,
        similarity_spec(
            ComparisonAlgorithm::PSNR,
            img@,
            img@,
            ignore_antialiasing,
            img.spec_total(),
        ) == SIMILARITY_SCALE,
        similarity_spec(
            ComparisonAlgorithm::MSE,
            img@,
            img@,
            ignore_antialiasing,
            img.spec_total(),
        ) == SIMILARITY_SCALE,
        2 <= img.spec_total() ==> similarity_spec(
            ComparisonAlgorithm::SSIM,
            img@,
            img@,
            ignore_antialiasing,
            img.spec_total(),
        ) == SIMILARITY_SCALE,
{
    let total = img.spec_total();
    lemma_diff_count_identical(img@, channel_tolerance(ignore_antialiasing), total);
    lemma_sq_error_identical(img@, total);
    assert(total * SIMILARITY_SCALE / total == SIMILARITY_SCALE) by (nonlinear_arith)
        requires
            1 <= total,
    ;
    assert(765 * total * SIMILARITY_SCALE / (765 * total + 0) == SIMILARITY_SCALE)
        by (nonlinear_arith)
        requires
            1 <= total,
    ;
    if 2 <= total {
        ssim::lemma_ssim_identical(ssim::gray_seq(img@), total);
    }
}

/// When the classifier finds every pixel pair different — as with
/// two solid-color images whose colors lie outside the tolerance —
/// the pixel-diff algorithm reports every pixel differing and a
/// similarity of exactly zero.
pub proof fn lemma_all_pixels_differ(img1: &Image, img2: &Image, ignore_antialiasing: bool)
    requires
        img1.wf(),
        img2.wf(),
        img1.spec_width() == img2.spec_width(),
        img1.spec_height() == img2.spec_height(),
        1 <= img1.spec_total(),
        forall|i: int|
            0 <= i < img1.spec_total() ==> !pixels_within_tolerance(
                img1@[i],
                img2@[i],
                channel_tolerance(ignore_antialiasing),
            ),
    ensures
        diff_count(img1@, img2@, channel_tolerance(ignore_antialiasing), img1.spec_total())
            == img1.spec_total(),
        similarity_spec(
            ComparisonAlgorithm::PixelDiff,
            img1@,
            img2@,
            ignore_antialiasing,
            img1.spec_total(),
        ) == 0,
{
    let total = img1.spec_total();
    lemma_diff_count_all_differ(img1@, img2@, channel_tolerance(ignore_antialiasing), total);
    assert(0 * SIMILARITY_SCALE / total == 0) by (nonlinear_arith)
        requires
            1 <= total,
    ;
}

impl ComparisonOptions {
    /// The threshold is inside the unit interval.
    pub open spec fn valid_threshold(&self) -> bool {
        0 <= self.threshold <= SIMILARITY_SCALE
    }

    /// The options pass validation: the threshold is in range, and a
    /// requested diff image comes with an output path.
    pub open spec fn is_valid(&self) -> bool {
        &&& self.valid_threshold()
        &&& (self.generate_diff_image ==> self.diff_output_path is Some)
    }

    /// Create new comparison options with default values.
    pub fn new() -> (r: Self)
        ensures
            r.algorithm == ComparisonAlgorithm::PixelDiff,
            r.threshold == DEFAULT_THRESHOLD,
            !r.generate_diff_image,
            r.diff_output_path is None,
            !r.ignore_antialiasing,
            r.diff_color == (Pixel { r: 255u8, g: 0u8, b: 0u8 }),
            r.is_valid(),
    {
        ComparisonOptions {
            algorithm: ComparisonAlgorithm::PixelDiff,
            threshold: DEFAULT_THRESHOLD,
            generate_diff_image: false,
            diff_output_path: None,
            ignore_antialiasing: false,
            diff_color: Pixel { r: 255, g: 0, b: 0 },
        }
    }

    /// Set the comparison algorithm.
    pub fn algorithm(self, algorithm: ComparisonAlgorithm) -> (r: Self)
        ensures
            r == (ComparisonOptions { algorithm, ..self }),
    {
        ComparisonOptions { algorithm, ..self }
    }

    /// Set the similarity threshold, clamped into the unit interval.
    pub fn threshold(self, threshold: i64) -> (r: Self)
        ensures
            r.threshold == if threshold < 0 {
                0
            } else if threshold > SIMILARITY_SCALE {
                SIMILARITY_SCALE as i64
            } else {
                threshold
            },
            r.valid_threshold(),
            r.algorithm == self.algorithm,
            r.generate_diff_image == self.generate_diff_image,
            r.diff_output_path == self.diff_output_path,
            r.ignore_antialiasing == self.ignore_antialiasing,
            r.diff_color == self.diff_color,
    {
        let clamped: i64 = if threshold < 0 {
            0
        } else if threshold > SIMILARITY_SCALE as i64 {
            SIMILARITY_SCALE as i64
        } else {
            threshold
        };
        ComparisonOptions { threshold: clamped, ..self }
    }

    /// Enable difference-image generation with the given output path.
    pub fn generate_diff_image(self, output_path: String) -> (r: Self)
        ensures
            r.generate_diff_image,
            r.diff_output_path == Some(output_path),
            r.algorithm == self.algorithm,
            r.threshold == self.threshold,
            r.ignore_antialiasing == self.ignore_antialiasing,
            r.diff_color == self.diff_color,
    {
        ComparisonOptions {
            generate_diff_image: true,
            diff_output_path: Some(output_path),
            ..self
        }
    }

    /// Enable the anti-aliasing tolerance.
    pub fn ignore_antialiasing(self) -> (r: Self)
        ensures
            r == (ComparisonOptions { ignore_antialiasing: true, ..self }),
    {
        ComparisonOptions { ignore_antialiasing: true, ..self }
    }

    /// Set the difference highlight color.
    pub fn diff_color(self, r: u8, g: u8, b: u8) -> (res: Self)
        ensures
            res == (ComparisonOptions { diff_color: Pixel { r, g, b }, ..self }),
    {
        ComparisonOptions { diff_color: Pixel { r, g, b }, ..self }
    }

    /// Validate the options: `Ok` exactly when the threshold lies in
    /// the unit interval and a requested diff image has a path.
    pub fn validate(&self) -> (r: Result<(), WebshotError>)
        ensures
            r is Ok <==> self.is_valid(),
            !self.valid_threshold() ==> (r->Err_0 matches WebshotError::Config(m)
                && m@ == "Threshold must be between 0 and 1000000 millionths"@),
            self.valid_threshold() && !self.is_valid() ==> (r->Err_0 matches WebshotError::Config(m)
                && m@ == "Diff output path must be specified when generating diff image"@),
    {
        if self.threshold < 0 || self.threshold > SIMILARITY_SCALE as i64 {
            return Err(
                WebshotError::Config(
                    String::from_str("Threshold must be between 0 and 1000000 millionths"),
                ),
            );
        }
        if self.generate_diff_image && self.diff_output_path.is_none() {
            return Err(
                WebshotError::Config(
                    String::from_str("Diff output path must be specified when generating diff image"),
                ),
            );
        }
        Ok(())
    }
}

impl Default for ComparisonOptions {
    /// The same values as [`ComparisonOptions::new`].
    fn default() -> (r: Self)
        ensures
            r.algorithm == ComparisonAlgorithm::PixelDiff,
            r.threshold == DEFAULT_THRESHOLD,
            !r.generate_diff_image,
            r.diff_output_path is None,
            !r.ignore_antialiasing,
            r.diff_color == (Pixel { r: 255u8, g: 0u8, b: 0u8 }),
            r.is_valid(),
    {
        ComparisonOptions::new()
    }
}

/// Image comparison engine.
pub struct ImageComparator;

impl ImageComparator {
    /// The pixel classifier: decides whether two pixels are equal
    /// enough, with a widened tolerance when `ignore_antialiasing`
    /// is set.
    pub fn pixels_similar(pixel1: &Pixel, pixel2: &Pixel, ignore_antialiasing: bool) -> (r: bool)
        ensures
            r == pixels_within_tolerance(
                *pixel1,
                *pixel2,
                channel_tolerance(ignore_antialiasing),
            ),
    {
        if *pixel1 == *pixel2 {
            return true;
        }
        let threshold: u8 = if ignore_antialiasing {
            10
        } else {
            2
        };
        let r_diff: u8 = if pixel1.r >= pixel2.r {
            pixel1.r - pixel2.r
        } else {
            pixel2.r - pixel1.r
        };
        let g_diff: u8 = if pixel1.g >= pixel2.g {
            pixel1.g - pixel2.g
        } else {
            pixel2.g - pixel1.g
        };
        let b_diff: u8 = if pixel1.b >= pixel2.b {
            pixel1.b - pixel2.b
        } else {
            pixel2.b - pixel1.b
        };
        r_diff <= threshold && g_diff <= threshold && b_diff <= threshold
    }

    /// Pixel-by-pixel difference comparison: counts the positions
    /// the classifier finds different and returns the similarity in
    /// millionths together with that count.
    pub fn pixel_diff_comparison(img1: &Image, img2: &Image, options: &ComparisonOptions) -> (r: (
        u64,
        Option<u32>,
    ))
        requires
            img1.wf(),
            img2.wf(),
            img1.spec_width() == img2.spec_width(),
            img1.spec_height() == img2.spec_height(),
            1 <= img1.spec_total(),
        ensures
            r.0 == pixel_diff_similarity(
                img1@,
                img2@,
                channel_tolerance(options.ignore_antialiasing),
                img1.spec_total(),
            ),
            r.0 <= SIMILARITY_SCALE,
            r.1 == Some(
                diff_count(
                    img1@,
                    img2@,
                    channel_tolerance(options.ignore_antialiasing),
                    img1.spec_total(),
                ) as u32,
            ),
    {
        let ghost tol: int = channel_tolerance(options.ignore_antialiasing);
        let total: u32 = img1.total_pixels();
        let mut different_pixels: u32 = 0;
        let mut i: u32 = 0;
        while i < total
            invariant
                img1.wf(),
                img2.wf(),
                img1.spec_width() == img2.spec_width(),
                img1.spec_height() == img2.spec_height(),
                total == img1.spec_total(),
                i <= total,
                different_pixels == diff_count(img1@, img2@, tol, i as int),
                different_pixels <= i,
                tol == channel_tolerance(options.ignore_antialiasing),
            decreases total - i,
        {
            let pixel1 = img1.get_flat(i);
            let pixel2 = img2.get_flat(i);
            if !Self::pixels_similar(&pixel1, &pixel2, options.ignore_antialiasing) {
                different_pixels = different_pixels + 1;
            }
            i = i + 1;
        }
        let similarity: u64 = ((total - different_pixels) as u64) * SIMILARITY_SCALE / (
        total as u64);
        proof {
            lemma_div_le_scale(
                img1.spec_total() - diff_count(img1@, img2@, tol, img1.spec_total()),
                img1.spec_total(),
                SIMILARITY_SCALE as int,
            );
        }
        (similarity, Some(different_pixels))
    }

    /// Total squared channel error of two equally sized images.
    fn sq_error_total(img1: &Image, img2: &Image) -> (r: u64)
        requires
            img1.wf(),
            img2.wf(),
            img1.spec_width() == img2.spec_width(),
            img1.spec_height() == img2.spec_height(),
        ensures
            r == sq_error_sum(img1@, img2@, img1.spec_total()),
            r <= 195_075 * img1.spec_total(),
    {
        let total: u32 = img1.total_pixels();
        let mut sum: u64 = 0;
        let mut i: u32 = 0;
        while i < total
            invariant
                img1.wf(),
                img2.wf(),
                img1.spec_width() == img2.spec_width(),
                img1.spec_height() == img2.spec_height(),
                total == img1.spec_total(),
                i <= total,
                sum == sq_error_sum(img1@, img2@, i as int),
                sum <= 195_075 * (i as int),
            decreases total - i,
        {
            let pixel1 = img1.get_flat(i);
            let pixel2 = img2.get_flat(i);
            let r_diff: u64 = if pixel1.r >= pixel2.r {
                (pixel1.r - pixel2.r) as u64
            } else {
                (pixel2.r - pixel1.r) as u64
            };
            let g_diff: u64 = if pixel1.g >= pixel2.g {
                (pixel1.g - pixel2.g) as u64
            } else {
                (pixel2.g - pixel1.g) as u64
            };
            let b_diff: u64 = if pixel1.b >= pixel2.b {
                (pixel1.b - pixel2.b) as u64
            } else {
                (pixel2.b - pixel1.b) as u64
            };
            proof {
                lemma_pixel_sq_error_bounds(img1@[i as int], img2@[i as int]);
                assert(r_diff * r_diff == sq_diff(img1@[i as int].r, img2@[i as int].r))
                    by (nonlinear_arith)
                    requires
                        r_diff == abs_diff(img1@[i as int].r, img2@[i as int].r),
                        sq_diff(img1@[i as int].r, img2@[i as int].r) == (img1@[i as int].r
                            - img2@[i as int].r) * (img1@[i as int].r - img2@[i as int].r),
                ;
                assert(g_diff * g_diff == sq_diff(img1@[i as int].g, img2@[i as int].g))
                    by (nonlinear_arith)
                    requires
                        g_diff == abs_diff(img1@[i as int].g, img2@[i as int].g),
                        sq_diff(img1@[i as int].g, img2@[i as int].g) == (img1@[i as int].g
                            - img2@[i as int].g) * (img1@[i as int].g - img2@[i as int].g),
                ;
                assert(b_diff * b_diff == sq_diff(img1@[i as int].b, img2@[i as int].b))
                    by (nonlinear_arith)
                    requires
                        b_diff == abs_diff(img1@[i as int].b, img2@[i as int].b),
                        sq_diff(img1@[i as int].b, img2@[i as int].b) == (img1@[i as int].b
                            - img2@[i as int].b) * (img1@[i as int].b - img2@[i as int].b),
                ;
            }
            sum = sum + r_diff * r_diff + g_diff * g_diff + b_diff * b_diff;
            i = i + 1;
        }
        sum
    }

    /// Mean-squared-error comparison: the similarity
    /// `1 / (1 + mse / 255)` in millionths.
    pub fn mse_comparison(img1: &Image, img2: &Image) -> (r: u64)
        requires
            img1.wf(),
            img2.wf(),
            img1.spec_width() == img2.spec_width(),
            img1.spec_height() == img2.spec_height(),
            1 <= img1.spec_total(),
        ensures
            r == mse_similarity(img1@, img2@, img1.spec_total()),
            r <= SIMILARITY_SCALE,
    {
        let total: u32 = img1.total_pixels();
        let sq = Self::sq_error_total(img1, img2);
        let num: u64 = 765 * (total as u64);
        let similarity: u64 = num * SIMILARITY_SCALE / (num + sq);
        proof {
            lemma_div_le_scale(
                765 * img1.spec_total(),
                765 * img1.spec_total() + sq_error_sum(img1@, img2@, img1.spec_total()),
                SIMILARITY_SCALE as int,
            );
        }
        similarity
    }

    /// Peak-signal-to-noise-ratio comparison: the similarity
    /// `clamp(psnr / 100, 0, 1)` in millionths, with zero error
    /// mapped to exactly one.
    pub fn psnr_comparison(img1: &Image, img2: &Image) -> (r: u64)
        requires
            img1.wf(),
            img2.wf(),
            img1.spec_width() == img2.spec_width(),
            img1.spec_height() == img2.spec_height(),
            1 <= img1.spec_total(),
        ensures
            r == psnr_similarity(img1@, img2@, img1.spec_total()),
            r <= SIMILARITY_SCALE,
    {
        let total: u32 = img1.total_pixels();
        let sq = Self::sq_error_total(img1, img2);
        if sq == 0 {
            return SIMILARITY_SCALE;
        }
        let l = log10_fixed(195_075 * (total as u64), sq);
        if l >= SIMILARITY_SCALE {
            SIMILARITY_SCALE
        } else {
            l
        }
    }

    /// Structural-similarity comparison: projects both images to
    /// grayscale and evaluates the global SSIM formula.
    pub fn ssim_comparison(img1: &Image, img2: &Image) -> (r: u64)
        requires
            img1.wf(),
            img2.wf(),
            img1.spec_width() == img2.spec_width(),
            img1.spec_height() == img2.spec_height(),
            2 <= img1.spec_total(),
        ensures
            r == ssim::ssim_similarity(
                ssim::gray_seq(img1@),
                ssim::gray_seq(img2@),
                img1.spec_total(),
            ),
            r <= SIMILARITY_SCALE,
    {
        let gray1 = ssim::rgb_to_grayscale(img1);
        let gray2 = ssim::rgb_to_grayscale(img2);
        ssim::calculate_ssim(&gray1, &gray2)
    }

    /// Compare two images directly.
    ///
    /// Validates the options, rejects images of differing
    /// dimensions, computes the similarity under the selected
    /// algorithm, and settles the answer: similar exactly when the
    /// score, in millionths, reaches one minus the threshold.
    ///
    /// The statistical formulas divide by the pixel count — the
    /// unbiased SSIM estimator by the count less one — so each image
    /// must hold at least one pixel, and for SSIM at least two.
    pub fn compare_images(image1: &Image, image2: &Image, options: &ComparisonOptions) -> (r:
        Result<ComparisonResult, WebshotError>)
        requires
            image1.wf(),
            image2.wf(),
            1 <= image1.spec_total(),
            1 <= image2.spec_total(),
            options.algorithm is SSIM ==> 2 <= image1.spec_total() && 2 <= image2.spec_total(),
        ensures
            r is Ok <==> options.is_valid() && image1.spec_width() == image2.spec_width()
                && image1.spec_height() == image2.spec_height(),
            !options.is_valid() ==> r->Err_0 is Config,
            options.is_valid() && !(image1.spec_width() == image2.spec_width()
                && image1.spec_height() == image2.spec_height()) ==> r->Err_0
                == (WebshotError::DimensionMismatch {
                width1: image1.spec_width(),
                height1: image1.spec_height(),
                width2: image2.spec_width(),
                height2: image2.spec_height(),
            }),
            r is Ok ==> r->Ok_0.similarity == similarity_spec(
                options.algorithm,
                image1@,
                image2@,
                options.ignore_antialiasing,
                image1.spec_total(),
            ),
            r is Ok ==> r->Ok_0.similarity <= SIMILARITY_SCALE,
            r is Ok ==> r->Ok_0.similar == (r->Ok_0.similarity
                >= SIMILARITY_SCALE - options.threshold),
            r is Ok ==> r->Ok_0.different_pixels == if options.algorithm is PixelDiff {
                Some(
                    diff_count(
                        image1@,
                        image2@,
                        channel_tolerance(options.ignore_antialiasing),
                        image1.spec_total(),
                    ) as u32,
                )
            } else {
                None::<u32>
            },
            r is Ok ==> r->Ok_0.total_pixels == image1.spec_total(),
            r is Ok ==> r->Ok_0.algorithm == options.algorithm,
            r is Ok ==> r->Ok_0.threshold == options.threshold,
            r is Ok ==> r->Ok_0.diff_image_path == if options.generate_diff_image {
                options.diff_output_path
            } else {
                None::<String>
            },
    {
        match options.validate() {
            Ok(()) => {},
            Err(e) => {
                return Err(e);
            },
        }
        let (width1, height1) = image1.dimensions();
        let (width2, height2) = image2.dimensions();
        if width1 != width2 || height1 != height2 {
            return Err(
                WebshotError::DimensionMismatch { width1, height1, width2, height2 },
            );
        }
        let total: u32 = image1.total_pixels();
        let (similarity, different_pixels): (u64, Option<u32>) = match options.algorithm {
            ComparisonAlgorithm::PixelDiff => Self::pixel_diff_comparison(image1, image2, options),
            ComparisonAlgorithm::SSIM => (Self::ssim_comparison(image1, image2), None),
            ComparisonAlgorithm::MSE => (Self::mse_comparison(image1, image2), None),
            ComparisonAlgorithm::PSNR => (Self::psnr_comparison(image1, image2), None),
        };
        let similar: bool = similarity as i64 >= SIMILARITY_SCALE as i64 - options.threshold;
        let diff_image_path: Option<String> = if options.generate_diff_image {
            match &options.diff_output_path {
                Some(p) => Some(p.clone()),
                None => None,
            }
        } else {
            None
        };
        Ok(
            ComparisonResult {
                similar,
                similarity,
                different_pixels,
                total_pixels: total,
                algorithm: options.algorithm,
                threshold: options.threshold,
                diff_image_path,
            },
        )
    }

    /// Synthesize the difference image: the first image's pixel
    /// where the classifier finds the pair equal, the configured
    /// highlight color where it does not.
    ///
    /// The classifier's pixel tolerance is used regardless of which
    /// scoring algorithm the options select; writing the result to
    /// the configured output path is the caller's concern.
    pub fn generate_diff_image(img1: &Image, img2: &Image, options: &ComparisonOptions) -> (r:
        Image)
        requires
            img1.wf(),
            img2.wf(),
            img1.spec_width() == img2.spec_width(),
            img1.spec_height() == img2.spec_height(),
        ensures
            r.wf(),
            r.spec_width() == img1.spec_width(),
            r.spec_height() == img1.spec_height(),
            r@.len() == img1@.len(),
            forall|i: int|
                0 <= i < r@.len() ==> r@[i] == if pixels_within_tolerance(
                    img1@[i],
                    img2@[i],
                    channel_tolerance(options.ignore_antialiasing),
                ) {
                    img1@[i]
                } else {
                    options.diff_color
                },
    {
        let total: u32 = img1.total_pixels();
        let width: u32 = img1.width();
        let height: u32 = img1.height();
        let highlight = options.diff_color;
        let mut pixels: Vec<Pixel> = Vec::new();
        let mut i: u32 = 0;
        while i < total
            invariant
                img1.wf(),
                img2.wf(),
                img1.spec_width() == img2.spec_width(),
                img1.spec_height() == img2.spec_height(),
                total == img1.spec_total(),
                i <= total,
                pixels@.len() == i,
                highlight == options.diff_color,
                forall|j: int|
                    0 <= j < i ==> pixels@[j] == if pixels_within_tolerance(
                        img1@[j],
                        img2@[j],
                        channel_tolerance(options.ignore_antialiasing),
                    ) {
                        img1@[j]
                    } else {
                        options.diff_color
                    },
            decreases total - i,
        {
            let pixel1 = img1.get_flat(i);
            let pixel2 = img2.get_flat(i);
            if Self::pixels_similar(&pixel1, &pixel2, options.ignore_antialiasing) {
                pixels.push(pixel1);
            } else {
                pixels.push(highlight);
            }
            i = i + 1;
        }
        Image::from_pixels(width, height, pixels)
    }
}

} // verus!
