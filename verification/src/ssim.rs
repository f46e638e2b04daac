//! Structural similarity.
//!
//! Both images are projected to 8-bit grayscale with the fixed
//! weights 299/1000 (red), 587/1000 (green) and 114/1000 (blue),
//! truncated; the SSIM formula is then evaluated globally over the
//! whole image, with variances and the covariance using the unbiased
//! estimator (sums of squared deviations divided by `total - 1`).
//! All arithmetic is exact integer arithmetic over the similarity
//! scale of one million.

use vstd::prelude::*;

use crate::comparison::SIMILARITY_SCALE;
use crate::numeric::lemma_div_le_scale;
use crate::raster::GrayImage;
use crate::raster::Image;
use crate::raster::Pixel;

verus! {

/// The truncated 8-bit luminance of a pixel:
/// `(299 * r + 587 * g + 114 * b) / 1000`.
pub open spec fn luma(p: Pixel) -> int {
    (299 * p.r + 587 * p.g + 114 * p.b) / 1000
}

/// The grayscale projection of a flat pixel grid.
pub open spec fn gray_seq(s: Seq<Pixel>) -> Seq<u8> {
    Seq::new(s.len(), |i: int| luma(s[i]) as u8)
}

/// Sum of the first `n` luminance values.
pub open spec fn sum_vals(g: Seq<u8>, n: int) -> int
    decreases n,
{
    if n <= 0 {
        0
    } else {
        sum_vals(g, n - 1) + g[n - 1]
    }
}

/// Sum of the squares of the first `n` luminance values.
pub open spec fn sum_sq(g: Seq<u8>, n: int) -> int
    decreases n,
{
    if n <= 0 {
        0
    } else {
        sum_sq(g, n - 1) + g[n - 1] * g[n - 1]
    }
}

/// Sum of the products of the first `n` luminance value pairs.
pub open spec fn sum_prod(g1: Seq<u8>, g2: Seq<u8>, n: int) -> int
    decreases n,
{
    if n <= 0 {
        0
    } else {
        sum_prod(g1, g2, n - 1) + g1[n - 1] * g2[n - 1]
    }
}

/// The global SSIM score in millionths, clamped into the unit
/// interval.
///
/// With `m1 = s1/n`, `m2 = s2/n` the means, `v1`, `v2` the unbiased
/// variances and `cov` the unbiased covariance, the score is
/// `((2*m1*m2 + C1) * (2*cov + C2)) / ((m1*m1 + m2*m2 + C1) * (v1 + v2 + C2))`
/// with `C1 = (0.01*255)^2` and `C2 = (0.03*255)^2`.  Clearing the
/// denominators `n*n*10000` and `n*(n-1)*10000` turns each factor
/// into a ratio of integers; each ratio is scaled to millionths with
/// truncation and clamped, and their product is scaled back down.
pub open spec fn ssim_similarity(g1: Seq<u8>, g2: Seq<u8>, n: int) -> int {
    let s1 = sum_vals(g1, n);
    let s2 = sum_vals(g2, n);
    let sxx = sum_sq(g1, n);
    let syy = sum_sq(g2, n);
    let sxy = sum_prod(g1, g2, n);
    let a = 2 * (s1 * s2) * 10000 + 65025 * (n * n);
    let d1 = (s1 * s1 + s2 * s2) * 10000 + 65025 * (n * n);
    let b = 2 * (n * sxy - s1 * s2) * 10000 + 585225 * (n * (n - 1));
    let d2 = ((n * sxx - s1 * s1) + (n * syy - s2 * s2)) * 10000 + 585225 * (n * (n - 1));
    let t1 = if d1 <= 0 {
        0
    } else if a >= d1 {
        SIMILARITY_SCALE as int
    } else {
        a * SIMILARITY_SCALE / d1
    };
    let t2 = if d2 <= 0 || b <= 0 {
        0
    } else if b >= d2 {
        SIMILARITY_SCALE as int
    } else {
        b * SIMILARITY_SCALE / d2
    };
    t1 * t2 / (SIMILARITY_SCALE as int)
}

/// A grid multiplied with itself sums to its sum of squares.
proof fn lemma_sum_prod_self(g: Seq<u8>, n: int)
    ensures
        sum_prod(g, g, n) == sum_sq(g, n),
    decreases n,
{
    if n > 0 {
        lemma_sum_prod_self(g, n - 1);
    }
}

/// The sums are non-negative.
proof fn lemma_sums_nonneg(g: Seq<u8>, n: int)
    ensures
        sum_vals(g, n) >= 0,
        sum_sq(g, n) >= 0,
    decreases n,
{
    if n > 0 {
        lemma_sums_nonneg(g, n - 1);
    }
}

/// The sum of squares, scaled by the sample count, is at least the
/// square of the sum.
proof fn lemma_sum_sq_lower(g: Seq<u8>, n: int)
    requires
        0 <= n <= g.len(),
    ensures
        n * sum_sq(g, n) >= sum_vals(g, n) * sum_vals(g, n),
    decreases n,
{
    if n == 0 {
    } else {
        lemma_sum_sq_lower(g, n - 1);
        lemma_sums_nonneg(g, n - 1);
        let s1 = sum_vals(g, n - 1);
        let s2 = sum_sq(g, n - 1);
        let x = g[n - 1] as int;
        if n == 1 {
            assert(1 * (s2 + x * x) >= (s1 + x) * (s1 + x)) by (nonlinear_arith)
                requires
                    s1 == 0,
                    s2 == 0,
            ;
        } else {
            let a = n - 1;
            assert(a * (s2 + a * (x * x) - 2 * (s1 * x)) >= (s1 - a * x) * (s1 - a * x) && (s1 - a
                * x) * (s1 - a * x) >= 0) by (nonlinear_arith)
                requires
                    a * s2 >= s1 * s1,
                    a >= 1,
            ;
            assert(s2 + a * (x * x) - 2 * (s1 * x) >= 0) by (nonlinear_arith)
                requires
                    a >= 1,
                    a * (s2 + a * (x * x) - 2 * (s1 * x)) >= 0,
            ;
            assert(n * (s2 + x * x) >= (s1 + x) * (s1 + x)) by (nonlinear_arith)
                requires
                    n == a + 1,
                    a * s2 >= s1 * s1,
                    s2 + a * (x * x) - 2 * (s1 * x) >= 0,
            ;
        }
        assert(sum_sq(g, n) == s2 + x * x);
        assert(sum_vals(g, n) == s1 + x);
    }
}

/// A grid compared with itself has an SSIM score of exactly one:
/// the means agree, and the variance terms cancel against the
/// covariance.
pub proof fn lemma_ssim_identical(g: Seq<u8>, n: int)
    requires
        2 <= n <= g.len(),
    ensures
        ssim_similarity(g, g, n) == SIMILARITY_SCALE,
{
    lemma_sum_prod_self(g, n);
    lemma_sum_sq_lower(g, n);
    lemma_sums_nonneg(g, n);
    let s1 = sum_vals(g, n);
    let sxx = sum_sq(g, n);
    let a = 2 * (s1 * s1) * 10000 + 65025 * (n * n);
    let d1 = (s1 * s1 + s1 * s1) * 10000 + 65025 * (n * n);
    let d2 = ((n * sxx - s1 * s1) + (n * sxx - s1 * s1)) * 10000 + 585225 * (n * (n - 1));
    assert(a == d1);
    assert(d1 > 0) by (nonlinear_arith)
        requires
            n >= 2,
            s1 * s1 >= 0,
            a == d1,
            d1 == (s1 * s1 + s1 * s1) * 10000 + 65025 * (n * n),
    ;
    assert(d2 > 0) by (nonlinear_arith)
        requires
            n >= 2,
            n * sxx - s1 * s1 >= 0,
            d2 == ((n * sxx - s1 * s1) + (n * sxx - s1 * s1)) * 10000 + 585225 * (n * (n - 1)),
    ;
    assert(ssim_similarity(g, g, n) == (SIMILARITY_SCALE as int) * (SIMILARITY_SCALE as int) / (
    SIMILARITY_SCALE as int));
}

/// Convert an RGB image to grayscale with the fixed luminance
/// weights, truncating each value to 8 bits.
pub fn rgb_to_grayscale(img: &Image) -> (r: GrayImage)
    requires
        img.wf(),
    ensures
        r.wf(),
        r.spec_width() == img.spec_width(),
        r.spec_height() == img.spec_height(),
        r@ == gray_seq(img@),
{
    let total: u32 = img.total_pixels();
    let width: u32 = img.width();
    let height: u32 = img.height();
    let mut values: Vec<u8> = Vec::new();
    let mut i: u32 = 0;
    while i < total
        invariant
            img.wf(),
            total == img.spec_total(),
            i <= total,
            values@.len() == i,
            forall|j: int| 0 <= j < i ==> values@[j] == luma(img@[j]) as u8,
        decreases total - i,
    {
        let p = img.get_flat(i);
        let weighted: u32 = 299 * (p.r as u32) + 587 * (p.g as u32) + 114 * (p.b as u32);
        let v: u8 = (weighted / 1000) as u8;
        proof {
            assert(weighted / 1000 <= 255);
            assert(v == luma(img@[i as int]));
        }
        values.push(v);
        i = i + 1;
    }
    let gray = GrayImage::from_values(width, height, values);
    proof {
        assert(gray@ =~= gray_seq(img@));
    }
    gray
}

/// Evaluate the global SSIM formula over two grayscale images of
/// equal dimensions.
pub fn calculate_ssim(gray1: &GrayImage, gray2: &GrayImage) -> (r: u64)
    requires
        gray1.wf(),
        gray2.wf(),
        gray1.spec_width() == gray2.spec_width(),
        gray1.spec_height() == gray2.spec_height(),
        2 <= gray1.spec_total(),
    ensures
        r == ssim_similarity(gray1@, gray2@, gray1.spec_total()),
        r <= SIMILARITY_SCALE,
{
    let total: u32 = gray1.width() * gray1.height();
    let mut s1: u64 = 0;
    let mut s2: u64 = 0;
    let mut sxx: u64 = 0;
    let mut syy: u64 = 0;
    let mut sxy: u64 = 0;
    let mut i: u32 = 0;
    while i < total
        invariant
            gray1.wf(),
            gray2.wf(),
            gray1.spec_width() == gray2.spec_width(),
            gray1.spec_height() == gray2.spec_height(),
            total == gray1.spec_total(),
            i <= total,
            s1 == sum_vals(gray1@, i as int),
            s2 == sum_vals(gray2@, i as int),
            sxx == sum_sq(gray1@, i as int),
            syy == sum_sq(gray2@, i as int),
            sxy == sum_prod(gray1@, gray2@, i as int),
            s1 <= 255 * (i as int),
            s2 <= 255 * (i as int),
            sxx <= 65025 * (i as int),
            syy <= 65025 * (i as int),
            sxy <= 65025 * (i as int),
        decreases total - i,
    {
        let v1: u64 = gray1.get_flat(i) as u64;
        let v2: u64 = gray2.get_flat(i) as u64;
        proof {
            assert(v1 * v1 <= 65025 && v2 * v2 <= 65025 && v1 * v2 <= 65025) by (nonlinear_arith)
                requires
                    0 <= v1 <= 255,
                    0 <= v2 <= 255,
            ;
        }
        s1 = s1 + v1;
        s2 = s2 + v2;
        sxx = sxx + v1 * v1;
        syy = syy + v2 * v2;
        sxy = sxy + v1 * v2;
        i = i + 1;
    }
    let n: i128 = total as i128;
    let s1v: i128 = s1 as i128;
    let s2v: i128 = s2 as i128;
    let sxxv: i128 = sxx as i128;
    let syyv: i128 = syy as i128;
    let sxyv: i128 = sxy as i128;
    proof {
        assert(0 <= n * n <= 18_446_744_065_119_617_025 && 0 <= n * (n - 1) <= n * n)
            by (nonlinear_arith)
            requires
                2 <= n <= 4_294_967_295,
        ;
        assert(0 <= s1v * s2v <= 65025 * (n * n) && 0 <= s1v * s1v <= 65025 * (n * n) && 0 <= s2v
            * s2v <= 65025 * (n * n)) by (nonlinear_arith)
            requires
                0 <= s1v <= 255 * n,
                0 <= s2v <= 255 * n,
        ;
        assert(0 <= n * sxxv <= 65025 * (n * n) && 0 <= n * syyv <= 65025 * (n * n) && 0 <= n
            * sxyv <= 65025 * (n * n)) by (nonlinear_arith)
            requires
                0 <= sxxv <= 65025 * n,
                0 <= syyv <= 65025 * n,
                0 <= sxyv <= 65025 * n,
                2 <= n,
        ;
        assert(65025 * (n * n) <= 1_199_616_107_734_253_647_180_625) by (nonlinear_arith)
            requires
                0 <= n * n <= 18_446_744_065_119_617_025,
        ;
    }
    let a: i128 = 2 * (s1v * s2v) * 10000 + 65025 * (n * n);
    let d1: i128 = (s1v * s1v + s2v * s2v) * 10000 + 65025 * (n * n);
    let b: i128 = 2 * (n * sxyv - s1v * s2v) * 10000 + 585225 * (n * (n - 1));
    let d2: i128 = ((n * sxxv - s1v * s1v) + (n * syyv - s2v * s2v)) * 10000 + 585225 * (n * (n
        - 1));
    proof {
        // absolute bounds that keep the scaled numerators inside i128
        assert(0 <= a <= 30_000_000_000_000_000_000_000_000_000);
        assert(-30_000_000_000_000_000_000_000_000_000 <= b
            <= 30_000_000_000_000_000_000_000_000_000);
    }
    let scale: i128 = SIMILARITY_SCALE as i128;
    let t1: i128 = if d1 <= 0 {
        0
    } else if a >= d1 {
        scale
    } else {
        proof {
            lemma_div_le_scale(a as int, d1 as int, SIMILARITY_SCALE as int);
        }
        a * scale / d1
    };
    let t2: i128 = if d2 <= 0 || b <= 0 {
        0
    } else if b >= d2 {
        scale
    } else {
        proof {
            lemma_div_le_scale(b as int, d2 as int, SIMILARITY_SCALE as int);
        }
        b * scale / d2
    };
    proof {
        assert(0 <= t1 * t2 / 1_000_000 <= 1_000_000) by (nonlinear_arith)
            requires
                0 <= t1 <= 1_000_000,
                0 <= t2 <= 1_000_000,
        ;
    }
    let result: i128 = t1 * t2 / scale;
    result as u64
}

} // verus!
