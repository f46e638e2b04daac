//! Command-line support: parsing of algorithm names and RGB color
//! strings, and the human-readable comparison report.

use vstd::prelude::*;

use crate::comparison::algorithm_name;
use crate::comparison::ComparisonAlgorithm;
use crate::comparison::ComparisonResult;
use crate::comparison::SIMILARITY_SCALE;
use crate::error::WebshotError;
use crate::text::all_digits;
use crate::text::ci_matches;
use crate::text::count_char;
use crate::text::dec_seq;
use crate::text::dec_str_u64;
use crate::text::digit_val;
use crate::text::digits_val;
use crate::text::first_index_of;
use crate::text::is_ascii_space;
use crate::text::lemma_count_char_step;
use crate::text::lemma_digits_val_prefix_le;
use crate::text::lemma_digits_val_step;
use crate::text::lemma_first_index_at;
use crate::text::lemma_first_non_space_at;
use crate::text::lemma_last_non_space_at;
use crate::text::str_ci_matches;
use crate::text::trimmed;

verus! {

/// The algorithm a name selects, matched without regard to ASCII
/// case: `pixel-diff` (or `pixel`), `ssim`, `mse`, `psnr`.
pub open spec fn spec_parse_algorithm(s: Seq<char>) -> Option<ComparisonAlgorithm> {
    if ci_matches(s, "pixel-diff"@) || ci_matches(s, "pixel"@) {
        Some(ComparisonAlgorithm::PixelDiff)
    } else if ci_matches(s, "ssim"@) {
        Some(ComparisonAlgorithm::SSIM)
    } else if ci_matches(s, "mse"@) {
        Some(ComparisonAlgorithm::MSE)
    } else if ci_matches(s, "psnr"@) {
        Some(ComparisonAlgorithm::PSNR)
    } else {
        None
    }
}

/// Parse a comparison-algorithm name, case-insensitively.
pub fn parse_algorithm(name: &str) -> (r: Result<ComparisonAlgorithm, WebshotError>)
    ensures
        spec_parse_algorithm(name@) matches Some(a) ==> r == Ok::<
            ComparisonAlgorithm,
            WebshotError,
        >(a),
        spec_parse_algorithm(name@) is None ==> (r->Err_0 matches WebshotError::Config(m) && m@
            == "Unknown algorithm: "@ + name@ + ". Supported: pixel-diff, ssim, mse, psnr"@),
{
    if str_ci_matches(name, "pixel-diff") || str_ci_matches(name, "pixel") {
        Ok(ComparisonAlgorithm::PixelDiff)
    } else if str_ci_matches(name, "ssim") {
        Ok(ComparisonAlgorithm::SSIM)
    } else if str_ci_matches(name, "mse") {
        Ok(ComparisonAlgorithm::MSE)
    } else if str_ci_matches(name, "psnr") {
        Ok(ComparisonAlgorithm::PSNR)
    } else {
        let mut msg = String::from_str("Unknown algorithm: ");
        msg.append(name);
        msg.append(". Supported: pixel-diff, ssim, mse, psnr");
        Err(WebshotError::Config(msg))
    }
}

/// The value an unsigned decimal string parses to: after trimming
/// ASCII whitespace and dropping one optional leading plus sign, one
/// or more digits whose value is at most 255.
pub open spec fn parse_u8_spec(s: Seq<char>) -> Option<u8> {
    let t = trimmed(s);
    let body = if t.len() > 0 && t[0] == '+' {
        t.subrange(1, t.len() as int)
    } else {
        t
    };
    if body.len() >= 1 && all_digits(body) && digits_val(body) <= 255 {
        Some(digits_val(body) as u8)
    } else {
        None
    }
}

/// Whether the character at `i` is ASCII whitespace.
fn space_at(s: &str, i: usize) -> (r: bool)
    requires
        i < s@.len(),
    ensures
        r == is_ascii_space(s@[i as int]),
{
    let c = s.get_char(i);
    c == ' ' || c == '\t' || c == '\n' || c == '\r'
}

/// Parse one 8-bit channel value, as [`parse_u8_spec`] defines it.
#[verifier::loop_isolation(false)]
fn parse_u8_str(part: &str) -> (r: Option<u8>)
    ensures
        r == parse_u8_spec(part@),
{
    let n = part.unicode_len();
    let mut start: usize = 0;
    while start < n && space_at(part, start)
        invariant
            n == part@.len(),
            start <= n,
            forall|j: int| 0 <= j < start ==> is_ascii_space(part@[j]),
        decreases n - start,
    {
        start = start + 1;
    }
    proof {
        lemma_first_non_space_at(part@, start as int);
    }
    if start == n {
        proof {
            lemma_last_non_space_at(part@, -1);
        }
        return None;
    }
    let mut end: usize = n;
    while end > start && space_at(part, end - 1)
        invariant
            n == part@.len(),
            start < n,
            start <= end <= n,
            forall|j: int| end <= j < n ==> is_ascii_space(part@[j]),
            !is_ascii_space(part@[start as int]),
        decreases end,
    {
        end = end - 1;
    }
    proof {
        lemma_last_non_space_at(part@, end - 1);
        assert(trimmed(part@) =~= part@.subrange(start as int, end as int));
    }
    let ghost t: Seq<char> = part@.subrange(start as int, end as int);
    let mut idx: usize = start;
    if part.get_char(idx) == '+' {
        idx = idx + 1;
    }
    let ghost body: Seq<char> = part@.subrange(idx as int, end as int);
    proof {
        if part@[start as int] == '+' {
            assert(body =~= t.subrange(1, t.len() as int));
        } else {
            assert(body =~= t);
        }
    }
    if idx == end {
        return None;
    }
    let mut value: u32 = 0;
    let mut i: usize = idx;
    while i < end
        invariant
            n == part@.len(),
            idx <= i <= end <= n,
            body == part@.subrange(idx as int, end as int),
            idx < end,
            forall|j: int| 0 <= j < i - idx ==> 48 <= (#[trigger] body[j]) as u32 <= 57,
            value == digits_val(body.subrange(0, i - idx)),
            value <= 255,
        decreases end - i,
    {
        let c = part.get_char(i);
        let cu = c as u32;
        if cu < 48 || cu > 57 {
            proof {
                assert(body[i - idx] == part@[i as int]);
                assert(!all_digits(body));
            }
            return None;
        }
        proof {
            assert(body[i - idx] == part@[i as int]);
            lemma_digits_val_step(body, i - idx);
            assert(digit_val(body[i - idx]) == cu - 48);
        }
        let next: u32 = value * 10 + (cu - 48);
        if next > 255 {
            proof {
                assert(digits_val(body.subrange(0, i - idx + 1)) == next);
                if all_digits(body) {
                    lemma_digits_val_prefix_le(body, i - idx + 1);
                    assert(digits_val(body) >= next);
                }
            }
            return None;
        }
        value = next;
        i = i + 1;
    }
    proof {
        assert(body.subrange(0, end - idx) =~= body);
        assert(all_digits(body));
    }
    Some(value as u8)
}

/// The three comma-separated fields of an RGB color string, present
/// exactly when the string holds exactly two commas.
pub open spec fn rgb_parts(s: Seq<char>) -> Option<(Seq<char>, Seq<char>, Seq<char>)> {
    if count_char(s, ',') == 2 {
        let i = first_index_of(s, ',');
        let j = i + 1 + first_index_of(s.subrange(i + 1, s.len() as int), ',');
        Some(
            (
                s.subrange(0, i),
                s.subrange(i + 1, j),
                s.subrange(j + 1, s.len() as int),
            ),
        )
    } else {
        None
    }
}

/// Parse an RGB color of the form `R,G,B`, each channel a decimal
/// value between 0 and 255.
pub fn parse_rgb_color(color_str: &str) -> (r: Result<(u8, u8, u8), WebshotError>)
    ensures
        rgb_parts(color_str@) is None ==> (r->Err_0 matches WebshotError::Config(m) && m@
            == "Invalid color format: "@ + color_str@
            + ". Expected format: R,G,B (e.g., 255,0,0)"@),
        rgb_parts(color_str@) matches Some(p) ==> match (
            parse_u8_spec(p.0),
            parse_u8_spec(p.1),
            parse_u8_spec(p.2),
        ) {
            (Some(red), Some(green), Some(blue)) => r == Ok::<(u8, u8, u8), WebshotError>(
                (red, green, blue),
            ),
            (None, _, _) => (r->Err_0 matches WebshotError::Config(m) && m@
                == "Invalid red value: "@ + p.0),
            (Some(_), None, _) => (r->Err_0 matches WebshotError::Config(m) && m@
                == "Invalid green value: "@ + p.1),
            (Some(_), Some(_), None) => (r->Err_0 matches WebshotError::Config(m) && m@
                == "Invalid blue value: "@ + p.2),
        },
{
    let n = color_str.unicode_len();
    let mut count: usize = 0;
    let mut c1: usize = 0;
    let mut c2: usize = 0;
    let mut i: usize = 0;
    proof {
        assert(color_str@.subrange(0, 0) =~= Seq::<char>::empty());
    }
    while i < n
        invariant
            n == color_str@.len(),
            i <= n,
            count <= i,
            count == count_char(color_str@.subrange(0, i as int), ','),
            count == 0 ==> forall|j: int| 0 <= j < i ==> color_str@[j] != ',',
            count >= 1 ==> (c1 < i && color_str@[c1 as int] == ',' && forall|j: int|
                0 <= j < c1 ==> color_str@[j] != ','),
            count == 1 ==> forall|j: int| c1 < j < i ==> color_str@[j] != ',',
            count >= 2 ==> (c1 < c2 < i && color_str@[c2 as int] == ',' && forall|j: int|
                c1 < j < c2 ==> color_str@[j] != ','),
        decreases n - i,
    {
        let c = color_str.get_char(i);
        proof {
            lemma_count_char_step(color_str@, i as int, ',');
        }
        if c == ',' {
            count = count + 1;
            if count == 1 {
                c1 = i;
            } else if count == 2 {
                c2 = i;
            }
        }
        i = i + 1;
    }
    proof {
        assert(color_str@.subrange(0, n as int) =~= color_str@);
    }
    if count != 2 {
        let mut msg = String::from_str("Invalid color format: ");
        msg.append(color_str);
        msg.append(". Expected format: R,G,B (e.g., 255,0,0)");
        return Err(WebshotError::Config(msg));
    }
    proof {
        lemma_first_index_at(color_str@, ',', c1 as int);
        let tail = color_str@.subrange(c1 + 1, n as int);
        assert(tail[c2 - c1 - 1] == color_str@[c2 as int]);
        assert(forall|j: int| 0 <= j < c2 - c1 - 1 ==> tail[j] == color_str@[c1 + 1 + j]);
        lemma_first_index_at(tail, ',', c2 - c1 - 1);
    }
    let part1 = color_str.substring_char(0, c1);
    let part2 = color_str.substring_char(c1 + 1, c2);
    let part3 = color_str.substring_char(c2 + 1, n);
    let red = match parse_u8_str(part1) {
        Some(v) => v,
        None => {
            let mut msg = String::from_str("Invalid red value: ");
            msg.append(part1);
            return Err(WebshotError::Config(msg));
        },
    };
    let green = match parse_u8_str(part2) {
        Some(v) => v,
        None => {
            let mut msg = String::from_str("Invalid green value: ");
            msg.append(part2);
            return Err(WebshotError::Config(msg));
        },
    };
    let blue = match parse_u8_str(part3) {
        Some(v) => v,
        None => {
            let mut msg = String::from_str("Invalid blue value: ");
            msg.append(part3);
            return Err(WebshotError::Config(msg));
        },
    };
    Ok((red, green, blue))
}

/// A number rendered with at least two digits, zero-padded.
pub open spec fn dec2(n: int) -> Seq<char> {
    if n < 10 {
        "0"@ + dec_seq(n)
    } else {
        dec_seq(n)
    }
}

/// A number rendered with at least four digits, zero-padded.
pub open spec fn dec4(n: int) -> Seq<char> {
    if n < 10 {
        "000"@ + dec_seq(n)
    } else if n < 100 {
        "00"@ + dec_seq(n)
    } else if n < 1000 {
        "0"@ + dec_seq(n)
    } else {
        dec_seq(n)
    }
}

/// The report text for a comparison result.
///
/// Fractions are rendered from the millionth-based scores: the
/// threshold and the percentages with two decimal digits, the
/// similarity with four, each rounded half-up.
pub open spec fn report_spec(res: ComparisonResult) -> Seq<char> {
    let t4 = (res.similarity + 50) / 100;
    let th = (res.threshold + 5000) / 10000;
    let head = "Image Comparison Results\n"@ + "========================\n\n"@ + "Algorithm: "@
        + algorithm_name(res.algorithm) + "\n"@ + "Threshold: "@ + dec_seq(th / 100) + "."@ + dec2(
        th % 100,
    ) + "\n"@ + "Similarity: "@ + dec_seq(t4 / 10000) + "."@ + dec4(t4 % 10000) + " ("@ + dec_seq(
        t4 / 100,
    ) + "."@ + dec2(t4 % 100) + "%)\n"@ + "Similar: "@ + (if res.similar {
        "YES"@
    } else {
        "NO"@
    }) + "\n"@;
    let with_pixels = match res.different_pixels {
        Some(d) => {
            let hp = (d * 10000 + res.total_pixels / 2) / (res.total_pixels as int);
            head + "Different pixels: "@ + dec_seq(d as int) + "/"@ + dec_seq(
                res.total_pixels as int,
            ) + " ("@ + dec_seq(hp / 100) + "."@ + dec2(hp % 100) + "%)\n"@
        },
        None => head,
    };
    let with_total = with_pixels + "Total pixels: "@ + dec_seq(res.total_pixels as int) + "\n"@;
    match res.diff_image_path {
        Some(p) => with_total + "Difference image: "@ + p@ + "\n"@,
        None => with_total,
    }
}

/// Render a number with at least two digits, zero-padded.
fn dec2_str(n: u64) -> (r: String)
    ensures
        r@ == dec2(n as int),
{
    if n < 10 {
        let mut s = String::from_str("0");
        let d = dec_str_u64(n);
        s.append(d.as_str());
        s
    } else {
        dec_str_u64(n)
    }
}

/// Render a number with at least four digits, zero-padded.
fn dec4_str(n: u64) -> (r: String)
    ensures
        r@ == dec4(n as int),
{
    if n < 10 {
        let mut s = String::from_str("000");
        let d = dec_str_u64(n);
        s.append(d.as_str());
        s
    } else if n < 100 {
        let mut s = String::from_str("00");
        let d = dec_str_u64(n);
        s.append(d.as_str());
        s
    } else if n < 1000 {
        let mut s = String::from_str("0");
        let d = dec_str_u64(n);
        s.append(d.as_str());
        s
    } else {
        dec_str_u64(n)
    }
}

/// Format a comparison result as human-readable text.
pub fn format_comparison_result(result: &ComparisonResult) -> (r: String)
    requires
        0 <= result.threshold <= SIMILARITY_SCALE,
        result.similarity <= SIMILARITY_SCALE,
        result.different_pixels matches Some(d) ==> 1 <= result.total_pixels && d
            <= result.total_pixels,
    ensures
        r@ == report_spec(*result),
{
    let t4: u64 = (result.similarity + 50) / 100;
    let th: u64 = ((result.threshold + 5000) / 10000) as u64;
    let mut s = String::from_str("Image Comparison Results\n");
    s.append("========================\n\n");
    s.append("Algorithm: ");
    s.append(result.algorithm.name());
    s.append("\n");
    s.append("Threshold: ");
    let th_units = dec_str_u64(th / 100);
    s.append(th_units.as_str());
    s.append(".");
    let th_frac = dec2_str(th % 100);
    s.append(th_frac.as_str());
    s.append("\n");
    s.append("Similarity: ");
    let sim_units = dec_str_u64(t4 / 10000);
    s.append(sim_units.as_str());
    s.append(".");
    let sim_frac = dec4_str(t4 % 10000);
    s.append(sim_frac.as_str());
    s.append(" (");
    let pct_units = dec_str_u64(t4 / 100);
    s.append(pct_units.as_str());
    s.append(".");
    let pct_frac = dec2_str(t4 % 100);
    s.append(pct_frac.as_str());
    s.append("%)\n");
    s.append("Similar: ");
    if result.similar {
        s.append("YES");
    } else {
        s.append("NO");
    }
    s.append("\n");
    match result.different_pixels {
        Some(diff_pixels) => {
            let hp: u64 = ((diff_pixels as u64) * 10000 + (result.total_pixels as u64) / 2) / (
            result.total_pixels as u64);
            s.append("Different pixels: ");
            let d_str = dec_str_u64(diff_pixels as u64);
            s.append(d_str.as_str());
            s.append("/");
            let t_str = dec_str_u64(result.total_pixels as u64);
            s.append(t_str.as_str());
            s.append(" (");
            let hp_units = dec_str_u64(hp / 100);
            s.append(hp_units.as_str());
            s.append(".");
            let hp_frac = dec2_str(hp % 100);
            s.append(hp_frac.as_str());
            s.append("%)\n");
        },
        None => {},
    }
    s.append("Total pixels: ");
    let total_str = dec_str_u64(result.total_pixels as u64);
    s.append(total_str.as_str());
    s.append("\n");
    match &result.diff_image_path {
        Some(path) => {
            s.append("Difference image: ");
            s.append(path.as_str());
            s.append("\n");
        },
        None => {},
    }
    proof {
        assert(s@ =~= report_spec(*result));
    }
    s
}

} // verus!
