//! Output handling: path validation, file-name sanitizing, and
//! human-readable file sizes.
//!
//! Everything here works on plain values; reading and writing the
//! file system is the caller's concern, which hands in what it found
//! (such as whether a file already exists).

use vstd::prelude::*;

use crate::error::WebshotError;
use crate::screenshot::format_for_extension;
use crate::screenshot::ImageFormat;
use crate::text::dec_seq;
use crate::text::dec_str_u64;
use crate::text::extension_of;
use crate::text::lemma_first_not_char_at;
use crate::text::lemma_last_not_char_at;
use crate::text::push_char;
use crate::text::spec_extension;
use crate::text::str_ci_matches;
use crate::text::trim_char;

verus! {

/// Output handler for file-name and path concerns.
pub struct OutputHandler;

impl OutputHandler {
    /// Validate that an output path carries a supported extension,
    /// and name the format it selects.
    pub fn validate_output_path(path: &str) -> (r: Result<ImageFormat, WebshotError>)
        ensures
            spec_extension(path@) is None ==> (r->Err_0 matches WebshotError::Config(m) && m@
                == "No file extension found"@),
            spec_extension(path@) matches Some(e) ==> (format_for_extension(e) matches Some(f)
                ==> r == Ok::<ImageFormat, WebshotError>(f)),
            spec_extension(path@) matches Some(e) ==> (format_for_extension(e) is None ==> (
            r->Err_0 matches WebshotError::UnsupportedFormat { format } && format@ == e)),
            r is Ok <==> (spec_extension(path@) matches Some(e) && format_for_extension(e)
                is Some),
    {
        let ext = match extension_of(path) {
            Some(e) => e,
            None => {
                return Err(WebshotError::Config(String::from_str("No file extension found")));
            },
        };
        if str_ci_matches(ext, "png") {
            Ok(ImageFormat::Png)
        } else if str_ci_matches(ext, "jpg") || str_ci_matches(ext, "jpeg") {
            Ok(ImageFormat::Jpeg)
        } else if str_ci_matches(ext, "webp") {
            Ok(ImageFormat::WebP)
        } else if str_ci_matches(ext, "pdf") {
            Ok(ImageFormat::Pdf)
        } else {
            Err(WebshotError::UnsupportedFormat { format: ext.to_owned() })
        }
    }

    /// Resolve the output path: an explicit path is kept, gaining
    /// the format's extension when it has none; without one the
    /// caller's generated fallback file name is used.
    pub fn resolve_output_path(output: Option<&str>, fallback: &str, format: ImageFormat) -> (r:
        String)
        ensures
            output matches Some(p) ==> (spec_extension(p@) is Some ==> r@ == p@),
            output matches Some(p) ==> (spec_extension(p@) is None ==> r@ == p@ + "."@
                + crate::screenshot::extension_name(format)),
            output is None ==> r@ == fallback@,
    {
        match output {
            Some(p) => match extension_of(p) {
                Some(_) => p.to_owned(),
                None => {
                    let mut s = p.to_owned();
                    s.append(".");
                    s.append(format.extension());
                    s
                },
            },
            None => fallback.to_owned(),
        }
    }

    /// Decide whether writing to `path` may proceed, given whether a
    /// file already exists there and whether overwriting was asked
    /// for.
    pub fn handle_existing_file(path: &str, exists: bool, overwrite: bool) -> (r: Result<
        (),
        WebshotError,
    >)
        ensures
            r is Ok <==> (exists ==> overwrite),
            exists && !overwrite ==> (r->Err_0 matches WebshotError::Config(m) && m@
                == "File already exists: "@ + path@ + ". Use --force to overwrite."@),
    {
        if exists && !overwrite {
            let mut msg = String::from_str("File already exists: ");
            msg.append(path);
            msg.append(". Use --force to overwrite.");
            return Err(WebshotError::Config(msg));
        }
        Ok(())
    }
}

/// The decoded form of an image, carried between the codec calls.
#[verifier::external_type_specification]
#[verifier::external_body]
pub struct ExDynamicImage(image::DynamicImage);

/// Relies on `image::load_from_memory_with_format`: decodes an
/// image from bytes; the call only computes on its input.  Callers
/// never pass the PDF format, which no raster codec backs.
#[verifier::external_body]
fn decode_image(data: &[u8], format: ImageFormat) -> (r: Result<image::DynamicImage, WebshotError>)
    requires
        format is Png || format is Jpeg || format is WebP,
    ensures
        r matches Err(e) ==> e is Image,
{
    let f = match format {
        ImageFormat::Png => image::ImageFormat::Png,
        ImageFormat::Jpeg => image::ImageFormat::Jpeg,
        _ => image::ImageFormat::WebP,
    };
    image::load_from_memory_with_format(data, f).map_err(|e| WebshotError::Image(e.to_string()))
}

/// Relies on `image::codecs::png::PngEncoder` and
/// `DynamicImage::write_with_encoder`: encodes the image as PNG
/// into a byte vector.
#[verifier::external_body]
fn encode_png(img: &image::DynamicImage) -> (r: Result<Vec<u8>, WebshotError>)
    ensures
        r matches Err(e) ==> e is Image,
{
    let mut out: Vec<u8> = Vec::new();
    let encoder = image::codecs::png::PngEncoder::new(&mut out);
    match img.write_with_encoder(encoder) {
        Ok(()) => Ok(out),
        Err(e) => Err(WebshotError::Image(e.to_string())),
    }
}

/// Relies on `image::codecs::jpeg::JpegEncoder` and
/// `DynamicImage::write_with_encoder`: encodes the image as JPEG
/// with the given quality into a byte vector.
#[verifier::external_body]
fn encode_jpeg(img: &image::DynamicImage, quality: u8) -> (r: Result<Vec<u8>, WebshotError>)
    ensures
        r matches Err(e) ==> e is Image,
{
    let mut out: Vec<u8> = Vec::new();
    let encoder = image::codecs::jpeg::JpegEncoder::new_with_quality(&mut out, quality);
    match img.write_with_encoder(encoder) {
        Ok(()) => Ok(out),
        Err(e) => Err(WebshotError::Image(e.to_string())),
    }
}

/// Relies on `image::codecs::webp::WebPEncoder` and
/// `DynamicImage::write_with_encoder`: encodes the image as
/// lossless WebP into a byte vector.
#[verifier::external_body]
fn encode_webp(img: &image::DynamicImage) -> (r: Result<Vec<u8>, WebshotError>)
    ensures
        r matches Err(e) ==> e is Image,
{
    let mut out: Vec<u8> = Vec::new();
    let encoder = image::codecs::webp::WebPEncoder::new_lossless(&mut out);
    match img.write_with_encoder(encoder) {
        Ok(()) => Ok(out),
        Err(e) => Err(WebshotError::Image(e.to_string())),
    }
}

impl OutputHandler {
    /// Convert image data between formats: the bytes pass through
    /// unchanged when source and target agree, PDF takes part in no
    /// conversion, and otherwise the data is decoded from the
    /// source codec and encoded with the target codec (JPEG with
    /// the given quality, 90 when unset).
    pub fn convert_image(
        data: &[u8],
        source_format: ImageFormat,
        target_format: ImageFormat,
        quality: Option<u8>,
    ) -> (r: Result<Vec<u8>, WebshotError>)
        ensures
            source_format == target_format ==> (r matches Ok(v) && v@ == data@),
            source_format != target_format && source_format is Pdf ==> (
            r->Err_0 matches WebshotError::Config(m) && m@ == "Cannot convert from PDF format"@),
            source_format != target_format && !(source_format is Pdf) && target_format is Pdf ==> (
            r is Err && (r->Err_0 is Image || (r->Err_0 matches WebshotError::Config(m) && m@
                == "Cannot convert to PDF format using image conversion"@))),
            r is Err ==> (r->Err_0 is Config || r->Err_0 is Image),
            source_format != target_format && !(source_format is Pdf) && !(target_format is Pdf)
                ==> (r is Err ==> r->Err_0 is Image),
    {
        if source_format == target_format {
            return Ok(vstd::slice::slice_to_vec(data));
        }
        if matches!(source_format, ImageFormat::Pdf) {
            return Err(WebshotError::Config(String::from_str("Cannot convert from PDF format")));
        }
        let img = match decode_image(data, source_format) {
            Ok(img) => img,
            Err(e) => {
                return Err(e);
            },
        };
        match target_format {
            ImageFormat::Png => encode_png(&img),
            ImageFormat::Jpeg => {
                let q: u8 = match quality {
                    Some(q) => q,
                    None => 90,
                };
                encode_jpeg(&img, q)
            },
            ImageFormat::WebP => encode_webp(&img),
            ImageFormat::Pdf => Err(
                WebshotError::Config(
                    String::from_str("Cannot convert to PDF format using image conversion"),
                ),
            ),
        }
    }
}

/// A character a file name may not hold.
pub open spec fn is_reserved_char(c: char) -> bool {
    c == '/' || c == '\\' || c == ':' || c == '*' || c == '?' || c == '"' || c == '<' || c == '>'
        || c == '|'
}

/// A control character: the C0 range, delete, and the C1 range.
pub open spec fn is_control_char(c: char) -> bool {
    (c as u32) < 32 || (127 <= (c as u32) && (c as u32) <= 159)
}

/// How one character is sanitized: reserved and control characters
/// become underscores, everything else is kept.
pub open spec fn sanitize_char(c: char) -> char {
    if is_reserved_char(c) || is_control_char(c) {
        '_'
    } else {
        c
    }
}

/// The sanitized form of a file name, before trimming.
pub open spec fn sanitized(s: Seq<char>) -> Seq<char> {
    Seq::new(s.len(), |i: int| sanitize_char(s[i]))
}

/// Sanitize a file name: replace reserved and control characters
/// with underscores, then strip leading and trailing dots.
pub fn sanitize_filename(filename: &str) -> (r: String)
    ensures
        r@ == trim_char(sanitized(filename@), '.'),
{
    let n = filename.unicode_len();
    let mut out = String::new();
    let mut i: usize = 0;
    while i < n
        invariant
            n == filename@.len(),
            i <= n,
            out@.len() == i,
            forall|j: int| 0 <= j < i ==> out@[j] == sanitize_char(filename@[j]),
        decreases n - i,
    {
        let c = filename.get_char(i);
        let mapped: char = if c == '/' || c == '\\' || c == ':' || c == '*' || c == '?' || c == '"'
            || c == '<' || c == '>' || c == '|' {
            '_'
        } else if (c as u32) < 32 || ((c as u32) >= 127 && (c as u32) <= 159) {
            '_'
        } else {
            c
        };
        push_char(&mut out, mapped);
        i = i + 1;
    }
    proof {
        assert(out@ =~= sanitized(filename@));
    }
    let mut start: usize = 0;
    while start < n && out.as_str().get_char(start) == '.'
        invariant
            n == out@.len(),
            out@ == sanitized(filename@),
            start <= n,
            forall|j: int| 0 <= j < start ==> out@[j] == '.',
        decreases n - start,
    {
        start = start + 1;
    }
    proof {
        lemma_first_not_char_at(out@, '.', start as int);
    }
    if start == n {
        proof {
            lemma_last_not_char_at(out@, '.', -1);
        }
        return String::new();
    }
    let mut end: usize = n;
    while end > start && out.as_str().get_char(end - 1) == '.'
        invariant
            n == out@.len(),
            out@ == sanitized(filename@),
            start < n,
            start <= end <= n,
            forall|j: int| end <= j < n ==> out@[j] == '.',
            out@[start as int] != '.',
        decreases end,
    {
        end = end - 1;
    }
    proof {
        assert(end > start);
        assert(out@[end - 1] != '.');
        lemma_last_not_char_at(out@, '.', end - 1);
    }
    out.as_str().substring_char(start, end).to_owned()
}

/// The unit band of a byte count: bytes, kibi, mebi, gibi or tebi.
pub open spec fn file_size_unit(size: int) -> int {
    if size < 1024 {
        0
    } else if size < 1_048_576 {
        1
    } else if size < 1_073_741_824 {
        2
    } else if size < 1_099_511_627_776 {
        3
    } else {
        4
    }
}

/// 1024 to the power of the unit band.
pub open spec fn file_size_divisor(k: int) -> int {
    if k <= 0 {
        1
    } else if k == 1 {
        1024
    } else if k == 2 {
        1_048_576
    } else if k == 3 {
        1_073_741_824
    } else {
        1_099_511_627_776
    }
}

/// The unit suffix of a band.
pub open spec fn file_size_suffix(k: int) -> Seq<char> {
    if k <= 0 {
        "B"@
    } else if k == 1 {
        "KB"@
    } else if k == 2 {
        "MB"@
    } else if k == 3 {
        "GB"@
    } else {
        "TB"@
    }
}

/// The human-readable rendering of a byte count: the plain count
/// below one kibibyte, otherwise the count scaled into its unit
/// band with one decimal digit, rounded half-up.
pub open spec fn spec_format_file_size(size: int) -> Seq<char> {
    let k = file_size_unit(size);
    if k == 0 {
        dec_seq(size) + " "@ + file_size_suffix(0)
    } else {
        let p = file_size_divisor(k);
        let tenths = (10 * size + p / 2) / p;
        dec_seq(tenths / 10) + "."@ + dec_seq(tenths % 10) + " "@ + file_size_suffix(k)
    }
}

/// Format a file size in a human-readable form.
pub fn format_file_size(size: u64) -> (r: String)
    ensures
        r@ == spec_format_file_size(size as int),
{
    if size < 1024 {
        let mut s = dec_str_u64(size);
        s.append(" ");
        s.append("B");
        proof {
            assert(s@ =~= spec_format_file_size(size as int));
        }
        return s;
    }
    let (p, suffix): (u64, &'static str) = if size < 1_048_576 {
        (1024, "KB")
    } else if size < 1_073_741_824 {
        (1_048_576, "MB")
    } else if size < 1_099_511_627_776 {
        (1_073_741_824, "GB")
    } else {
        (1_099_511_627_776, "TB")
    };
    let tenths_wide: u128 = (10 * (size as u128) + (p as u128) / 2) / (p as u128);
    proof {
        assert(tenths_wide <= 200_000_000_000_000_000) by (nonlinear_arith)
            requires
                tenths_wide == (10 * (size as int) + (p as int) / 2) / (p as int),
                1024 <= p,
                size < 0x1_0000_0000_0000_0000,
        ;
    }
    let tenths: u64 = tenths_wide as u64;
    let mut s = dec_str_u64(tenths / 10);
    s.append(".");
    let frac = dec_str_u64(tenths % 10);
    s.append(frac.as_str());
    s.append(" ");
    s.append(suffix);
    proof {
        assert(s@ =~= spec_format_file_size(size as int));
    }
    s
}

} // verus!
