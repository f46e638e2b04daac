//! In-memory raster images.
//!
//! The comparison engine works on this model: a rectangular grid of
//! RGB pixels with three 8-bit channels, stored row-major, plus the
//! single-channel grayscale grid that feeds the structural-similarity
//! path.  Width and height are immutable once the image is built, and
//! the total pixel count always fits in a `u32`.

use vstd::prelude::*;

verus! {

/// One pixel: red, green and blue channels, 8 bits each.
#[derive(Debug, Clone, Copy, PartialEq, Eq, Structural)]
pub struct Pixel {
    pub r: u8,
    pub g: u8,
    pub b: u8,
}

impl Pixel {
    /// Build a pixel from its three channels.
    pub fn new(r: u8, g: u8, b: u8) -> (p: Pixel)
        ensures
            p == (Pixel { r, g, b }),
    {
        Pixel { r, g, b }
    }
}

/// A rectangular grid of RGB pixels, addressed by column and row.
///
/// Pixels are stored row-major: the pixel at column `x`, row `y` is
/// `pixels[y * width + x]`.
#[derive(Debug, Clone, PartialEq, Eq)]
pub struct Image {
    width: u32,
    height: u32,
    pixels: Vec<Pixel>,
}

impl Image {
    /// The pixel grid as a flat row-major sequence.
    pub closed spec fn view(&self) -> Seq<Pixel> {
        self.pixels@
    }

    /// Width in pixels.
    pub closed spec fn spec_width(&self) -> u32 {
        self.width
    }

    /// Height in pixels.
    pub closed spec fn spec_height(&self) -> u32 {
        self.height
    }

    /// Total number of pixels, as a mathematical integer.
    pub open spec fn spec_total(&self) -> int {
        self.spec_width() * self.spec_height()
    }

    /// Well-formed: the flat storage holds exactly width * height
    /// pixels, and that product fits in a `u32`.
    pub open spec fn wf(&self) -> bool {
        &&& self.view().len() == self.spec_total()
        &&& self.spec_total() <= u32::MAX
    }

    /// The pixel at column `x`, row `y`.
    pub open spec fn spec_pixel(&self, x: int, y: int) -> Pixel {
        self.view()[y * self.spec_width() + x]
    }

    /// Build an image of the given dimensions with every pixel set to
    /// `fill`.
    pub fn new(width: u32, height: u32, fill: Pixel) -> (img: Image)
        requires
            width * height <= u32::MAX,
        ensures
            img.wf(),
            img.spec_width() == width,
            img.spec_height() == height,
            img@ == Seq::new((width * height) as nat, |i: int| fill),
    {
        let total: u32 = width * height;
        let mut pixels: Vec<Pixel> = Vec::new();
        let mut i: u32 = 0;
        while i < total
            invariant
                i <= total,
                total == width * height,
                pixels@.len() == i,
                forall|j: int| 0 <= j < i ==> pixels@[j] == fill,
            decreases total - i,
        {
            pixels.push(fill);
            i = i + 1;
        }
        let img = Image { width, height, pixels };
        proof {
            assert(img@ =~= Seq::new((width * height) as nat, |i: int| fill));
        }
        img
    }

    /// Build an image from a flat row-major pixel vector.
    pub fn from_pixels(width: u32, height: u32, pixels: Vec<Pixel>) -> (img: Image)
        requires
            width * height <= u32::MAX,
            pixels@.len() == width * height,
        ensures
            img.wf(),
            img.spec_width() == width,
            img.spec_height() == height,
            img@ == pixels@,
    {
        Image { width, height, pixels }
    }

    /// Width in pixels.
    #[verifier::when_used_as_spec(spec_width)]
    pub fn width(&self) -> (w: u32)
        ensures
            w == self.spec_width(),
    {
        self.width
    }

    /// Height in pixels.
    #[verifier::when_used_as_spec(spec_height)]
    pub fn height(&self) -> (h: u32)
        ensures
            h == self.spec_height(),
    {
        self.height
    }

    /// Width and height as a pair.
    pub fn dimensions(&self) -> (d: (u32, u32))
        ensures
            d.0 == self.spec_width(),
            d.1 == self.spec_height(),
    {
        (self.width, self.height)
    }

    /// Total number of pixels.
    pub fn total_pixels(&self) -> (t: u32)
        requires
            self.wf(),
        ensures
            t == self.spec_total(),
    {
        self.width * self.height
    }

    /// Read the pixel at column `x`, row `y`.
    pub fn get_pixel(&self, x: u32, y: u32) -> (p: Pixel)
        requires
            self.wf(),
            x < self.spec_width(),
            y < self.spec_height(),
        ensures
            p == self.spec_pixel(x as int, y as int),
    {
        proof {
            lemma_row_major_index(self.spec_width() as int, self.spec_height() as int, x as int, y as int);
        }
        self.pixels[(y * self.width + x) as usize]
    }

    /// Read the pixel at flat row-major index `i`.
    pub fn get_flat(&self, i: u32) -> (p: Pixel)
        requires
            self.wf(),
            i < self.spec_total(),
        ensures
            p == self@[i as int],
    {
        self.pixels[i as usize]
    }

    /// The flat row-major pixel vector.
    pub fn as_pixels(&self) -> (p: &Vec<Pixel>)
        ensures
            p@ == self@,
    {
        &self.pixels
    }
}

/// A flat row-major index `y * width + x` stays below `width * height`
/// whenever `x < width` and `y < height`.
pub proof fn lemma_row_major_index(width: int, height: int, x: int, y: int)
    requires
        0 <= x < width,
        0 <= y < height,
    ensures
        0 <= y * width + x < width * height,
{
    assert(y * width + x < width * height) by (nonlinear_arith)
        requires
            0 <= x < width,
            0 <= y < height,
    ;
    assert(0 <= y * width) by (nonlinear_arith)
        requires
            0 <= y,
            0 < width,
    ;
}

/// A rectangular grid of single-channel 8-bit luminance values,
/// stored row-major like [`Image`].
#[derive(Debug, Clone, PartialEq, Eq)]
pub struct GrayImage {
    width: u32,
    height: u32,
    values: Vec<u8>,
}

impl GrayImage {
    /// The luminance grid as a flat row-major sequence.
    pub closed spec fn view(&self) -> Seq<u8> {
        self.values@
    }

    /// Width in pixels.
    pub closed spec fn spec_width(&self) -> u32 {
        self.width
    }

    /// Height in pixels.
    pub closed spec fn spec_height(&self) -> u32 {
        self.height
    }

    /// Total number of pixels, as a mathematical integer.
    pub open spec fn spec_total(&self) -> int {
        self.spec_width() * self.spec_height()
    }

    /// Well-formed: the flat storage holds exactly width * height
    /// values, and that product fits in a `u32`.
    pub open spec fn wf(&self) -> bool {
        &&& self.view().len() == self.spec_total()
        &&& self.spec_total() <= u32::MAX
    }

    /// Build a grayscale image from a flat row-major value vector.
    pub fn from_values(width: u32, height: u32, values: Vec<u8>) -> (img: GrayImage)
        requires
            width * height <= u32::MAX,
            values@.len() == width * height,
        ensures
            img.wf(),
            img.spec_width() == width,
            img.spec_height() == height,
            img@ == values@,
    {
        GrayImage { width, height, values }
    }

    /// Width in pixels.
    #[verifier::when_used_as_spec(spec_width)]
    pub fn width(&self) -> (w: u32)
        ensures
            w == self.spec_width(),
    {
        self.width
    }

    /// Height in pixels.
    #[verifier::when_used_as_spec(spec_height)]
    pub fn height(&self) -> (h: u32)
        ensures
            h == self.spec_height(),
    {
        self.height
    }

    /// Read the luminance value at flat row-major index `i`.
    pub fn get_flat(&self, i: u32) -> (v: u8)
        requires
            self.wf(),
            i < self.spec_total(),
        ensures
            v == self@[i as int],
    {
        self.values[i as usize]
    }
}

} // verus!
