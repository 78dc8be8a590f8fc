//! Image geometry and pixel buffers.

use vstd::prelude::*;

verus! {

/// Width and height of an image, in pixels.
#[derive(Copy, Clone, Debug, PartialEq, Eq, Structural)]
pub struct ImageSize {
    pub width: u32,
    pub height: u32,
}

impl Default for ImageSize {
    /// The empty geometry, zero by zero.
    fn default() -> (size: ImageSize)
        ensures
            size == (ImageSize { width: 0, height: 0 }),
    {
        ImageSize { width: 0, height: 0 }
    }
}

impl View for ImageSize {
    type V = ImageSize;

    open spec fn view(&self) -> ImageSize {
        *self
    }
}

/// The product of two 32-bit values fits in 64 bits.
pub proof fn lemma_product_fits_u64(width: u32, height: u32)
    ensures
        width * height <= u64::MAX,
{
    assert(width * height <= 0xffff_ffff * 0xffff_ffff) by (nonlinear_arith)
        requires
            0 <= width <= 0xffff_ffff,
            0 <= height <= 0xffff_ffff,
    ;
}

impl ImageSize {
    /// The number of pixels of an image of this size, `width * height`.
    pub open spec fn pixel_count(self) -> nat {
        (self.width * self.height) as nat
    }

    /// The size of a square image with the given side.
    pub fn square(dimension: u32) -> (size: ImageSize)
        ensures
            size == (ImageSize { width: dimension, height: dimension }),
    {
        ImageSize { width: dimension, height: dimension }
    }

    /// The number of pixels, `width * height`, on a machine whose `usize`
    /// can hold it.
    pub fn area(&self) -> (area: usize)
        requires
            self.pixel_count() <= usize::MAX,
        ensures
            area == self.pixel_count(),
    {
        (self.width as usize) * (self.height as usize)
    }

    /// The number of pixels, or `None` where it does not fit in `usize`.
    pub fn checked_area(&self) -> (area: Option<usize>)
        ensures
            self.pixel_count() <= usize::MAX ==> area == Some(self.pixel_count() as usize),
            self.pixel_count() > usize::MAX ==> area is None,
    {
        proof {
            lemma_product_fits_u64(self.width, self.height);
        }
        let product: u64 = (self.width as u64) * (self.height as u64);
        if product <= usize::MAX as u64 {
            Some(product as usize)
        } else {
            None
        }
    }

    /// Whether a buffer of `len` bytes holds exactly one byte per pixel.
    pub fn matches_len(&self, len: usize) -> (matches: bool)
        ensures
            matches == (len == self.pixel_count()),
    {
        proof {
            lemma_product_fits_u64(self.width, self.height);
        }
        (self.width as u64) * (self.height as u64) == len as u64
    }
}

/// What an image is: its geometry and its pixels, row by row.
pub struct ImageView {
    pub size: ImageSize,
    pub pixels: Seq<u8>,
}

impl ImageView {
    /// One byte per pixel: the pixel buffer is as long as the geometry asks.
    pub open spec fn consistent(self) -> bool {
        self.pixels.len() == self.size.pixel_count()
    }
}

/// A grayscale image, one byte per pixel in row-major order. Every `Image`
/// holds exactly `width * height` pixels.
#[derive(Debug, PartialEq)]
pub struct Image {
    size: ImageSize,
    pixels: Vec<u8>,
}

impl View for Image {
    type V = ImageView;

    closed spec fn view(&self) -> ImageView {
        ImageView { size: self.size, pixels: self.pixels@ }
    }
}

impl Image {
    #[verifier::type_invariant]
    spec fn well_formed(self) -> bool {
        self.pixels@.len() == self.size.pixel_count()
    }

    /// A builder with the empty geometry and no pixels.
    pub fn builder() -> (builder: ImageBuilder)
        ensures
            builder@ == (ImageView {
                size: ImageSize { width: 0, height: 0 },
                pixels: Seq::empty(),
            }),
    {
        ImageBuilder { size: ImageSize::default(), pixels: Vec::new() }
    }

    /// The geometry of the image.
    pub fn size(&self) -> (size: ImageSize)
        ensures
            size == self@.size,
            self@.consistent(),
    {
        proof {
            use_type_invariant(self);
        }
        self.size
    }

    /// The pixels in row-major order.
    pub fn pixels(&self) -> (pixels: &[u8])
        ensures
            pixels@ == self@.pixels,
            self@.consistent(),
    {
        proof {
            use_type_invariant(self);
        }
        self.pixels.as_slice()
    }
}

/// Why a builder could not produce an image: the geometry it was given and
/// the number of pixels it holds instead of `width * height`.
#[derive(Copy, Clone, Debug, PartialEq, Eq, Structural)]
pub struct PixelCountMismatch {
    pub size: ImageSize,
    pub pixels: usize,
}

/// Collects the geometry and the pixels of an image, and checks the one
/// against the other when the image is built.
pub struct ImageBuilder {
    size: ImageSize,
    pixels: Vec<u8>,
}

impl View for ImageBuilder {
    type V = ImageView;

    closed spec fn view(&self) -> ImageView {
        ImageView { size: self.size, pixels: self.pixels@ }
    }
}

impl ImageBuilder {
    /// Replaces the geometry.
    pub fn with_size(self, size: ImageSize) -> (builder: ImageBuilder)
        ensures
            builder@ == (ImageView { size, pixels: self@.pixels }),
    {
        ImageBuilder { size, pixels: self.pixels }
    }

    /// Replaces the pixels, given row by row.
    pub fn with_pixels_row_major(self, pixels: Vec<u8>) -> (builder: ImageBuilder)
        ensures
            builder@ == (ImageView { size: self@.size, pixels: pixels@ }),
    {
        ImageBuilder { size: self.size, pixels }
    }

    /// Whether the pixels collected so far fill the geometry exactly.
    pub fn is_consistent(&self) -> (consistent: bool)
        ensures
            consistent == self@.consistent(),
    {
        self.size.matches_len(self.pixels.len())
    }

    /// The image of the collected geometry and pixels, which must agree.
    pub fn build(self) -> (image: Image)
        requires
            self@.consistent(),
        ensures
            image@ == self@,
    {
        Image { size: self.size, pixels: self.pixels }
    }

    /// The image of the collected geometry and pixels: built if and only if
    /// there are exactly `width * height` pixels, refused otherwise.
    pub fn try_build(self) -> (built: Result<Image, PixelCountMismatch>)
        ensures
            built is Ok <==> self@.consistent(),
            built matches Ok(image) ==> image@ == self@,
            built matches Err(mismatch) ==> mismatch == (PixelCountMismatch {
                size: self@.size,
                pixels: self@.pixels.len() as usize,
            }),
    {
        if self.is_consistent() {
            Ok(self.build())
        } else {
            Err(PixelCountMismatch { size: self.size, pixels: self.pixels.len() })
        }
    }
}

} // verus!
