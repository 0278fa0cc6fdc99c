//! The whole conversion, from an RGBA buffer to a sequence of glyphs.
use vstd::prelude::*;

use crate::gradient::{glyph_seq, gradient_chars, lemma_full_range_index, map_to_gradient};
use crate::pixel::{brightness_seq, reduce_pixels, CHANNELS};

verus! {

/// Why a buffer could not be converted.
#[derive(Clone, Copy, Debug, PartialEq, Eq, Structural)]
pub enum ConversionError {
    /// The buffer does not hold a whole number of pixels, or not as many as
    /// the grid asks for.
    InvalidBufferLength,
    /// The gradient holds fewer than two glyphs.
    EmptyGradient,
}

/// The glyphs of an RGBA buffer `data` under `gradient`.
pub open spec fn ascii_of(data: Seq<u8>, gradient: Seq<char>, observed: bool) -> Seq<char> {
    glyph_seq(brightness_seq(data), gradient, observed)
}

/// What the conversion of `data` under `gradient` yields.
pub open spec fn conversion(data: Seq<u8>, gradient: Seq<char>, observed: bool) -> Result<
    Seq<char>,
    ConversionError,
> {
    if gradient.len() < 2 {
        Err(ConversionError::EmptyGradient)
    } else if data.len() % 4 != 0 {
        Err(ConversionError::InvalidBufferLength)
    } else {
        Ok(ascii_of(data, gradient, observed))
    }
}

/// What the conversion of a `width` by `height` grid held in `data` yields.
pub open spec fn grid_conversion(
    data: Seq<u8>,
    width: int,
    height: int,
    gradient: Seq<char>,
    observed: bool,
) -> Result<Seq<char>, ConversionError> {
    if gradient.len() < 2 {
        Err(ConversionError::EmptyGradient)
    } else if data.len() != width * height * 4 {
        Err(ConversionError::InvalidBufferLength)
    } else {
        Ok(ascii_of(data, gradient, observed))
    }
}

/// The view of a conversion's result.
pub open spec fn result_view(r: Result<Vec<char>, ConversionError>) -> Result<
    Seq<char>,
    ConversionError,
> {
    match r {
        Ok(v) => Ok(v@),
        Err(e) => Err(e),
    }
}

/// An RGBA buffer, four bytes per pixel in row-major order.
pub struct ImageVector {
    image_data: Vec<u8>,
}

impl View for ImageVector {
    type V = Seq<u8>;

    closed spec fn view(&self) -> Seq<u8> {
        self.image_data@
    }
}

impl ImageVector {
    /// An empty buffer.
    pub fn new() -> (r: Self)
        ensures
            r@ == Seq::<u8>::empty(),
    {
        ImageVector { image_data: Vec::new() }
    }

    /// Replaces the buffer by `image_data`.
    pub fn set(&mut self, image_data: Vec<u8>)
        ensures
            final(self)@ == image_data@,
    {
        self.image_data = image_data;
    }

    /// Converts the buffer into one glyph of `gradient` per pixel, spreading
    /// either the observed brightness range of the image or the whole range of
    /// a byte over the gradient.
    pub fn convert_to_ascii(&mut self, gradient: &str, scaled_gradient: bool) -> (r: Result<
        Vec<char>,
        ConversionError,
    >)
        ensures
            final(self)@ == old(self)@,
            result_view(r) == conversion(old(self)@, gradient@, scaled_gradient),
    {
        let glyphs: Vec<char> = gradient_chars(gradient);
        if glyphs.len() < 2 {
            return Err(ConversionError::EmptyGradient);
        }
        if self.image_data.len() % CHANNELS != 0 {
            return Err(ConversionError::InvalidBufferLength);
        }
        let brightness: Vec<u8> = reduce_pixels(&self.image_data);
        Ok(map_to_gradient(&brightness, &glyphs, scaled_gradient))
    }
}

/// Converts a `width` by `height` grid of RGBA pixels, held in row-major order
/// in `image_data`, into one glyph of `gradient` per pixel.
pub fn image_to_ascii(
    image_data: Vec<u8>,
    width: usize,
    height: usize,
    gradient: &str,
    scaled_gradient: bool,
) -> (r: Result<Vec<char>, ConversionError>)
    ensures
        result_view(r) == grid_conversion(
            image_data@,
            width as int,
            height as int,
            gradient@,
            scaled_gradient,
        ),
{
    let glyphs: Vec<char> = gradient_chars(gradient);
    if glyphs.len() < 2 {
        return Err(ConversionError::EmptyGradient);
    }
    let data_len: usize = image_data.len();
    let expected: Option<usize> = match width.checked_mul(height) {
        Some(pixels) => pixels.checked_mul(CHANNELS),
        None => None,
    };
    let fits: bool = match expected {
        Some(len) => len == data_len,
        None => false,
    };
    if !fits {
        proof {
            if data_len == width * height * 4 {
                assert(width * height <= usize::MAX) by (nonlinear_arith)
                    requires
                        width * height * 4 == data_len,
                        data_len <= usize::MAX,
                ;
            }
        }
        return Err(ConversionError::InvalidBufferLength);
    }
    assert(data_len % 4 == 0);
    let mut image_vector: ImageVector = ImageVector::new();
    image_vector.set(image_data);
    image_vector.convert_to_ascii(gradient, scaled_gradient)
}

/// One glyph comes out for each whole pixel of the buffer.
pub proof fn lemma_glyph_count(data: Seq<u8>, gradient: Seq<char>, observed: bool)
    ensures
        ascii_of(data, gradient, observed).len() == data.len() / 4,
        conversion(data, gradient, observed) matches Ok(g) ==> g.len() == data.len() / 4,
{
}

/// Under the whole range of a byte, the pixel of brightness `v` gets the glyph
/// at position `v * (n - 1) / 255` of a gradient of `n` glyphs.
pub proof fn lemma_full_range_glyph(data: Seq<u8>, gradient: Seq<char>, i: int)
    requires
        0 <= i < data.len() / 4,
        gradient.len() >= 2,
    ensures
        ascii_of(data, gradient, false)[i] == gradient[brightness_seq(data)[i] * (gradient.len() - 1)
            / 255],
{
    lemma_full_range_index(brightness_seq(data)[i], gradient.len());
}

/// The conversion depends on its inputs alone: the same buffer, gradient and
/// mode always give the same result.
pub proof fn lemma_conversion_deterministic(
    data1: Seq<u8>,
    data2: Seq<u8>,
    gradient: Seq<char>,
    observed: bool,
)
    requires
        data1 == data2,
    ensures
        conversion(data1, gradient, observed) == conversion(data2, gradient, observed),
{
}

} // verus!
