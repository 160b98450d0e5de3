//! Raster images in memory.
use vstd::prelude::*;

verus! {

/// Why pixels could not be made into an image.
#[derive(Clone, Copy, Debug, PartialEq, Eq, Structural)]
pub enum ImageError {
    /// The number of bytes is not three times width times height.
    DataLength,
    /// The pixels could not be brought into the linear colour space.
    ColorSpace,
}

/// A decoded image: rows of pixels from top to bottom, each pixel three
/// bytes, red, green and blue, in the linear colour space.
#[derive(Clone, Debug)]
pub struct RtwImage {
    pub width: u32,
    pub height: u32,
    pub data: Vec<u8>,
}

/// `out` is an answer that the conversion of sRGB pixels of this width and
/// height to linear light can give: the converted pixels, or none where the
/// conversion fails. The conversion picks its code by the processor it runs
/// on, so more than one answer may be possible for the same pixels.
pub uninterp spec fn converts(width: u32, height: u32, data: Seq<u8>, out: Option<Seq<u8>>) -> bool;

/// The bytes of an answer of the conversion.
pub open spec fn bytes_of(out: Option<Vec<u8>>) -> Option<Seq<u8>> {
    match out {
        Some(v) => Some(v@),
        None => None,
    }
}

/// Converts sRGB pixels to linear light with
/// `image::ImageBuffer::apply_color_space`, which rewrites the buffer in
/// place. Claimed: what comes back is an answer of the conversion for the
/// pixels that went in, and a successful conversion returns as many bytes as
/// it was given. Nothing is claimed about their values, nor about when the
/// conversion succeeds.
#[verifier::external_body]
fn linearize(width: u32, height: u32, data: Vec<u8>) -> (out: Option<Vec<u8>>)
    requires
        data@.len() == 3 * width * height,
    ensures
        converts(width, height, data@, bytes_of(out)),
        out matches Some(v) ==> v@.len() == data@.len(),
{
    let mut buffer = ::image::RgbImage::from_raw(width, height, data)?;
    buffer.apply_color_space(
        ::image::metadata::Cicp::SRGB_LINEAR,
        ::image::ConvertColorOptions::default(),
    ).ok()?;
    Some(buffer.into_raw())
}

impl RtwImage {
    /// There are three bytes for every pixel.
    pub open spec fn wf(&self) -> bool {
        self.data@.len() == 3 * self.width * self.height
    }

    /// The place of the red byte of pixel `(x, y)`.
    pub open spec fn offset(&self, x: u32, y: u32) -> int {
        3 * (y * self.width + x)
    }

    /// The pixel in column `x` of row `y`.
    pub open spec fn pixel_spec(&self, x: u32, y: u32) -> (u8, u8, u8) {
        (
            self.data@[self.offset(x, y)],
            self.data@[self.offset(x, y) + 1],
            self.data@[self.offset(x, y) + 2],
        )
    }

    /// What becomes of the pixels once the colour conversion has answered:
    /// without an answer there is no image, and an answer of the wrong
    /// length is refused.
    pub open spec fn from_converted_spec(width: u32, height: u32, converted: Option<Vec<u8>>) -> Result<
        RtwImage,
        ImageError,
    > {
        match converted {
            None => Err(ImageError::ColorSpace),
            Some(data) => if data@.len() == 3 * width * height {
                Ok(RtwImage { width, height, data })
            } else {
                Err(ImageError::DataLength)
            },
        }
    }

    /// Whether the byte count is three times width times height.
    pub fn fits(width: u32, height: u32, len: usize) -> (b: bool)
        ensures
            b == (len == 3 * width * height),
    {
        let ghost w = width as int;
        let ghost h = height as int;
        assert(0 <= w * h <= 0xFFFF_FFFE_0000_0001) by (nonlinear_arith)
            requires
                0 <= w <= 0xFFFF_FFFF,
                0 <= h <= 0xFFFF_FFFF,
        ;
        assert(3 * w * h == 3 * (w * h)) by (nonlinear_arith);
        let area: u64 = (width as u64) * (height as u64);
        if area > u64::MAX / 3 {
            false
        } else {
            (len as u64) == 3 * area
        }
    }

    /// An image from decoded sRGB pixels, which are converted to linear
    /// light.
    pub fn new(width: u32, height: u32, data: Vec<u8>) -> (res: Result<RtwImage, ImageError>)
        ensures
            data@.len() != 3 * width * height ==> res == Err::<RtwImage, ImageError>(
                ImageError::DataLength,
            ),
            data@.len() == 3 * width * height ==> match res {
                Ok(img) => img.width == width && img.height == height && img.wf() && converts(
                    width,
                    height,
                    data@,
                    Some(img.data@),
                ),
                Err(e) => e == ImageError::ColorSpace && converts(
                    width,
                    height,
                    data@,
                    None::<Seq<u8>>,
                ),
            },
    {
        if !RtwImage::fits(width, height, data.len()) {
            return Err(ImageError::DataLength);
        }
        let converted = linearize(width, height, data);
        RtwImage::from_converted(width, height, converted)
    }

    /// An image from what the colour conversion answered.
    pub fn from_converted(width: u32, height: u32, converted: Option<Vec<u8>>) -> (res: Result<
        RtwImage,
        ImageError,
    >)
        ensures
            res == RtwImage::from_converted_spec(width, height, converted),
    {
        match converted {
            None => Err(ImageError::ColorSpace),
            Some(data) => {
                if RtwImage::fits(width, height, data.len()) {
                    Ok(RtwImage { width, height, data })
                } else {
                    Err(ImageError::DataLength)
                }
            },
        }
    }

    pub fn height(&self) -> (h: u32)
        ensures
            h == self.height,
    {
        self.height
    }

    pub fn width(&self) -> (w: u32)
        ensures
            w == self.width,
    {
        self.width
    }

    pub fn get_pixel(&self, x: u32, y: u32) -> (p: (u8, u8, u8))
        requires
            self.wf(),
            x < self.width,
            y < self.height,
        ensures
            p == self.pixel_spec(x, y),
    {
        let ghost w = self.width as int;
        let ghost h = self.height as int;
        let ghost col = x as int;
        let ghost row = y as int;
        assert(0 <= row * w && 3 * (row * w + col) + 2 < 3 * w * h) by (nonlinear_arith)
            requires
                0 <= col < w,
                0 <= row < h,
        ;
        let len = self.data.len();
        assert(len == 3 * w * h);
        assert(3 * (row * w + col) + 2 < usize::MAX);
        assert((y as u64) * (self.width as u64) == row * w);
        let at: u64 = 3 * ((y as u64) * (self.width as u64) + (x as u64));
        let at: usize = at as usize;
        (self.data[at], self.data[at + 1], self.data[at + 2])
    }
}

} // verus!
