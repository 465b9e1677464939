//! Emote images: decoding them and scaling them to the text they cover.

use vstd::prelude::*;

verus! {

#[verifier::external_type_specification]
#[verifier::external_body]
pub struct ExImageError(image::ImageError);

/// The pixels that a PNG file decodes to, as width, height and RGBA bytes.
pub uninterp spec fn png_decoded(bytes: Seq<u8>) -> Option<(u32, u32, Seq<u8>)>;

/// An RGBA raster, row by row from the top, four bytes per pixel.
#[derive(Clone, Debug, PartialEq, Eq)]
pub struct Bitmap {
    pub width: u32,
    pub height: u32,
    pub rgba: Vec<u8>,
}

/// Why an emote's image could not be had.
#[derive(Clone, Copy, Debug, PartialEq, Eq, Structural)]
pub enum EmoteError {
    /// The image could not be fetched.
    Fetch,
    /// The payload was not a PNG image.
    Decode,
}

impl Bitmap {
    /// Exactly four bytes for each pixel.
    pub open spec fn wf(&self) -> bool {
        self.rgba@.len() == 4 * (self.width as int) * (self.height as int)
    }

    /// Byte `channel` (red, green, blue, alpha) of the pixel at `(x, y)`.
    pub open spec fn channel(&self, x: int, y: int, channel: int) -> u8 {
        self.rgba@[4 * (y * self.width + x) + channel]
    }

    /// A bitmap of the given size over `rgba`, if it holds four bytes per pixel.
    pub fn from_rgba(width: u32, height: u32, rgba: Vec<u8>) -> (r: Option<Bitmap>)
        ensures
            match r {
                Some(b) => b.width == width && b.height == height && b.rgba@ == rgba@ && b.wf(),
                None => rgba@.len() != 4 * (width as int) * (height as int),
            },
    {
        let w = width as u64;
        let h = height as u64;
        assert(w * h <= 0xffff_fffe_0000_0001) by (nonlinear_arith)
            requires
                w <= 0xffff_ffff,
                h <= 0xffff_ffff,
        ;
        let pixels = w * h;
        let n = rgba.len() as u64;
        assert(n == rgba@.len());
        assert(pixels == (width as int) * (height as int));
        assert(4 * (width as int) * (height as int) == 4 * (pixels as int)) by (nonlinear_arith)
            requires
                pixels == (width as int) * (height as int),
        ;
        if pixels > 0x3fff_ffff_ffff_ffff {
            return None;
        }
        if n != 4 * pixels {
            return None;
        }
        Some(Bitmap { width, height, rgba })
    }
}

/// Relies on `image::load_from_memory_with_format` (PNG) and
/// `DynamicImage::to_rgba8`: the decoded pixels depend on the bytes alone, and
/// the buffer holds four bytes per pixel.
#[verifier::external_body]
fn decode_png_rgba(bytes: &[u8]) -> (r: Result<Bitmap, image::ImageError>)
    ensures
        match r {
            Ok(b) => png_decoded(bytes@) == Some((b.width, b.height, b.rgba@)) && b.wf(),
            Err(_) => png_decoded(bytes@) is None,
        },
{
    match image::load_from_memory_with_format(bytes, image::ImageFormat::Png) {
        Ok(decoded) => {
            let buffer = decoded.to_rgba8();
            Ok(Bitmap { width: buffer.width(), height: buffer.height(), rgba: buffer.into_raw() })
        },
        Err(error) => Err(error),
    }
}

/// Relies on `image::ImageBuffer::from_raw`, which accepts a buffer of four
/// bytes per pixel, and on `image::imageops::resize` with the Lanczos3 filter,
/// which returns an image of exactly the requested size. Its working buffer
/// holds sixteen bytes for each source column and target row.
#[verifier::external_body]
fn lanczos_resize(source: &Bitmap, width: u32, height: u32) -> (r: Option<Bitmap>)
    requires
        source.wf(),
        width > 0,
        height > 0,
        16 * (source.width as int) * (height as int) <= isize::MAX,
        4 * (width as int) * (height as int) <= isize::MAX,
    ensures
        match r {
            Some(b) => b.width == width && b.height == height && b.wf(),
            None => false,
        },
{
    match image::RgbaImage::from_raw(source.width, source.height, source.rgba.clone()) {
        Some(buffer) => {
            let out = image::imageops::resize(&buffer, width, height, image::imageops::FilterType::Lanczos3);
            Some(Bitmap { width: out.width(), height: out.height(), rgba: out.into_raw() })
        },
        None => None,
    }
}

/// Decodes an emote's PNG payload.
pub fn decode_emote(bytes: &[u8]) -> (r: Result<Bitmap, EmoteError>)
    ensures
        match r {
            Ok(b) => b.wf() && png_decoded(bytes@) == Some((b.width, b.height, b.rgba@)),
            Err(e) => e == EmoteError::Decode && png_decoded(bytes@) is None,
        },
{
    match decode_png_rgba(bytes) {
        Ok(b) => Ok(b),
        Err(_) => Err(EmoteError::Decode),
    }
}

/// Scales `image` to exactly `width` by `height` with a Lanczos filter. The
/// filter's arithmetic is floating point, whose rounding may differ between
/// machines, so only the size of the result is promised.
pub fn resize_emote(image: &Bitmap, width: u32, height: u32) -> (r: Bitmap)
    requires
        image.wf(),
        width > 0,
        height > 0,
        16 * (image.width as int) * (height as int) <= isize::MAX,
        4 * (width as int) * (height as int) <= isize::MAX,
    ensures
        r.width == width,
        r.height == height,
        r.wf(),
{
    match lanczos_resize(image, width, height) {
        Some(b) => b,
        None => {
            proof {
                assert(false);
            }
            image.clone()
        },
    }
}

} // verus!
