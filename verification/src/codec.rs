//! Encoded-byte handling: base64 decoding, image format detection, and
//! image decoding.
//!
//! Base64 decoding and pixel decompression are done by outside crates and
//! are trusted at their interface; everything around them — the two-tier
//! format-detection policy and the assembly of the decoded image — is
//! verified.

use vstd::prelude::*;

use crate::error::{ErrorV, ImportError};
use crate::text::str_eq_pat;

verus! {

/// The bytes a base64 string decodes to, or nothing where the string is
/// malformed. Determined by the characters alone.
pub uninterp spec fn base64_decoding(s: Seq<char>) -> Option<Seq<u8>>;

/// Relies on `base64::decode`: decoding with the standard alphabet is a
/// function of the input characters alone; a malformed input is rejected.
#[verifier::external_body]
pub fn decode_base64(s: &str) -> (r: Option<Vec<u8>>)
    ensures
        match r {
            Some(v) => base64_decoding(s@) == Some(v@),
            None => base64_decoding(s@) is None,
        },
{
    base64::decode(s).ok()
}

/// An encoded-image format the importer recognizes.
#[derive(Clone, Copy, Debug, PartialEq, Eq, Structural)]
pub enum ImageFormat {
    Png,
    Jpeg,
}

pub open spec fn png_signature() -> Seq<u8> {
    seq![0x89u8, 0x50u8, 0x4eu8, 0x47u8, 0x0du8, 0x0au8, 0x1au8, 0x0au8]
}

pub open spec fn jpeg_signature() -> Seq<u8> {
    seq![0xffu8, 0xd8u8, 0xffu8]
}

/// True when `p` is a prefix of `b`.
pub open spec fn bytes_have_prefix(b: Seq<u8>, p: Seq<u8>) -> bool {
    p.len() <= b.len() && b.subrange(0, p.len() as int) == p
}

/// The format the leading magic bytes reveal, if any.
pub open spec fn sniffed_format(b: Seq<u8>) -> Option<ImageFormat> {
    if bytes_have_prefix(b, png_signature()) {
        Some(ImageFormat::Png)
    } else if bytes_have_prefix(b, jpeg_signature()) {
        Some(ImageFormat::Jpeg)
    } else {
        None
    }
}

/// Relies on `image::guess_format`, whose magic-byte table starts with the
/// PNG signature and the JPEG signature; the two do not overlap, and no
/// other table entry yields PNG or JPEG. Every other outcome is `None`.
#[verifier::external_body]
pub fn guess_format(bytes: &[u8]) -> (r: Option<ImageFormat>)
    ensures
        r == sniffed_format(bytes@),
{
    match image::guess_format(bytes) {
        Ok(image::ImageFormat::Png) => Some(ImageFormat::Png),
        Ok(image::ImageFormat::Jpeg) => Some(ImageFormat::Jpeg),
        _ => None,
    }
}

/// The layout of a decoded image's pixel buffer.
#[derive(Clone, Copy, Debug, PartialEq, Eq, Structural)]
pub enum PixelFormat {
    /// 8-bit luminance.
    L8,
    /// 8-bit luminance with alpha.
    La8,
    /// 8-bit red, green, blue.
    Rgb8,
    /// 8-bit red, green, blue, alpha.
    Rgba8,
    /// 16-bit luminance.
    L16,
    /// 16-bit luminance with alpha.
    La16,
    /// 16-bit red, green, blue.
    Rgb16,
    /// 16-bit red, green, blue, alpha.
    Rgba16,
    /// Any other layout.
    Other,
}

/// The pixel layout determined by a channel count and the bits one pixel
/// occupies.
pub open spec fn pixel_format_of(channels: u8, bits_per_pixel: u16) -> PixelFormat {
    if channels == 1 && bits_per_pixel == 8 {
        PixelFormat::L8
    } else if channels == 2 && bits_per_pixel == 16 {
        PixelFormat::La8
    } else if channels == 3 && bits_per_pixel == 24 {
        PixelFormat::Rgb8
    } else if channels == 4 && bits_per_pixel == 32 {
        PixelFormat::Rgba8
    } else if channels == 1 && bits_per_pixel == 16 {
        PixelFormat::L16
    } else if channels == 2 && bits_per_pixel == 32 {
        PixelFormat::La16
    } else if channels == 3 && bits_per_pixel == 48 {
        PixelFormat::Rgb16
    } else if channels == 4 && bits_per_pixel == 64 {
        PixelFormat::Rgba16
    } else {
        PixelFormat::Other
    }
}

/// Tags a pixel buffer by its channel count and bits per pixel.
pub fn pixel_format_for(channels: u8, bits_per_pixel: u16) -> (r: PixelFormat)
    ensures
        r == pixel_format_of(channels, bits_per_pixel),
{
    if channels == 1 && bits_per_pixel == 8 {
        PixelFormat::L8
    } else if channels == 2 && bits_per_pixel == 16 {
        PixelFormat::La8
    } else if channels == 3 && bits_per_pixel == 24 {
        PixelFormat::Rgb8
    } else if channels == 4 && bits_per_pixel == 32 {
        PixelFormat::Rgba8
    } else if channels == 1 && bits_per_pixel == 16 {
        PixelFormat::L16
    } else if channels == 2 && bits_per_pixel == 32 {
        PixelFormat::La16
    } else if channels == 3 && bits_per_pixel == 48 {
        PixelFormat::Rgb16
    } else if channels == 4 && bits_per_pixel == 64 {
        PixelFormat::Rgba16
    } else {
        PixelFormat::Other
    }
}

/// The plain fields read off a freshly decoded image.
pub struct RawImage {
    pub width: u32,
    pub height: u32,
    pub channels: u8,
    pub bits_per_pixel: u16,
    pub pixels: Vec<u8>,
}

/// Spec-level mirror of `RawImage`.
pub ghost struct RawImageV {
    pub width: u32,
    pub height: u32,
    pub channels: u8,
    pub bits_per_pixel: u16,
    pub pixels: Seq<u8>,
}

impl View for RawImage {
    type V = RawImageV;

    open spec fn view(&self) -> RawImageV {
        RawImageV {
            width: self.width,
            height: self.height,
            channels: self.channels,
            bits_per_pixel: self.bits_per_pixel,
            pixels: self.pixels@,
        }
    }
}

/// What decoding `bytes` as PNG (`png` true) or JPEG (`png` false) yields:
/// the decoded image's fields, or the decoder's message. Determined by the
/// arguments alone.
pub uninterp spec fn image_decoding(bytes: Seq<u8>, png: bool) -> Result<RawImageV, Seq<char>>;

/// Relies on `image::load_from_memory_with_format`: decompressing PNG or
/// JPEG bytes is a function of the bytes and the chosen format alone; on
/// success the decoder reports the image's width, height, colour layout
/// and pixel bytes.
#[verifier::external_body]
fn decode_image(bytes: &[u8], png: bool) -> (r: Result<RawImage, String>)
    ensures
        match r {
            Ok(img) => image_decoding(bytes@, png) == Ok::<RawImageV, Seq<char>>(img@),
            Err(m) => image_decoding(bytes@, png) == Err::<RawImageV, Seq<char>>(m@),
        },
{
    let fmt = if png { image::ImageFormat::Png } else { image::ImageFormat::Jpeg };
    match image::load_from_memory_with_format(bytes, fmt) {
        Ok(img) => {
            let color = img.color();
            Ok(RawImage {
                width: img.width(),
                height: img.height(),
                channels: color.channel_count(),
                bits_per_pixel: color.bits_per_pixel(),
                pixels: img.into_bytes(),
            })
        },
        Err(e) => Err(e.to_string()),
    }
}

/// A decoded image: dimensions, pixel layout, and the pixel bytes.
#[derive(Clone, Debug, PartialEq)]
pub struct DecodedImage {
    /// Width in pixels.
    pub width: u32,
    /// Height in pixels.
    pub height: u32,
    /// Layout of the pixel buffer.
    pub format: PixelFormat,
    /// The raw pixel bytes.
    pub pixels: Vec<u8>,
}

/// Spec-level mirror of `DecodedImage`.
pub ghost struct DecodedImageV {
    pub width: u32,
    pub height: u32,
    pub format: PixelFormat,
    pub pixels: Seq<u8>,
}

impl View for DecodedImage {
    type V = DecodedImageV;

    open spec fn view(&self) -> DecodedImageV {
        DecodedImageV {
            width: self.width,
            height: self.height,
            format: self.format,
            pixels: self.pixels@,
        }
    }
}

/// The decoded image assembled from a decoder's raw fields.
pub open spec fn decoded_of(raw: RawImageV) -> DecodedImageV {
    DecodedImageV {
        width: raw.width,
        height: raw.height,
        format: pixel_format_of(raw.channels, raw.bits_per_pixel),
        pixels: raw.pixels,
    }
}

/// The outcome of decoding `bytes` as `fmt`, over the named decoder result.
pub open spec fn image_decode_outcome(bytes: Seq<u8>, fmt: ImageFormat) -> Result<
    DecodedImageV,
    Seq<char>,
> {
    match image_decoding(bytes, fmt == ImageFormat::Png) {
        Ok(raw) => Ok(decoded_of(raw)),
        Err(m) => Err(m),
    }
}

/// Decodes encoded image bytes in the given format.
pub fn decode_image_bytes(bytes: &[u8], fmt: ImageFormat) -> (r: Result<DecodedImage, String>)
    ensures
        match r {
            Ok(img) => image_decode_outcome(bytes@, fmt) == Ok::<DecodedImageV, Seq<char>>(img@),
            Err(m) => image_decode_outcome(bytes@, fmt) == Err::<DecodedImageV, Seq<char>>(m@),
        },
{
    let png = fmt == ImageFormat::Png;
    match decode_image(bytes, png) {
        Ok(raw) => {
            let format = pixel_format_for(raw.channels, raw.bits_per_pixel);
            Ok(DecodedImage { width: raw.width, height: raw.height, format, pixels: raw.pixels })
        },
        Err(m) => Err(m),
    }
}

pub open spec fn png_mime() -> Seq<char> {
    seq!['i', 'm', 'a', 'g', 'e', '/', 'p', 'n', 'g']
}

pub open spec fn jpeg_mime() -> Seq<char> {
    seq!['i', 'm', 'a', 'g', 'e', '/', 'j', 'p', 'e', 'g']
}

/// The format chosen for encoded image bytes: a recognized media-type hint
/// is trusted outright; with an absent or unrecognized hint the leading
/// magic bytes decide; when neither answers, the encoding is unsupported.
pub open spec fn resolved_format(bytes: Seq<u8>, mime: Option<Seq<char>>) -> Result<
    ImageFormat,
    ErrorV,
> {
    match mime {
        Some(m) => if m == png_mime() {
            Ok(ImageFormat::Png)
        } else if m == jpeg_mime() {
            Ok(ImageFormat::Jpeg)
        } else {
            match sniffed_format(bytes) {
                Some(f) => Ok(f),
                None => Err(ErrorV::UnsupportedImageEncoding),
            }
        },
        None => match sniffed_format(bytes) {
            Some(f) => Ok(f),
            None => Err(ErrorV::UnsupportedImageEncoding),
        },
    }
}

/// The view of an optional media-type hint.
pub open spec fn mime_view(mime: Option<&String>) -> Option<Seq<char>> {
    match mime {
        Some(m) => Some(m@),
        None => None,
    }
}

/// Chooses the encoded format for image bytes from the media-type hint and
/// the magic bytes.
pub fn resolve_format(bytes: &[u8], mime: Option<&String>) -> (r: Result<ImageFormat, ImportError>)
    ensures
        r matches Ok(f) ==> resolved_format(bytes@, mime_view(mime)) == Ok::<ImageFormat, ErrorV>(
            f,
        ),
        r matches Err(e) ==> resolved_format(bytes@, mime_view(mime)) == Err::<ImageFormat, ErrorV>(
            e@,
        ),
{
    if let Some(m) = mime {
        let png_pat: Vec<char> = vec!['i', 'm', 'a', 'g', 'e', '/', 'p', 'n', 'g'];
        proof {
            assert(png_pat@ =~= png_mime());
        }
        if str_eq_pat(m.as_str(), &png_pat) {
            return Ok(ImageFormat::Png);
        }
        let jpeg_pat: Vec<char> = vec!['i', 'm', 'a', 'g', 'e', '/', 'j', 'p', 'e', 'g'];
        proof {
            assert(jpeg_pat@ =~= jpeg_mime());
        }
        if str_eq_pat(m.as_str(), &jpeg_pat) {
            return Ok(ImageFormat::Jpeg);
        }
    }
    match guess_format(bytes) {
        Some(f) => Ok(f),
        None => Err(ImportError::UnsupportedImageEncoding),
    }
}

} // verus!
