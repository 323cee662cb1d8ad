//! Clipboard images as PNG files.
use crate::client::clipboard::{ImageBytes, ImageValues};
use vstd::prelude::*;

verus! {

/// Why an image could not be encoded or decoded, as the `image` crate reports
/// it.
#[verifier::external_type_specification]
#[verifier::external_body]
pub struct ExImageError(image::ImageError);

/// The PNG file that an RGBA image is encoded to; `None` where it cannot be
/// encoded.
pub uninterp spec fn png_encoding(width: u32, height: u32, rgba: Seq<u8>) -> Option<Seq<u8>>;

/// The sides and the RGBA bytes that a PNG file decodes to; `None` where it
/// cannot be decoded.
pub uninterp spec fn png_decoding(png: Seq<u8>) -> Option<(u32, u32, Seq<u8>)>;

/// How many bytes of RGBA an image has.
pub open spec fn rgba_len(width: u32, height: u32) -> int {
    width * height * 4
}

/// Whether `len` bytes hold an RGBA image of these sides.
pub open spec fn rgba_fits(width: u32, height: u32, len: nat) -> bool {
    &&& width * 4 <= usize::MAX
    &&& rgba_len(width, height) <= len
}

/// The largest image that a PNG decoder's default limits let through, in bytes
/// of RGBA.
pub const PNG_DECODE_LIMIT: u32 = 0x2000_0000;

/// Whether an image has at least one pixel and lies within the decoder's
/// limits.
pub open spec fn png_round_trips(width: u32, height: u32) -> bool {
    &&& width > 0
    &&& height > 0
    &&& rgba_len(width, height) <= PNG_DECODE_LIMIT
}

/// `ImageBuffer::from_raw` and `ImageBuffer::write_to` of the `image` crate,
/// for 8-bit RGBA and PNG. `None` where the buffer is too short for the sides;
/// bytes behind the last pixel are left out. An image without pixels is an
/// error. One within the decoder's limits is encoded without one, and decodes
/// to the same pixels again: PNG is lossless. Of larger images no more is
/// stated than that the outcome depends on the image alone.
#[verifier::external_body]
fn png_encode(width: u32, height: u32, rgba: &[u8]) -> (r: Option<
    Result<Vec<u8>, image::ImageError>,
>)
    ensures
        r is None <==> !rgba_fits(width, height, rgba@.len()),
        r matches Some(Ok(png)) ==> png_encoding(width, height, rgba@) == Some(png@),
        r matches Some(Err(_)) ==> png_encoding(width, height, rgba@) is None,
        width == 0 || height == 0 ==> !(r matches Some(Ok(_))),
        png_round_trips(width, height) && r is Some ==> r->0 is Ok,
        r matches Some(Ok(png)) ==> (png_round_trips(width, height) ==> png_decoding(png@) == Some(
            (width, height, rgba@.take(rgba_len(width, height))),
        )),
{
    let buffer = image::ImageBuffer::<image::Rgba<u8>, &[u8]>::from_raw(width, height, rgba)?;
    let mut out: Vec<u8> = Vec::new();
    let done = buffer.write_to(&mut std::io::Cursor::new(&mut out), image::ImageFormat::Png);
    Some(done.map(|()| out))
}

/// `load_from_memory_with_format` and `DynamicImage::to_rgba8` of the `image`
/// crate, for PNG: the sides of the image and four bytes for each pixel.
#[verifier::external_body]
fn png_decode(png: &[u8]) -> (r: Result<(u32, u32, Vec<u8>), image::ImageError>)
    ensures
        r matches Ok(image) ==> png_decoding(png@) == Some((image.0, image.1, image.2@)),
        r matches Ok(image) ==> image.2@.len() == rgba_len(image.0, image.1),
        r is Err ==> png_decoding(png@) is None,
{
    let image = image::load_from_memory_with_format(png, image::ImageFormat::Png)?.to_rgba8();
    Ok((image.width(), image.height(), image.into_raw()))
}

/// Why a clipboard change does not become a frame.
#[derive(Debug)]
pub enum EncodeError {
    /// The buffer is too short for the image's sides.
    InvalidBuffer,
    /// The PNG encoder failed.
    Png(image::ImageError),
    /// A list of files takes more than a single frame.
    Files,
}

/// Encodes an RGBA image as a PNG file.
pub fn encode_png(image: &ImageBytes) -> (r: Result<Vec<u8>, EncodeError>)
    ensures
        !rgba_fits(image.width, image.height, image.rgba@.len()) <==> r matches Err(
            EncodeError::InvalidBuffer,
        ),
        rgba_fits(image.width, image.height, image.rgba@.len()) ==> {
            match r {
                Ok(png) => png_encoding(image.width, image.height, image.rgba@) == Some(png@),
                Err(e) => {
                    &&& e is Png
                    &&& png_encoding(image.width, image.height, image.rgba@) is None
                },
            }
        },
        image.width == 0 || image.height == 0 ==> r is Err,
        rgba_fits(image.width, image.height, image.rgba@.len()) && png_round_trips(
            image.width,
            image.height,
        ) ==> {
            &&& r matches Ok(png)
            &&& png_decoding(png@) == Some(
                (
                    image.width,
                    image.height,
                    image.rgba@.take(rgba_len(image.width, image.height)),
                ),
            )
        },
{
    match png_encode(image.width, image.height, &image.rgba) {
        None => Err(EncodeError::InvalidBuffer),
        Some(Ok(png)) => Ok(png),
        Some(Err(e)) => Err(EncodeError::Png(e)),
    }
}

/// The image that a PNG file decodes to.
pub open spec fn png_image(png: Seq<u8>) -> Option<ImageValues> {
    match png_decoding(png) {
        Some((width, height, rgba)) => Some(ImageValues { width, height, rgba }),
        None => None,
    }
}

/// Decodes a PNG file into an RGBA image.
pub fn decode_png(png: &[u8]) -> (r: Result<ImageBytes, image::ImageError>)
    ensures
        r matches Ok(image) ==> png_image(png@) == Some(image@),
        r matches Ok(image) ==> image.rgba@.len() == rgba_len(image.width, image.height),
        r is Err ==> png_image(png@) is None,
{
    match png_decode(png) {
        Ok((width, height, rgba)) => Ok(ImageBytes { width, height, rgba }),
        Err(e) => Err(e),
    }
}

/// A pixel has four bytes, and a buffer holds an image where it has four bytes
/// for each of its pixels.
pub proof fn law_four_bytes_a_pixel(width: u32, height: u32, len: nat)
    ensures
        rgba_len(width, height) == width * height * 4,
        rgba_fits(width, height, len) <==> width * 4 <= usize::MAX && width * height * 4 <= len,
        png_round_trips(width, height) <==> width > 0 && height > 0 && width * height * 4
            <= 536_870_912,
{
}

/// A PNG file's image has the sides and the bytes that it decodes to.
pub proof fn law_png_image_is_what_it_decodes_to(png: Seq<u8>)
    ensures
        png_decoding(png) matches Some(decoded) ==> png_image(png) == Some(
            (ImageValues { width: decoded.0, height: decoded.1, rgba: decoded.2 }),
        ),
        png_decoding(png) is None <==> png_image(png) is None,
{
}

} // verus!
