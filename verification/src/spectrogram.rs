//! The spectrogram canvas as the bytes of a PNG file, encoded by the `png` crate.
use vstd::prelude::*;

use crate::error::{Error, Result};
use crate::raster::{canvas_len, H, W};
use crate::text::{starts_with, string_from};

verus! {

#[verifier::external_type_specification]
#[verifier::external_body]
pub struct ExEncodingError(png::EncodingError);

/// The bytes `png::Encoder` writes for an 8-bit RGB image of `width` by
/// `height` pixels holding `pixels`, row by row.
pub uninterp spec fn png_rgb8(width: int, height: int, pixels: Seq<u8>) -> Seq<u8>;

/// Which stage of PNG encoding failed, with the encoder's error.
#[derive(Debug)]
pub enum PngFailure {
    /// Writing the signature and header chunk.
    Header(png::EncodingError),
    /// Writing the image data or the end chunk.
    Data(png::EncodingError),
}

/// Encodes `pixels` with `png::Encoder` (RGB, 8 bits per sample, default
/// compression): `write_header`, `write_image_data`, then `finish`, into a
/// byte vector. The contract names the bytes `png_rgb8(width, height,
/// pixels)` and states what the crate's source shows of failures: a zero
/// width or height fails the header (the only header check that RGB at 8
/// bits can trip), image data of any length other than three bytes per pixel
/// is refused, and otherwise every write goes into the vector, which cannot
/// fail, so the encoding succeeds.
#[verifier::external_body]
fn encode_rgb8(width: u32, height: u32, pixels: &[u8]) -> (r: std::result::Result<
    Vec<u8>,
    PngFailure,
>)
    requires
        width * 3 * height <= usize::MAX,
    ensures
        r is Ok <==> (width > 0 && height > 0 && pixels@.len() == width * height * 3),
        r matches Err(PngFailure::Header(_)) <==> (width == 0 || height == 0),
        r matches Ok(bytes) ==> bytes@ == png_rgb8(width as int, height as int, pixels@),
{
    let mut bytes = Vec::new();
    let mut encoder = png::Encoder::new(&mut bytes, width, height);
    encoder.set_color(png::ColorType::Rgb);
    encoder.set_depth(png::BitDepth::Eight);
    let mut writer = encoder.write_header().map_err(PngFailure::Header)?;
    writer.write_image_data(pixels).map_err(PngFailure::Data)?;
    writer.finish().map_err(PngFailure::Data)?;
    Ok(bytes)
}

/// Calls `Display` on `png::EncodingError`. Nothing is stated of the text.
#[verifier::external_body]
fn encoding_error_text(e: &png::EncodingError) -> (r: String) {
    e.to_string()
}

/// What an encoding attempt gives the caller: the bytes, or an
/// `InvalidParam` error whose text names the failed stage (`png header: …` or
/// `png encode: …`) followed by the encoder's message.
pub fn png_outcome(r: std::result::Result<Vec<u8>, PngFailure>) -> (out: Result<Vec<u8>>)
    ensures
        match r {
            Ok(bytes) => out matches Ok(b) && b@ == bytes@,
            Err(PngFailure::Header(_)) => out matches Err(Error::InvalidParam { message })
                && starts_with(message@, "png header: "@),
            Err(PngFailure::Data(_)) => out matches Err(Error::InvalidParam { message })
                && starts_with(message@, "png encode: "@),
        },
{
    match r {
        Ok(bytes) => Ok(bytes),
        Err(PngFailure::Header(e)) => {
            proof {
                reveal_strlit("png header: ");
            }
            let mut message = string_from("png header: ");
            let ghost prefix = message@;
            message.append(encoding_error_text(&e).as_str());
            assert(message@.subrange(0, 12) =~= prefix);
            Err(Error::InvalidParam { message })
        },
        Err(PngFailure::Data(e)) => {
            proof {
                reveal_strlit("png encode: ");
            }
            let mut message = string_from("png encode: ");
            let ghost prefix = message@;
            message.append(encoding_error_text(&e).as_str());
            assert(message@.subrange(0, 12) =~= prefix);
            Err(Error::InvalidParam { message })
        },
    }
}

/// The spectrogram canvas (`W` by `H` RGB pixels) as the bytes of a PNG file.
/// A canvas of the right size always encodes; any other length is refused
/// with a `png encode: …` error.
pub fn spectrogram_png(px: &[u8]) -> (r: Result<Vec<u8>>)
    ensures
        r is Ok <==> px@.len() == canvas_len(),
        match r {
            Ok(bytes) => bytes@ == png_rgb8(W as int, H as int, px@),
            Err(e) => e matches Error::InvalidParam { message } && starts_with(
                message@,
                "png encode: "@,
            ),
        },
{
    png_outcome(encode_rgb8(W, H, px))
}

} // verus!
