//! The picture as a PNG stream, ready to be written to a file.
use vstd::prelude::*;

verus! {

/// `png::EncodingError`, what the encoder says when it fails. It is handed
/// through as it comes; nothing is read from it.
#[verifier::external_type_specification]
#[verifier::external_body]
pub struct ExEncodingError(png::EncodingError);

/// The PNG stream that the `png` crate's encoder produces for a picture of
/// `width` by `height` pixels, colour type RGB, eight bits a channel, from
/// the picture's bytes, with the encoder's settings otherwise as it is made.
pub uninterp spec fn png_stream(pixels: Seq<u8>, width: u32, height: u32) -> Seq<u8>;

/// Why a picture could not be turned into a PNG stream.
#[derive(Clone, Copy, Debug, PartialEq, Eq, Structural)]
pub enum ImageError {
    /// The bytes are not three for each pixel of the picture.
    Size,
    /// The encoder refused the picture. It refuses one without pixels.
    Encoding,
}

/// Runs `png::Encoder` over an in-memory buffer: `Encoder::new`, `set_color`
/// with RGB, `set_depth` with eight bits, `write_header`, then
/// `Writer::write_image_data` and `Writer::finish`.
///
/// The encoder fails for a width or a height of zero, which `write_header`
/// refuses, and for nothing else here: RGB goes with eight bits, the
/// number of bytes is the one `write_image_data` asks for, no chunk is
/// longer than a chunk may be, and writing to a buffer in memory cannot
/// fail. It is a function of the bytes and the size alone, so the stream
/// that comes back is the one that `png_stream` names.
///
/// The length is demanded because the encoder multiplies the row length by
/// the height before it compares the product with the number of bytes.
#[verifier::external_body]
fn encode_rgb8(pixels: &[u8], width: u32, height: u32) -> (r: Result<Vec<u8>, png::EncodingError>)
    requires
        pixels@.len() == 3 * width * height,
    ensures
        r is Ok <==> (width > 0 && height > 0),
        r matches Ok(stream) ==> stream@ == png_stream(pixels@, width, height),
{
    let mut stream = Vec::new();
    let mut encoder = png::Encoder::new(&mut stream, width, height);
    encoder.set_color(png::ColorType::Rgb);
    encoder.set_depth(png::BitDepth::Eight);
    let mut writer = encoder.write_header()?;
    writer.write_image_data(pixels)?;
    writer.finish()?;
    Ok(stream)
}

/// What is handed on of the encoder's answer: its stream as it is, or that
/// it failed.
pub fn finish_image(answer: Result<Vec<u8>, png::EncodingError>) -> (r: Result<
    Vec<u8>,
    ImageError,
>)
    ensures
        answer matches Ok(stream) ==> r == Ok::<Vec<u8>, ImageError>(stream),
        answer is Err ==> r == Err::<Vec<u8>, ImageError>(ImageError::Encoding),
{
    match answer {
        Ok(stream) => Ok(stream),
        Err(_) => Err(ImageError::Encoding),
    }
}

/// The PNG stream of a picture of `width` by `height` pixels whose bytes are
/// `pixels`: three a pixel, red, green and blue, rows from the top.
///
/// Bytes that are not three for each pixel are refused with
/// `ImageError::Size` before the encoder is asked. A picture of the right
/// size gets its stream, unless it has no pixels at all: that one the
/// encoder refuses, which gives `ImageError::Encoding`.
pub fn encode_image(pixels: &[u8], width: u16, height: u16) -> (r: Result<Vec<u8>, ImageError>)
    ensures
        pixels@.len() != 3 * width * height ==> r == Err::<Vec<u8>, ImageError>(ImageError::Size),
        pixels@.len() == 3 * width * height ==> (r is Ok <==> width > 0 && height > 0),
        r matches Ok(stream) ==> stream@ == png_stream(pixels@, width as u32, height as u32),
        pixels@.len() == 3 * width * height && (width == 0 || height == 0) ==> r == Err::<
            Vec<u8>,
            ImageError,
        >(ImageError::Encoding),
{
    let columns: u64 = width as u64;
    let rows: u64 = height as u64;
    assert(3 * columns * rows <= 3 * 0xffff * 0xffff) by (nonlinear_arith)
        requires
            columns <= 0xffff,
            rows <= 0xffff,
    ;
    let wanted: u64 = 3 * columns * rows;
    if pixels.len() as u64 != wanted {
        return Err(ImageError::Size);
    }
    finish_image(encode_rgb8(pixels, width as u32, height as u32))
}

} // verus!
