//! The calls into the image codec, the text encoder and the byte buffer.
//!
//! Nothing in this file is proved. Each function here calls into another
//! crate, and its contract is what the rest of the library takes on trust
//! about that call. What a call returns is too long to write down, so each
//! result has a name, and the contracts say no more than that the same input
//! gives the same, named, result.

use base64::Engine;
use image::GenericImageView;
use vstd::prelude::*;

verus! {

/// The error type of the `image` crate, carried through unread.
#[verifier::external_type_specification]
#[verifier::external_body]
pub struct ExImageError(image::ImageError);

/// The shared byte buffer of the `bytes` crate.
#[verifier::external_type_specification]
#[verifier::external_body]
pub struct ExBytes(bytes::Bytes);

/// The bytes that a buffer of the `bytes` crate holds, in order.
pub uninterp spec fn bytes_contents(buffer: bytes::Bytes) -> Seq<u8>;

/// What the `image` crate makes of an encoded picture: the width, the
/// height and the samples of the decoded picture, four to a pixel, or
/// nothing where the bytes are no picture that the codec can read.
pub uninterp spec fn decoded_image(bytes: Seq<u8>) -> Option<(u32, u32, Seq<u8>)>;

/// The PNG file that the `image` crate writes for a picture of `width` by
/// `height` pixels with the given samples, four to a pixel, or nothing where
/// it refuses to write one.
pub uninterp spec fn png_encoding(width: u32, height: u32, samples: Seq<u8>) -> Option<Seq<u8>>;

/// The text that the standard engine of the `base64` crate writes for
/// `bytes`: base64 in the standard alphabet, with padding.
pub uninterp spec fn base64_text(bytes: Seq<u8>) -> Seq<char>;

/// The bytes of a buffer, by `Bytes::as_ref`. The contract gives them the
/// name [`bytes_contents`].
#[verifier::external_body]
pub(crate) fn bytes_as_slice(buffer: &bytes::Bytes) -> (s: &[u8])
    ensures
        s@ == bytes_contents(*buffer),
{
    buffer.as_ref()
}

/// Decodes a picture and hands it out as plain values: its size, by
/// `dimensions`, and its pixels, read one by one as `view` and `to_image`
/// read them, which gives red, green, blue and alpha of a byte each whatever
/// the picture was stored as.
///
/// The format is guessed from the first bytes by `image::guess_format` and
/// the picture is decoded by `image::load_from_memory_with_format`. That is
/// what `image::load_from_memory` does in a process that has registered no
/// decoding hooks of its own; unlike it, these two never look at such hooks,
/// so the outcome is a matter of the bytes alone.
///
/// The contract claims just that, and names the outcome [`decoded_image`].
/// It claims nothing of the size or of the number of samples. The decoder
/// works within its default limits, which hold a decoded picture to 512 MiB,
/// so what is handed out is at most four times that.
#[verifier::external_body]
pub(crate) fn decode_image(bytes: &[u8]) -> (r: Result<(u32, u32, Vec<u8>), image::ImageError>)
    ensures
        match r {
            Ok(picture) => decoded_image(bytes@) == Some((picture.0, picture.1, picture.2@)),
            Err(_) => decoded_image(bytes@) is None,
        },
{
    let format = image::guess_format(bytes)?;
    let picture = image::load_from_memory_with_format(bytes, format)?;
    let (width, height) = picture.dimensions();
    Ok((width, height, picture.view(0, 0, width, height).to_image().into_raw()))
}

/// Writes a picture as a PNG file into memory with
/// `image::write_buffer_with_format`, the call that `ImageBuffer::write_to`
/// makes, with four samples of a byte each to a pixel.
///
/// The encoder panics unless there are exactly `width * height * 4` samples,
/// so the contract asks for that. It claims that the outcome depends on the
/// size and the samples alone, and names it [`png_encoding`].
#[verifier::external_body]
pub(crate) fn encode_png(width: u32, height: u32, samples: &[u8]) -> (r: Result<
    Vec<u8>,
    image::ImageError,
>)
    requires
        samples@.len() == width * height * 4,
    ensures
        match r {
            Ok(file) => png_encoding(width, height, samples@) == Some(file@),
            Err(_) => png_encoding(width, height, samples@) is None,
        },
{
    let mut file = std::io::Cursor::new(Vec::new());
    image::write_buffer_with_format(
        &mut file,
        samples,
        width,
        height,
        image::ExtendedColorType::Rgba8,
        image::ImageFormat::Png,
    )?;
    Ok(file.into_inner())
}

/// Whether the base64 text of `len` bytes has a length that a `usize` holds:
/// four characters for every three bytes, and four more for what is left.
pub open spec fn text_fits(len: nat) -> bool {
    (len / 3) * 4 + 4 <= usize::MAX
}

/// Encodes bytes as text with `base64::engine::general_purpose::STANDARD`.
///
/// The engine panics where the length of the text overflows a `usize`, so
/// the contract asks for a length that fits. It claims that the text depends
/// on the bytes alone, and names it [`base64_text`].
#[verifier::external_body]
pub(crate) fn encode_base64(bytes: &[u8]) -> (text: String)
    requires
        text_fits(bytes@.len()),
    ensures
        text@ == base64_text(bytes@),
{
    base64::engine::general_purpose::STANDARD.encode(bytes)
}

} // verus!
