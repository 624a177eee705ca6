//! The pixel buffer adapter: from an encoded image to a pixel grid and back,
//! and the transport text that carries encoded images.
//!
//! Images are read in any format the `image` crate recognises and written as
//! PNG; transport text is standard base64. What the codecs compute is named,
//! not restated: the contracts below say which calls are made, on which
//! values, and what becomes of every outcome.

use image::ImageEncoder;
use vstd::prelude::*;
use crate::buffer::{deinterleaved, interleaved, GrayImage, GrayView, ImageBuffer, ImageView};
use crate::error::Error;

verus! {

/// The bytes that standard base64 text stands for, or `None` where the text
/// is not valid base64: the result of `base64::decode`.
pub uninterp spec fn transport_bytes(text: Seq<char>) -> Option<Seq<u8>>;

/// The standard base64 text of a sequence of bytes: the result of
/// `base64::encode`.
pub uninterp spec fn transport_text(bytes: Seq<u8>) -> Seq<char>;

/// The width, height and interleaved RGB bytes of the image that a sequence
/// of bytes encodes, or `None` where the codec reads no image from it: the
/// result of `image::load_from_memory` followed by
/// `image::DynamicImage::into_rgb8`.
pub uninterp spec fn decoded_image(bytes: Seq<u8>) -> Option<(nat, nat, Seq<u8>)>;

/// The PNG file that holds the given image, `data` being one byte per pixel
/// where `gray` is set and three otherwise, or `None` where the encoder
/// refuses the image: the result of `image::codecs::png::PngEncoder` writing
/// into an empty vector.
pub uninterp spec fn png_encoded(width: nat, height: nat, gray: bool, data: Seq<u8>) -> Option<
    Seq<u8>,
>;

/// Calls `base64::decode`, which decodes with the standard alphabet and
/// padding. Assumed of it: which bytes come back, or that none do, depends on
/// the text alone.
#[allow(deprecated)]
#[verifier::external_body]
fn base64_decode(text: &str) -> (out: Option<Vec<u8>>)
    ensures
        match out {
            Some(bytes) => transport_bytes(text@) == Some(bytes@),
            None => transport_bytes(text@).is_none(),
        },
{
    match base64::decode(text) {
        Ok(bytes) => Some(bytes),
        Err(_) => None,
    }
}

/// Calls `base64::encode`, which encodes with the standard alphabet and
/// padding. Assumed of it: the text depends on the bytes alone. The encoded
/// length, four characters for every three bytes begun, must be allocatable;
/// the crate panics where it overflows.
#[allow(deprecated)]
#[verifier::external_body]
fn base64_encode(bytes: &Vec<u8>) -> (text: String)
    requires
        (bytes@.len() + 2) / 3 * 4 <= usize::MAX / 2,
    ensures
        text@ == transport_text(bytes@),
{
    base64::encode(bytes)
}

/// Calls `image::load_from_memory`, which guesses the format and decodes, and
/// converts the image with `into_rgb8`. Assumed of it: the dimensions and
/// bytes, or that the bytes are no image, depend on the input alone.
#[verifier::external_body]
fn load_rgb(bytes: &[u8]) -> (out: Option<(u32, u32, Vec<u8>)>)
    ensures
        match out {
            Some((width, height, data)) => decoded_image(bytes@) == Some(
                (width as nat, height as nat, data@),
            ),
            None => decoded_image(bytes@).is_none(),
        },
{
    match image::load_from_memory(bytes) {
        Ok(img) => {
            let rgb = img.into_rgb8();
            Some((rgb.width(), rgb.height(), rgb.into_raw()))
        },
        Err(_) => None,
    }
}

/// Calls `image::codecs::png::PngEncoder::write_image` on a new vector, with
/// colour type `L8` where `gray` is set and `Rgb8` otherwise. Assumed of it:
/// the file written, or the refusal, depends on the arguments alone. The
/// encoder panics unless `data` holds exactly one byte per channel and pixel.
#[verifier::external_body]
fn write_png(width: u32, height: u32, gray: bool, data: &Vec<u8>) -> (out: Option<Vec<u8>>)
    requires
        data@.len() == (if gray {
            1int
        } else {
            3int
        }) * (width * height),
    ensures
        match out {
            Some(file) => png_encoded(width as nat, height as nat, gray, data@) == Some(file@),
            None => png_encoded(width as nat, height as nat, gray, data@).is_none(),
        },
{
    let color = if gray { image::ColorType::L8 } else { image::ColorType::Rgb8 };
    let mut file: Vec<u8> = Vec::new();
    match image::codecs::png::PngEncoder::new(&mut file).write_image(data, width, height, color) {
        Ok(()) => Some(file),
        Err(_) => None,
    }
}

/// The image that the codec's output describes: none where the codec read
/// none or where the bytes are not three per pixel.
pub open spec fn image_of(decoded: Option<(nat, nat, Seq<u8>)>) -> Option<ImageView> {
    match decoded {
        Some((width, height, data)) => if data.len() == 3 * (width * height) {
            Some(ImageView { width, height, pixels: deinterleaved(data) })
        } else {
            None
        },
        None => None,
    }
}

/// Builds the pixel grid from what the codec returned. Fails with `Decode`
/// where the codec returned nothing or its bytes are not three per pixel.
pub fn image_from_decoded(decoded: Option<(u32, u32, Vec<u8>)>) -> (out: Result<
    ImageBuffer,
    Error,
>)
    ensures
        match out {
            Ok(img) => decoded matches Some((width, height, data)) && image_of(
                Some((width as nat, height as nat, data@)),
            ) == Some(img@),
            Err(e) => e == Error::Decode && match decoded {
                Some((width, height, data)) => image_of(
                    Some((width as nat, height as nat, data@)),
                ).is_none(),
                None => true,
            },
        },
{
    match decoded {
        Some((width, height, data)) => match ImageBuffer::from_raw(width, height, &data) {
            Ok(img) => Ok(img),
            Err(_) => Err(Error::Decode),
        },
        None => Err(Error::Decode),
    }
}

/// Decodes an encoded image into a pixel grid of red, green and blue.
/// Fails with `Decode` exactly where the codec reads no image from `bytes`.
pub fn decode(bytes: &[u8]) -> (out: Result<ImageBuffer, Error>)
    ensures
        match out {
            Ok(img) => image_of(decoded_image(bytes@)) == Some(img@),
            Err(e) => e == Error::Decode && image_of(decoded_image(bytes@)).is_none(),
        },
{
    image_from_decoded(load_rgb(bytes))
}

/// The PNG file of an RGB image, if the encoder writes one.
pub open spec fn encoded_image(img: ImageView) -> Option<Seq<u8>> {
    png_encoded(img.width, img.height, false, interleaved(img.pixels))
}

/// The PNG file of a single-channel image, if the encoder writes one.
pub open spec fn encoded_gray(img: GrayView) -> Option<Seq<u8>> {
    png_encoded(img.width, img.height, true, img.pixels)
}

/// Encodes an image as a PNG file. Fails with `Encode` exactly where the
/// encoder refuses the image.
pub fn encode(img: &ImageBuffer) -> (out: Result<Vec<u8>, Error>)
    ensures
        match out {
            Ok(file) => encoded_image(img@) == Some(file@),
            Err(e) => e == Error::Encode && encoded_image(img@).is_none(),
        },
{
    let data = img.to_raw();
    match write_png(img.width(), img.height(), false, &data) {
        Some(file) => Ok(file),
        None => Err(Error::Encode),
    }
}

/// Encodes a single-channel image as a grayscale PNG file. Fails with
/// `Encode` exactly where the encoder refuses the image.
pub fn encode_gray(img: &GrayImage) -> (out: Result<Vec<u8>, Error>)
    ensures
        match out {
            Ok(file) => encoded_gray(img@) == Some(file@),
            Err(e) => e == Error::Encode && encoded_gray(img@).is_none(),
        },
{
    match write_png(img.width(), img.height(), true, img.pixels()) {
        Some(file) => Ok(file),
        None => Err(Error::Encode),
    }
}

/// Whether a file of `len` bytes can be turned into transport text: the text,
/// four characters for every three bytes begun, must be allocatable.
pub open spec fn fits_transport(len: nat) -> bool {
    len / 3 <= usize::MAX / 8 - 1
}

/// Turns transport text into the bytes it stands for. Fails with `Decode`
/// exactly where the text is not valid.
pub fn payload_bytes(text: &str) -> (out: Result<Vec<u8>, Error>)
    ensures
        match out {
            Ok(bytes) => transport_bytes(text@) == Some(bytes@),
            Err(e) => e == Error::Decode && transport_bytes(text@).is_none(),
        },
{
    match base64_decode(text) {
        Some(bytes) => Ok(bytes),
        None => Err(Error::Decode),
    }
}

/// Turns bytes into transport text. Fails with `Encode` exactly where the
/// text would be too long to allocate.
pub fn payload_text(bytes: &Vec<u8>) -> (out: Result<String, Error>)
    ensures
        match out {
            Ok(text) => fits_transport(bytes@.len()) && text@ == transport_text(bytes@),
            Err(e) => e == Error::Encode && !fits_transport(bytes@.len()),
        },
{
    if bytes.len() / 3 <= usize::MAX / 8 - 1 {
        Ok(base64_encode(bytes))
    } else {
        Err(Error::Encode)
    }
}

/// The image that a payload carries, if its text is valid and the codec reads
/// an image from its bytes.
pub open spec fn payload_image(text: Seq<char>) -> Option<ImageView> {
    match transport_bytes(text) {
        Some(bytes) => image_of(decoded_image(bytes)),
        None => None,
    }
}

/// The payload that carries a given file, if it fits.
pub open spec fn file_payload(file: Option<Seq<u8>>) -> Option<Seq<char>> {
    match file {
        Some(bytes) => if fits_transport(bytes.len()) {
            Some(transport_text(bytes))
        } else {
            None
        },
        None => None,
    }
}

/// What an operation returns that ends by sending `payload`: the text, or
/// `Encode` where there is none.
pub open spec fn sends(out: Result<String, Error>, payload: Option<Seq<char>>) -> bool {
    match payload {
        Some(text) => out matches Ok(sent) && sent@ == text,
        None => out == Err::<String, Error>(Error::Encode),
    }
}

/// Reads the image that a payload carries. Fails with `Decode` exactly where
/// the payload carries none.
pub fn decode_payload(text: &str) -> (out: Result<ImageBuffer, Error>)
    ensures
        match out {
            Ok(img) => payload_image(text@) == Some(img@),
            Err(e) => e == Error::Decode && payload_image(text@).is_none(),
        },
{
    match payload_bytes(text) {
        Ok(bytes) => decode(bytes.as_slice()),
        Err(e) => Err(e),
    }
}

/// Writes an image as a payload: its PNG file as transport text.
pub fn encode_payload(img: &ImageBuffer) -> (out: Result<String, Error>)
    ensures
        sends(out, file_payload(encoded_image(img@))),
{
    match encode(img) {
        Ok(file) => payload_text(&file),
        Err(e) => Err(e),
    }
}

/// Writes a single-channel image as a payload: its grayscale PNG file as
/// transport text.
pub fn encode_gray_payload(img: &GrayImage) -> (out: Result<String, Error>)
    ensures
        sends(out, file_payload(encoded_gray(img@))),
{
    match encode_gray(img) {
        Ok(file) => payload_text(&file),
        Err(e) => Err(e),
    }
}

} // verus!
