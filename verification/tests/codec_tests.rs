use image_analysis::buffer::{GrayImage, ImageBuffer, Pixel};
use image_analysis::codec::{
    decode, decode_payload, encode, encode_gray, encode_gray_payload, encode_payload,
    image_from_decoded, payload_bytes, payload_text,
};
use image_analysis::error::Error;

fn px(r: u8, g: u8, b: u8) -> Pixel {
    Pixel { r, g, b }
}

fn sample() -> ImageBuffer {
    let mut pixels = Vec::new();
    for i in 0..35u32 {
        pixels.push(px((i * 41 % 256) as u8, (i * 97 % 256) as u8, (i * 7) as u8));
    }
    ImageBuffer::new(7, 5, pixels).unwrap()
}

#[test]
fn decode_of_encode_is_the_identity() {
    let img = sample();
    assert_eq!(decode(&encode(&img).unwrap()).unwrap(), img);
}

#[test]
fn decode_of_encode_on_a_single_pixel() {
    let img = ImageBuffer::new(1, 1, vec![px(1, 2, 3)]).unwrap();
    assert_eq!(decode(&encode(&img).unwrap()).unwrap(), img);
}

#[test]
fn payload_round_trip() {
    let img = sample();
    assert_eq!(decode_payload(&encode_payload(&img).unwrap()).unwrap(), img);
}

#[test]
fn encode_writes_a_png_file() {
    let file = encode(&sample()).unwrap();
    assert_eq!(&file[..8], &[0x89, b'P', b'N', b'G', 0x0D, 0x0A, 0x1A, 0x0A]);
}

#[test]
fn empty_image_cannot_be_encoded() {
    let img = ImageBuffer::new(0, 0, Vec::new()).unwrap();
    assert_eq!(encode(&img), Err(Error::Encode));
    assert_eq!(encode_payload(&img), Err(Error::Encode));
}

#[test]
fn gray_png_decodes_to_equal_channels() {
    let gray = GrayImage::new(2, 2, vec![0, 100, 200, 255]).unwrap();
    let img = decode(&encode_gray(&gray).unwrap()).unwrap();
    assert_eq!(img, gray.to_rgb());
    let sent = decode_payload(&encode_gray_payload(&gray).unwrap()).unwrap();
    assert_eq!(sent, gray.to_rgb());
}

#[test]
fn malformed_bytes_are_a_decode_error() {
    assert_eq!(decode(&[]), Err(Error::Decode));
    assert_eq!(decode(b"not an image at all"), Err(Error::Decode));
}

#[test]
fn truncated_file_is_a_decode_error() {
    let file = encode(&sample()).unwrap();
    assert_eq!(decode(&file[..file.len() / 2]), Err(Error::Decode));
    assert_eq!(decode(&file[..20]), Err(Error::Decode));
}

#[test]
fn image_from_decoded_checks_the_byte_count() {
    assert_eq!(image_from_decoded(None), Err(Error::Decode));
    assert_eq!(image_from_decoded(Some((2, 1, vec![0; 5]))), Err(Error::Decode));
    let img = image_from_decoded(Some((2, 1, vec![1, 2, 3, 4, 5, 6]))).unwrap();
    assert_eq!(img.pixels(), &vec![px(1, 2, 3), px(4, 5, 6)]);
}

#[test]
fn decode_reads_other_formats_and_drops_alpha() {
    let mut rgba = image::RgbaImage::new(2, 1);
    rgba.put_pixel(0, 0, image::Rgba([10, 20, 30, 40]));
    rgba.put_pixel(1, 0, image::Rgba([50, 60, 70, 255]));
    let mut file = std::io::Cursor::new(Vec::new());
    image::DynamicImage::ImageRgba8(rgba)
        .write_to(&mut file, image::ImageOutputFormat::Bmp)
        .unwrap();
    let img = decode(file.get_ref()).unwrap();
    assert_eq!(img.width(), 2);
    assert_eq!(img.height(), 1);
    assert_eq!(img.pixels(), &vec![px(10, 20, 30), px(50, 60, 70)]);
}

#[test]
fn transport_text_known_values() {
    assert_eq!(payload_text(&b"hello".to_vec()).unwrap(), "aGVsbG8=");
    assert_eq!(payload_text(&Vec::new()).unwrap(), "");
    assert_eq!(payload_bytes("aGVsbG8=").unwrap(), b"hello".to_vec());
    assert_eq!(payload_bytes("").unwrap(), Vec::<u8>::new());
}

#[test]
fn invalid_transport_text_is_a_decode_error() {
    assert_eq!(payload_bytes("***"), Err(Error::Decode));
    assert_eq!(payload_bytes("aGVsbG8"), Err(Error::Decode));
    assert_eq!(decode_payload("***"), Err(Error::Decode));
}

#[test]
fn valid_text_that_carries_no_image_is_a_decode_error() {
    assert_eq!(decode_payload("aGVsbG8="), Err(Error::Decode));
}
