use image_analysis::buffer::{ImageBuffer, Pixel};
use image_analysis::error::Error;
use image_analysis::filters::{
    alter_red_channel, apply_tone_curve, gaussian_blur, inc_brightness, ToneCurve,
};

fn px(r: u8, g: u8, b: u8) -> Pixel {
    Pixel { r, g, b }
}

fn row(pixels: Vec<Pixel>) -> ImageBuffer {
    ImageBuffer::new(pixels.len() as u32, 1, pixels).unwrap()
}

#[test]
fn red_channel_shifts_and_clamps() {
    let img = row(vec![px(0, 5, 6), px(100, 7, 8), px(250, 9, 10)]);
    let up = alter_red_channel(&img, 10).unwrap();
    assert_eq!(up.pixels(), &vec![px(10, 5, 6), px(110, 7, 8), px(255, 9, 10)]);
    let down = alter_red_channel(&img, -101).unwrap();
    assert_eq!(down.pixels(), &vec![px(0, 5, 6), px(0, 7, 8), px(149, 9, 10)]);
}

#[test]
fn red_channel_shift_at_the_ends_of_the_range() {
    let img = row(vec![px(0, 1, 2), px(255, 3, 4)]);
    assert_eq!(alter_red_channel(&img, 255).unwrap().pixels(), &vec![px(255, 1, 2), px(255, 3, 4)]);
    assert_eq!(
        alter_red_channel(&img, i16::MIN).unwrap().pixels(),
        &vec![px(0, 1, 2), px(0, 3, 4)]
    );
    assert_eq!(alter_red_channel(&img, 0).unwrap(), img);
}

#[test]
fn red_channel_shift_above_255_is_an_invalid_parameter() {
    let img = row(vec![px(0, 1, 2)]);
    assert_eq!(alter_red_channel(&img, 256), Err(Error::InvalidParameter));
    assert_eq!(alter_red_channel(&img, i16::MAX), Err(Error::InvalidParameter));
}

#[test]
fn brightness_rises_on_all_but_the_last_pixel() {
    let img = row(vec![px(0, 100, 250), px(10, 20, 30), px(1, 2, 3)]);
    let out = inc_brightness(&img, 10);
    assert_eq!(out.pixels(), &vec![px(10, 110, 255), px(20, 30, 40), px(1, 2, 3)]);
}

#[test]
fn brightness_zero_is_the_identity() {
    let img = row(vec![px(0, 100, 250), px(10, 20, 30), px(1, 2, 3)]);
    assert_eq!(inc_brightness(&img, 0), img);
}

#[test]
fn brightness_on_small_images() {
    let empty = ImageBuffer::new(0, 0, Vec::new()).unwrap();
    assert_eq!(inc_brightness(&empty, 50), empty);
    let one = row(vec![px(1, 2, 3)]);
    assert_eq!(inc_brightness(&one, 50), one);
}

#[test]
fn tone_curve_needs_256_entries() {
    assert_eq!(ToneCurve::new(vec![0; 255]), Err(Error::InvalidParameter));
    assert_eq!(ToneCurve::new(Vec::new()), Err(Error::InvalidParameter));
    assert!(ToneCurve::new(vec![0; 256]).is_ok());
}

#[test]
fn identity_curve_changes_nothing() {
    let curve = ToneCurve::identity();
    for v in 0..=255u8 {
        assert_eq!(curve.apply(v), v);
    }
    let img = row(vec![px(0, 100, 250), px(10, 20, 30)]);
    assert_eq!(apply_tone_curve(&img, &curve), img);
}

#[test]
fn tone_curve_maps_every_channel() {
    let table: Vec<u8> = (0..=255u8).map(|v| 255 - v).collect();
    let curve = ToneCurve::new(table).unwrap();
    let img = row(vec![px(0, 100, 250), px(10, 20, 30)]);
    assert_eq!(
        apply_tone_curve(&img, &curve).pixels(),
        &vec![px(255, 155, 5), px(245, 235, 225)]
    );
}

#[test]
fn neutral_restore_is_the_identity() {
    let img = row(vec![px(0, 100, 250), px(10, 20, 30), px(90, 80, 70)]);
    assert_eq!(apply_tone_curve(&inc_brightness(&img, 0), &ToneCurve::identity()), img);
}

fn spot() -> ImageBuffer {
    let mut pixels = vec![px(0, 0, 0); 49];
    pixels[24] = px(255, 255, 255);
    ImageBuffer::new(7, 7, pixels).unwrap()
}

#[test]
fn blur_spreads_a_bright_spot() {
    let img = spot();
    let out = gaussian_blur(&img, 1).unwrap();
    assert_eq!(out.width(), 7);
    assert_eq!(out.height(), 7);
    assert_ne!(out, img);
    let centre = out.get_pixel(3, 3).unwrap();
    assert!(centre.r < 255);
    assert!(out.get_pixel(3, 2).unwrap().r > 0);
}

#[test]
fn blur_agrees_with_the_filter_crate() {
    let img = spot();
    let mut theirs = photon_rs::PhotonImage::new(img.to_rgba(), 7, 7);
    photon_rs::conv::gaussian_blur(&mut theirs, 2);
    let expected = ImageBuffer::from_rgba(7, 7, &theirs.get_raw_pixels()).unwrap();
    assert_eq!(gaussian_blur(&img, 2).unwrap(), expected);
}

#[test]
fn blur_keeps_a_uniform_image() {
    let img = ImageBuffer::new(4, 4, vec![px(40, 80, 120); 16]).unwrap();
    assert_eq!(gaussian_blur(&img, 1).unwrap(), img);
}

#[test]
fn blur_rejects_what_it_is_not_defined_on() {
    assert_eq!(gaussian_blur(&spot(), -1), Err(Error::InvalidParameter));
    let thin = ImageBuffer::new(1, 4, vec![px(0, 0, 0); 4]).unwrap();
    assert_eq!(gaussian_blur(&thin, 1), Err(Error::InvalidParameter));
    let flat = ImageBuffer::new(4, 1, vec![px(0, 0, 0); 4]).unwrap();
    assert_eq!(gaussian_blur(&flat, 1), Err(Error::InvalidParameter));
    let empty = ImageBuffer::new(0, 0, Vec::new()).unwrap();
    assert_eq!(gaussian_blur(&empty, 1), Err(Error::InvalidParameter));
}

#[test]
fn blur_accepts_the_smallest_image_and_large_radii() {
    let pixels = vec![px(1, 2, 3), px(4, 5, 6), px(7, 8, 9), px(9, 9, 9)];
    let img = ImageBuffer::new(2, 2, pixels).unwrap();
    assert!(gaussian_blur(&img, 0).is_ok());
    assert!(gaussian_blur(&img, i32::MAX).is_ok());
    assert!(gaussian_blur(&spot(), 1000).is_ok());
}

#[test]
fn blur_is_defined_on_every_size_and_radius_it_accepts() {
    for width in 2..=17u32 {
        for height in 2..=13u32 {
            let mut pixels = Vec::new();
            for i in 0..width * height {
                pixels.push(px((i * 37 % 256) as u8, (i * 11 % 256) as u8, (i * 3 % 256) as u8));
            }
            let img = ImageBuffer::new(width, height, pixels).unwrap();
            for radius in [0, 1, 2, 3, 5, 8, 9, 100, 16384, i32::MAX] {
                let out = gaussian_blur(&img, radius).unwrap();
                assert_eq!(out.width(), width);
                assert_eq!(out.height(), height);
                let mut theirs = photon_rs::PhotonImage::new(img.to_rgba(), width, height);
                photon_rs::conv::gaussian_blur(&mut theirs, radius);
                let expected = ImageBuffer::from_rgba(width, height, &theirs.get_raw_pixels());
                assert_eq!(out, expected.unwrap());
            }
        }
    }
}

#[test]
fn brightness_matches_the_filter_crate() {
    let img = row(vec![px(0, 100, 250), px(10, 20, 30), px(255, 254, 253), px(1, 2, 3)]);
    for brightness in [0u8, 1, 2, 5, 100, 254, 255] {
        let mut theirs = photon_rs::PhotonImage::new(img.to_rgba(), 4, 1);
        photon_rs::effects::inc_brightness(&mut theirs, brightness);
        let expected = ImageBuffer::from_rgba(4, 1, &theirs.get_raw_pixels()).unwrap();
        assert_eq!(inc_brightness(&img, brightness), expected);
    }
}
