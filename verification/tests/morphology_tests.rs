use image_analysis::buffer::GrayImage;
use image_analysis::morphology::{dilate, erode};

fn gray(width: u32, height: u32, pixels: Vec<u8>) -> GrayImage {
    GrayImage::new(width, height, pixels).unwrap()
}

#[test]
fn dilate_grows_a_point_into_a_diamond() {
    let img = gray(5, 5, vec![
        0, 0,   0, 0, 0,
        0, 0,   0, 0, 0,
        0, 0, 255, 0, 0,
        0, 0,   0, 0, 0,
        0, 0,   0, 0, 0,
    ]);
    let expected = vec![
        0,   0,   0,   0, 0,
        0,   0, 255,   0, 0,
        0, 255, 255, 255, 0,
        0,   0, 255,   0, 0,
        0,   0,   0,   0, 0,
    ];
    let out = dilate(&img, 1).unwrap();
    assert_eq!(out.width(), 5);
    assert_eq!(out.height(), 5);
    assert_eq!(out.pixels(), &expected);
}

#[test]
fn erode_removes_the_rim_and_the_neighbours_of_a_hole() {
    let img = gray(9, 9, vec![
        0,   0,   0,   0,   0,   0,   0,   0, 0,
        0, 255, 255, 255, 255, 255, 255, 255, 0,
        0, 255, 255, 255, 255, 255, 255, 255, 0,
        0, 255, 255, 255, 255, 255, 255, 255, 0,
        0, 255, 255, 255,   0, 255, 255, 255, 0,
        0, 255, 255, 255, 255, 255, 255, 255, 0,
        0, 255, 255, 255, 255, 255, 255, 255, 0,
        0, 255, 255, 255, 255, 255, 255, 255, 0,
        0,   0,   0,   0,   0,   0,   0,   0, 0,
    ]);
    let expected = vec![
        0, 0,   0,   0,   0,   0,   0, 0, 0,
        0, 0,   0,   0,   0,   0,   0, 0, 0,
        0, 0, 255, 255, 255, 255, 255, 0, 0,
        0, 0, 255, 255,   0, 255, 255, 0, 0,
        0, 0, 255,   0,   0,   0, 255, 0, 0,
        0, 0, 255, 255,   0, 255, 255, 0, 0,
        0, 0, 255, 255, 255, 255, 255, 0, 0,
        0, 0,   0,   0,   0,   0,   0, 0, 0,
        0, 0,   0,   0,   0,   0,   0, 0, 0,
    ];
    assert_eq!(erode(&img, 1).unwrap().pixels(), &expected);
}

#[test]
fn radius_zero_makes_the_image_binary() {
    let img = gray(3, 1, vec![0, 7, 255]);
    assert_eq!(erode(&img, 0).unwrap().pixels(), &vec![0, 255, 255]);
    assert_eq!(dilate(&img, 0).unwrap().pixels(), &vec![0, 255, 255]);
}

#[test]
fn image_borders_are_not_background() {
    let img = gray(3, 3, vec![255; 9]);
    assert_eq!(erode(&img, 1).unwrap().pixels(), &vec![255; 9]);
    assert_eq!(erode(&img, 5).unwrap().pixels(), &vec![255; 9]);
}

#[test]
fn radius_at_saturation_erodes_everything() {
    let img = gray(3, 3, vec![255; 9]);
    assert_eq!(erode(&img, 6).unwrap().pixels(), &vec![0; 9]);
    assert_eq!(erode(&img, 255).unwrap().pixels(), &vec![0; 9]);
}

#[test]
fn radius_at_saturation_dilates_everything() {
    let img = gray(3, 3, vec![0; 9]);
    assert_eq!(dilate(&img, 5).unwrap().pixels(), &vec![0; 9]);
    assert_eq!(dilate(&img, 6).unwrap().pixels(), &vec![255; 9]);
}

#[test]
fn nonzero_intensities_count_as_foreground() {
    let img = gray(3, 1, vec![1, 0, 0]);
    assert_eq!(dilate(&img, 1).unwrap().pixels(), &vec![255, 255, 0]);
    assert_eq!(erode(&img, 1).unwrap().pixels(), &vec![0, 0, 0]);
}

#[test]
fn opening_never_grows_the_foreground() {
    let mut pixels = Vec::new();
    for i in 0..144u32 {
        pixels.push(if (i * 7 + i / 12 * 5) % 11 < 8 { 255 } else { 0 });
    }
    let img = gray(12, 12, pixels);
    for k in 0..6u8 {
        let opened = dilate(&erode(&img, k).unwrap(), k).unwrap();
        for (after, before) in opened.pixels().iter().zip(img.pixels().iter()) {
            assert!(*after == 0 || *before != 0);
        }
    }
}

#[test]
fn opening_removes_an_isolated_point_and_keeps_a_block() {
    let img = gray(6, 5, vec![
        255, 255, 255, 0,   0, 0,
        255, 255, 255, 0,   0, 0,
        255, 255, 255, 0, 255, 0,
          0,   0,   0, 0,   0, 0,
          0,   0,   0, 0,   0, 0,
    ]);
    let thin = vec![
        255, 255, 0, 0, 0, 0,
        255, 255, 0, 0, 0, 0,
          0,   0, 0, 0, 0, 0,
          0,   0, 0, 0, 0, 0,
          0,   0, 0, 0, 0, 0,
    ];
    assert_eq!(erode(&img, 1).unwrap().pixels(), &thin);
    let expected = vec![
        255, 255, 255, 0, 0, 0,
        255, 255, 255, 0, 0, 0,
        255, 255,   0, 0, 0, 0,
          0,   0,   0, 0, 0, 0,
          0,   0,   0, 0, 0, 0,
    ];
    let opened = dilate(&erode(&img, 1).unwrap(), 1).unwrap();
    assert_eq!(opened.pixels(), &expected);
}

#[test]
fn empty_image_stays_empty() {
    let img = gray(0, 0, Vec::new());
    assert_eq!(erode(&img, 3).unwrap().pixels().len(), 0);
    assert_eq!(dilate(&img, 3).unwrap().pixels().len(), 0);
}

fn near(img: &GrayImage, x: i64, y: i64, k: i64, foreground: bool) -> bool {
    let (w, h) = (img.width() as i64, img.height() as i64);
    for qy in 0..h {
        for qx in 0..w {
            let v = img.pixels()[(qy * w + qx) as usize];
            if (x - qx).abs() + (y - qy).abs() <= k && (v != 0) == foreground {
                return true;
            }
        }
    }
    false
}

fn by_definition(img: &GrayImage, k: u8, dilating: bool) -> Vec<u8> {
    let (w, h) = (img.width() as i64, img.height() as i64);
    let saturated = (k as i64) >= (w + h).min(255);
    let mut out = Vec::new();
    for y in 0..h {
        for x in 0..w {
            let hit = near(img, x, y, k as i64, dilating) || saturated;
            out.push(if hit == dilating { 255 } else { 0 });
        }
    }
    out
}

fn patterned(width: u32, height: u32, salt: u32) -> GrayImage {
    let mut pixels = Vec::new();
    let mut state = salt.wrapping_mul(2654435761).wrapping_add(12345);
    for _ in 0..width * height {
        state = state.wrapping_mul(1664525).wrapping_add(1013904223);
        pixels.push(if (state >> 24) % 5 < (salt % 5) { (state >> 16) as u8 } else { 0 });
    }
    GrayImage::new(width, height, pixels).unwrap()
}

#[test]
fn erosion_matches_its_definition_on_many_images() {
    for salt in 0..40u32 {
        let img = patterned(1 + salt % 9, 1 + (salt / 3) % 7, salt);
        for k in [0u8, 1, 2, 3, 4, 7, 14, 15, 16, 17, 254, 255] {
            assert_eq!(erode(&img, k).unwrap().pixels(), &by_definition(&img, k, false));
        }
    }
}

#[test]
fn dilation_matches_its_definition_on_many_images() {
    for salt in 0..40u32 {
        let img = patterned(1 + salt % 9, 1 + (salt / 3) % 7, salt);
        for k in [0u8, 1, 2, 3, 4, 7, 14, 15, 16, 17, 254, 255] {
            assert_eq!(dilate(&img, k).unwrap().pixels(), &by_definition(&img, k, true));
        }
    }
}

#[test]
fn distances_saturate_at_255_on_long_images() {
    let mut pixels = vec![255u8; 300];
    pixels[0] = 0;
    let img = gray(300, 1, pixels);
    let thin = erode(&img, 254).unwrap();
    assert_eq!(thin.pixels()[254], 0);
    assert_eq!(thin.pixels()[255], 255);
    assert_eq!(erode(&img, 255).unwrap().pixels(), &vec![0u8; 300]);
    let mut dark = vec![0u8; 300];
    dark[0] = 9;
    let img = gray(300, 1, dark);
    let thick = dilate(&img, 254).unwrap();
    assert_eq!(thick.pixels()[254], 255);
    assert_eq!(thick.pixels()[255], 0);
    assert_eq!(dilate(&img, 255).unwrap().pixels(), &vec![255u8; 300]);
}

#[test]
fn opening_below_saturation_never_grows_many_images() {
    for salt in 0..40u32 {
        let img = patterned(2 + salt % 9, 2 + (salt / 3) % 7, salt);
        let limit = (img.width() + img.height()).min(255) as u8;
        for k in 0..limit {
            let opened = dilate(&erode(&img, k).unwrap(), k).unwrap();
            for (after, before) in opened.pixels().iter().zip(img.pixels().iter()) {
                assert!(*after == 0 || *before != 0);
            }
        }
    }
}

#[test]
fn opening_at_saturation_turns_everything_white() {
    let img = gray(1, 1, vec![0]);
    let opened = dilate(&erode(&img, 2).unwrap(), 2).unwrap();
    assert_eq!(opened.pixels(), &vec![255]);
}
