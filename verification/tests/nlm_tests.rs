use image_analysis::buffer::{ImageBuffer, Pixel};
use image_analysis::error::Error;
use image_analysis::kernel::WeightTable;
use image_analysis::nlm::non_local_means;

fn px(r: u8, g: u8, b: u8) -> Pixel {
    Pixel { r, g, b }
}

fn exponential_weights(h: f64) -> WeightTable {
    let mut weights = Vec::new();
    for d in 0..=195075u32 {
        weights.push(((-(d as f64) / h).exp() * 4294967295.0).round() as u32);
    }
    WeightTable::new(weights).unwrap()
}

fn sample() -> ImageBuffer {
    let mut pixels = Vec::new();
    for i in 0..12u32 {
        pixels.push(px((i * 40 % 256) as u8, (i * 90 % 256) as u8, (255 - i * 20) as u8));
    }
    ImageBuffer::new(4, 3, pixels).unwrap()
}

#[test]
fn zero_window_is_the_identity() {
    let img = sample();
    let out = non_local_means(&img, 0, &exponential_weights(10.0)).unwrap();
    assert_eq!(out, img);
    let out = non_local_means(&img, 0, &WeightTable::new(vec![1]).unwrap()).unwrap();
    assert_eq!(out, img);
}

#[test]
fn output_has_the_dimensions_of_the_input() {
    let img = sample();
    let weights = exponential_weights(500.0);
    for window in [0, 1, 2, 5, 1000, i32::MAX] {
        let out = non_local_means(&img, window, &weights).unwrap();
        assert_eq!(out.width(), 4);
        assert_eq!(out.height(), 3);
        assert_eq!(out.pixels().len(), 12);
    }
}

#[test]
fn all_black_image_is_a_fixed_point() {
    let img = ImageBuffer::new(2, 2, vec![px(0, 0, 0); 4]).unwrap();
    let out = non_local_means(&img, 1, &exponential_weights(1.0)).unwrap();
    assert_eq!(out, img);
}

#[test]
fn uniform_image_is_a_fixed_point() {
    let img = ImageBuffer::new(5, 4, vec![px(17, 203, 99); 20]).unwrap();
    let out = non_local_means(&img, 3, &exponential_weights(25.0)).unwrap();
    assert_eq!(out, img);
}

#[test]
fn negative_window_is_an_invalid_parameter() {
    let weights = WeightTable::new(vec![1]).unwrap();
    assert_eq!(non_local_means(&sample(), -1, &weights), Err(Error::InvalidParameter));
    assert_eq!(non_local_means(&sample(), i32::MIN, &weights), Err(Error::InvalidParameter));
}

#[test]
fn weighted_average_exact_values() {
    let mut weights = vec![0u32; 301];
    weights[0] = 3;
    weights[300] = 1;
    let table = WeightTable::new(weights).unwrap();
    let img = ImageBuffer::new(2, 1, vec![px(0, 0, 0), px(10, 10, 10)]).unwrap();
    let out = non_local_means(&img, 1, &table).unwrap();
    assert_eq!(out.pixels(), &vec![px(2, 2, 2), px(7, 7, 7)]);
}

#[test]
fn neighbours_outside_the_window_are_not_counted() {
    let table = WeightTable::new(vec![1; 195076]).unwrap();
    let img = ImageBuffer::new(3, 1, vec![px(0, 0, 0), px(30, 60, 90), px(240, 240, 240)]).unwrap();
    let out = non_local_means(&img, 1, &table).unwrap();
    assert_eq!(out.pixels(), &vec![px(15, 30, 45), px(90, 100, 110), px(135, 150, 165)]);
    let wide = non_local_means(&img, 2, &table).unwrap();
    assert_eq!(wide.pixels(), &vec![px(90, 100, 110); 3]);
}

#[test]
fn window_is_clipped_at_the_borders_in_both_directions() {
    let table = WeightTable::new(vec![1; 195076]).unwrap();
    let pixels = vec![px(0, 0, 0), px(10, 0, 0), px(20, 0, 0), px(30, 0, 0)];
    let img = ImageBuffer::new(2, 2, pixels).unwrap();
    let out = non_local_means(&img, 1, &table).unwrap();
    assert_eq!(out.pixels(), &vec![px(15, 0, 0); 4]);
}

#[test]
fn distant_colours_get_no_weight_with_a_short_table() {
    let table = WeightTable::new(vec![5, 5, 5]).unwrap();
    let img = ImageBuffer::new(2, 1, vec![px(0, 0, 0), px(200, 200, 200)]).unwrap();
    let out = non_local_means(&img, 1, &table).unwrap();
    assert_eq!(out, img);
}

#[test]
fn empty_image_denoises_to_itself() {
    let img = ImageBuffer::new(0, 0, Vec::new()).unwrap();
    let out = non_local_means(&img, 2, &WeightTable::new(vec![1]).unwrap()).unwrap();
    assert_eq!(out, img);
}

#[test]
fn strong_smoothing_pulls_a_noisy_pixel_toward_its_neighbours() {
    let mut pixels = vec![px(100, 100, 100); 9];
    pixels[4] = px(110, 110, 110);
    let img = ImageBuffer::new(3, 3, pixels).unwrap();
    let out = non_local_means(&img, 1, &exponential_weights(1.0e9)).unwrap();
    assert_eq!(out.get_pixel(1, 1), Some(px(101, 101, 101)));
    let sharp = non_local_means(&img, 1, &exponential_weights(1.0)).unwrap();
    assert_eq!(sharp.get_pixel(1, 1), Some(px(110, 110, 110)));
}
