use image_analysis::buffer::Pixel;
use image_analysis::error::Error;
use image_analysis::kernel::{
    color_distance, pixel_feature, squared_distance, Feature, WeightTable, CHANNEL_SCALE,
};

#[test]
fn squared_distance_exact() {
    let p = Feature { r: 3, g: 0, b: 10 };
    let q = Feature { r: 0, g: 4, b: 10 };
    assert_eq!(squared_distance(&p, &q), 25);
    assert_eq!(squared_distance(&q, &p), 25);
    assert_eq!(squared_distance(&p, &p), 0);
}

#[test]
fn squared_distance_at_the_extremes() {
    let lo = Feature { r: 0, g: 0, b: 0 };
    let hi = Feature { r: u32::MAX, g: u32::MAX, b: u32::MAX };
    let side = u32::MAX as u128;
    assert_eq!(squared_distance(&lo, &hi), 3 * side * side);
}

#[test]
fn color_distance_exact() {
    let p = Pixel { r: 10, g: 20, b: 30 };
    let q = Pixel { r: 13, g: 16, b: 30 };
    assert_eq!(color_distance(p, q), 25);
    let black = Pixel { r: 0, g: 0, b: 0 };
    let white = Pixel { r: 255, g: 255, b: 255 };
    assert_eq!(color_distance(black, white), 195075);
}

#[test]
fn feature_scales_every_channel() {
    let f = pixel_feature(Pixel { r: 1, g: 128, b: 255 });
    assert_eq!(CHANNEL_SCALE, 1 << 24);
    assert_eq!(f, Feature { r: 1 << 24, g: 128 << 24, b: 255 << 24 });
}

#[test]
fn weight_table_needs_a_positive_first_entry() {
    assert_eq!(WeightTable::new(Vec::new()), Err(Error::InvalidParameter));
    assert_eq!(WeightTable::new(vec![0, 5]), Err(Error::InvalidParameter));
    assert!(WeightTable::new(vec![1]).is_ok());
}

#[test]
fn weight_past_the_table_is_zero() {
    let table = WeightTable::new(vec![9, 4, 1]).unwrap();
    assert_eq!(table.weight(0), 9);
    assert_eq!(table.weight(2), 1);
    assert_eq!(table.weight(3), 0);
    assert_eq!(table.weight(u32::MAX), 0);
}
