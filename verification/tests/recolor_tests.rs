use image_analysis::buffer::{ImageBuffer, Pixel};
use image_analysis::error::Error;
use image_analysis::kernel::Feature;
use image_analysis::kmeans::kmeans_from_seeds;
use image_analysis::recolor::{centroid_pixel, image_features, recolor_image};

fn px(r: u8, g: u8, b: u8) -> Pixel {
    Pixel { r, g, b }
}

#[test]
fn features_follow_pixel_order() {
    let img = ImageBuffer::new(2, 1, vec![px(1, 2, 3), px(255, 0, 9)]).unwrap();
    let features = image_features(&img);
    assert_eq!(
        features,
        vec![
            Feature { r: 1 << 24, g: 2 << 24, b: 3 << 24 },
            Feature { r: 255 << 24, g: 0, b: 9 << 24 },
        ]
    );
}

#[test]
fn centroid_pixel_truncates_toward_zero() {
    let c = Feature { r: (7 << 24) + 0xFF_FFFF, g: (8 << 24) - 1, b: u32::MAX };
    assert_eq!(centroid_pixel(&c), px(7, 7, 255));
}

#[test]
fn recolor_paints_centroid_colours() {
    let img = ImageBuffer::new(2, 2, vec![px(0, 0, 0); 4]).unwrap();
    let centroids = vec![
        Feature { r: 10 << 24, g: 20 << 24, b: 30 << 24 },
        Feature { r: (200 << 24) + 5, g: 0, b: 1 },
    ];
    let out = recolor_image(&img, &vec![0, 1, 1, 0], &centroids).unwrap();
    assert_eq!(out.width(), 2);
    assert_eq!(out.height(), 2);
    assert_eq!(out.pixels(), &vec![px(10, 20, 30), px(200, 0, 0), px(200, 0, 0), px(10, 20, 30)]);
}

#[test]
fn recolor_rejects_assignments_that_do_not_fit() {
    let img = ImageBuffer::new(2, 1, vec![px(0, 0, 0); 2]).unwrap();
    let centroids = vec![Feature { r: 0, g: 0, b: 0 }];
    assert_eq!(recolor_image(&img, &vec![0], &centroids), Err(Error::InvalidParameter));
    assert_eq!(recolor_image(&img, &vec![0, 1], &centroids), Err(Error::InvalidParameter));
    assert_eq!(recolor_image(&img, &vec![0, 0], &Vec::new()), Err(Error::InvalidParameter));
}

#[test]
fn one_cluster_per_pixel_reproduces_the_image() {
    let pixels = vec![px(1, 2, 3), px(200, 100, 50), px(0, 0, 0), px(255, 255, 255)];
    let img = ImageBuffer::new(2, 2, pixels).unwrap();
    let features = image_features(&img);
    let run = kmeans_from_seeds(&features, &vec![0, 1, 2, 3], 10).unwrap();
    assert!(run.converged);
    let out = recolor_image(&img, &run.assignments, &run.centroids).unwrap();
    assert_eq!(out, img);
}

#[test]
fn one_cluster_per_distinct_colour_reproduces_the_image() {
    let pixels = vec![px(9, 9, 9), px(1, 2, 3), px(9, 9, 9), px(1, 2, 3), px(9, 9, 9), px(4, 4, 4)];
    let img = ImageBuffer::new(3, 2, pixels).unwrap();
    let features = image_features(&img);
    let run = kmeans_from_seeds(&features, &vec![5, 0, 1], 10).unwrap();
    let out = recolor_image(&img, &run.assignments, &run.centroids).unwrap();
    assert_eq!(out, img);
}

#[test]
fn two_colours_average_within_clusters() {
    let pixels = vec![px(10, 0, 0), px(13, 0, 0), px(200, 0, 0), px(201, 0, 0)];
    let img = ImageBuffer::new(4, 1, pixels).unwrap();
    let features = image_features(&img);
    let run = kmeans_from_seeds(&features, &vec![0, 2], 10).unwrap();
    let out = recolor_image(&img, &run.assignments, &run.centroids).unwrap();
    assert_eq!(out.pixels(), &vec![px(11, 0, 0), px(11, 0, 0), px(200, 0, 0), px(200, 0, 0)]);
}
