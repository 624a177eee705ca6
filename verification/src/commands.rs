//! The operations offered to a host application. Each takes an image as a
//! payload, transport text that carries an encoded image, and returns the
//! processed image as a payload or the error that stopped it. Nothing is
//! returned half done.

use vstd::prelude::*;
use crate::buffer::{grayscale_of, to_grayscale, ImageBuffer, ImageView};
use crate::codec::{
    decode_payload, encode_gray_payload, encode_payload, encoded_gray, encoded_image,
    file_payload, payload_image, sends,
};
use crate::error::Error;
use crate::filters::{
    alter_red_channel, apply_tone_curve, blur_defined, blurred, gaussian_blur, inc_brightness,
    red_altered, restored, ToneCurve,
};
use crate::kernel::WeightTable;
use crate::kmeans::{
    cluster_error, clustered, kmeans, kmeans_from_seeds, valid_assignments, valid_seeds,
    Clustering,
};
use crate::morphology::{dilate, dilated, erode, eroded, fits_transform};
use crate::nlm::{denoised, non_local_means};
use crate::recolor::{features_of, image_features, recolor_image, recolored};

verus! {

/// The number of update steps that clustering is allowed where the host
/// names no other cap.
pub const DEFAULT_MAX_ITERATIONS: usize = 1000;

/// What an operation returns that ends by sending `img` as a colour image.
pub open spec fn sends_image(out: Result<String, Error>, img: ImageView) -> bool {
    sends(out, file_payload(encoded_image(img)))
}

/// Shifts the red channel of the image by `amt`.
///
/// Fails with `Decode` where the payload carries no image, and with
/// `InvalidParameter` where `amt` exceeds 255.
pub fn image_enhance(image_data_base64: &str, amt: i16) -> (out: Result<String, Error>)
    ensures
        match payload_image(image_data_base64@) {
            None => out == Err::<String, Error>(Error::Decode),
            Some(img) => if amt > 255 {
                out == Err::<String, Error>(Error::InvalidParameter)
            } else {
                sends_image(out, red_altered(img, amt as int))
            },
        },
{
    let img = match decode_payload(image_data_base64) {
        Ok(img) => img,
        Err(e) => { return Err(e); },
    };
    match alter_red_channel(&img, amt) {
        Ok(altered) => encode_payload(&altered),
        Err(e) => Err(e),
    }
}

/// Restores an image: raises its brightness by `brightness`, then adjusts its
/// contrast by the tone curve.
///
/// Fails with `Decode` where the payload carries no image.
pub fn restore_image(
    image_data_base64: &str,
    brightness: u8,
    contrast: &ToneCurve,
) -> (out: Result<String, Error>)
    ensures
        match payload_image(image_data_base64@) {
            None => out == Err::<String, Error>(Error::Decode),
            Some(img) => sends_image(out, restored(img, brightness as int, contrast@)),
        },
{
    let img = match decode_payload(image_data_base64) {
        Ok(img) => img,
        Err(e) => { return Err(e); },
    };
    let bright = inc_brightness(&img, brightness);
    let restored = apply_tone_curve(&bright, contrast);
    encode_payload(&restored)
}

/// Erodes the grayscale of the image with a diamond of radius `k`.
///
/// Fails with `Decode` where the payload carries no image, and with
/// `InvalidParameter` where the image's width and height sum to more than
/// `u32::MAX`.
pub fn morphological_erosion(image_data_base64: &str, k: u8) -> (out: Result<String, Error>)
    ensures
        match payload_image(image_data_base64@) {
            None => out == Err::<String, Error>(Error::Decode),
            Some(img) => if fits_transform(grayscale_of(img)) {
                sends(out, file_payload(encoded_gray(eroded(grayscale_of(img), k as nat))))
            } else {
                out == Err::<String, Error>(Error::InvalidParameter)
            },
        },
{
    let img = match decode_payload(image_data_base64) {
        Ok(img) => img,
        Err(e) => { return Err(e); },
    };
    match erode(&to_grayscale(&img), k) {
        Ok(thin) => encode_gray_payload(&thin),
        Err(e) => Err(e),
    }
}

/// Dilates the grayscale of the image with a diamond of radius `k`.
///
/// Fails with `Decode` where the payload carries no image, and with
/// `InvalidParameter` where the image's width and height sum to more than
/// `u32::MAX`.
pub fn morphological_dilation(image_data_base64: &str, k: u8) -> (out: Result<String, Error>)
    ensures
        match payload_image(image_data_base64@) {
            None => out == Err::<String, Error>(Error::Decode),
            Some(img) => if fits_transform(grayscale_of(img)) {
                sends(out, file_payload(encoded_gray(dilated(grayscale_of(img), k as nat))))
            } else {
                out == Err::<String, Error>(Error::InvalidParameter)
            },
        },
{
    let img = match decode_payload(image_data_base64) {
        Ok(img) => img,
        Err(e) => { return Err(e); },
    };
    match dilate(&to_grayscale(&img), k) {
        Ok(thick) => encode_gray_payload(&thick),
        Err(e) => Err(e),
    }
}

/// Denoises the image by Gaussian blur of the given radius.
///
/// Fails with `Decode` where the payload carries no image, and with
/// `InvalidParameter` where the blur is not defined on the image and radius.
pub fn denoising_image_gausian_blur(image_data_base64: &str, radius: i32) -> (out: Result<
    String,
    Error,
>)
    ensures
        match payload_image(image_data_base64@) {
            None => out == Err::<String, Error>(Error::Decode),
            Some(img) => if blur_defined(img, radius as int) {
                sends_image(out, blurred(img, radius as int))
            } else {
                out == Err::<String, Error>(Error::InvalidParameter)
            },
        },
{
    let img = match decode_payload(image_data_base64) {
        Ok(img) => img,
        Err(e) => { return Err(e); },
    };
    match gaussian_blur(&img, radius) {
        Ok(soft) => encode_payload(&soft),
        Err(e) => Err(e),
    }
}

/// Denoises the image by non-local means with the given window radius and
/// similarity weights.
///
/// Fails with `Decode` where the payload carries no image, and with
/// `InvalidParameter` where `window_size` is negative.
pub fn denoising_image_nlm(
    image_data_base64: &str,
    window_size: i32,
    weights: &WeightTable,
) -> (out: Result<String, Error>)
    ensures
        match payload_image(image_data_base64@) {
            None => out == Err::<String, Error>(Error::Decode),
            Some(img) => if window_size < 0 {
                out == Err::<String, Error>(Error::InvalidParameter)
            } else {
                sends_image(out, denoised(img, window_size as nat, weights@))
            },
        },
{
    let img = match decode_payload(image_data_base64) {
        Ok(img) => img,
        Err(e) => { return Err(e); },
    };
    match non_local_means(&img, window_size, weights) {
        Ok(clean) => encode_payload(&clean),
        Err(e) => Err(e),
    }
}

/// The segmented image: every pixel in the colour of the centroid of its
/// cluster, for the clustering of the image's features from `seeds`.
pub open spec fn segmented(img: ImageView, seeds: Seq<usize>, max_iterations: nat) -> ImageView {
    let run = clustered(features_of(img), seeds, max_iterations);
    recolored(img, run.assignments, run.centroids)
}

/// Paints the image by a clustering of its features and sends it.
fn send_painted(img: &ImageBuffer, run: &Clustering) -> (out: Result<String, Error>)
    requires
        valid_assignments(run@.assignments, img@.pixels.len(), run@.centroids.len()),
    ensures
        sends_image(out, recolored(img@, run@.assignments, run@.centroids)),
{
    match recolor_image(img, &run.assignments, &run.centroids) {
        Ok(painted) => encode_payload(&painted),
        Err(e) => Err(e),
    }
}

/// Segments the image into as many colours as there are seeds, clustering
/// from the pixels that the seeds name.
///
/// Fails with `Decode` where the payload carries no image, with
/// `InvalidParameter` where there is no seed, no step is allowed or a seed
/// names no pixel, and with `InvalidClusterCount` where there are more seeds
/// than pixels.
pub fn segment_image_from_seeds(
    image_data_base64: &str,
    seeds: &Vec<usize>,
    max_iterations: usize,
) -> (out: Result<String, Error>)
    ensures
        match payload_image(image_data_base64@) {
            None => out == Err::<String, Error>(Error::Decode),
            Some(img) => match cluster_error(
                img.pixels.len(),
                seeds@.len(),
                max_iterations as nat,
            ) {
                Some(e) => out == Err::<String, Error>(e),
                None => if valid_seeds(seeds@, img.pixels.len()) {
                    sends_image(out, segmented(img, seeds@, max_iterations as nat))
                } else {
                    out == Err::<String, Error>(Error::InvalidParameter)
                },
            },
        },
{
    let img = match decode_payload(image_data_base64) {
        Ok(img) => img,
        Err(e) => { return Err(e); },
    };
    let features = image_features(&img);
    match kmeans_from_seeds(&features, seeds, max_iterations) {
        Ok(run) => send_painted(&img, &run),
        Err(e) => Err(e),
    }
}

/// Segments the image into `k` colours, clustering from `k` pixels drawn at
/// random.
///
/// Fails with `Decode` where the payload carries no image, with
/// `InvalidParameter` where `k` or `max_iterations` is zero, and with
/// `InvalidClusterCount` where `k` exceeds the number of pixels. Otherwise the
/// result is that of `segment_image_from_seeds` for some `k` valid seeds.
pub fn segment_image_kmeans(
    image_data_base64: &str,
    k: usize,
    max_iterations: usize,
) -> (out: Result<String, Error>)
    ensures
        match payload_image(image_data_base64@) {
            None => out == Err::<String, Error>(Error::Decode),
            Some(img) => match cluster_error(img.pixels.len(), k as nat, max_iterations as nat) {
                Some(e) => out == Err::<String, Error>(e),
                None => exists|seeds: Seq<usize>|
                    {
                        &&& seeds.len() == k
                        &&& valid_seeds(seeds, img.pixels.len())
                        &&& sends_image(
                            out,
                            #[trigger] segmented(img, seeds, max_iterations as nat),
                        )
                    },
            },
        },
{
    let img = match decode_payload(image_data_base64) {
        Ok(img) => img,
        Err(e) => { return Err(e); },
    };
    let features = image_features(&img);
    match kmeans(&features, k, max_iterations) {
        Ok(run) => {
            let out = send_painted(&img, &run);
            proof {
                let seeds = choose|seeds: Seq<usize>|
                    {
                        &&& seeds.len() == k
                        &&& valid_seeds(seeds, features@.len())
                        &&& run@ == #[trigger] clustered(features@, seeds, max_iterations as nat)
                    };
                assert(sends_image(out, segmented(img@, seeds, max_iterations as nat)));
            }
            out
        },
        Err(e) => Err(e),
    }
}

} // verus!
