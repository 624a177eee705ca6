//! Binary morphology on single-channel images with a diamond-shaped
//! structuring element: erosion and dilation by city-block distance.
//!
//! A pixel is foreground when its intensity is not zero. Both operations are
//! computed by the `imageproc` crate from a distance transform that saturates,
//! and the contracts here state its results position by position.

use imageproc::distance_transform::Norm;
use vstd::prelude::*;
use crate::buffer::{lemma_index_in_bounds, GrayImage, GrayView};
use crate::error::Error;

verus! {

/// The city-block distance between two positions.
pub open spec fn city_block(x1: int, y1: int, x2: int, y2: int) -> int {
    (if x1 >= x2 {
        x1 - x2
    } else {
        x2 - x1
    }) + (if y1 >= y2 {
        y1 - y2
    } else {
        y2 - y1
    })
}

/// The distance at which the distance transform saturates: the sum of the
/// image's width and height, and at most 255.
pub open spec fn saturation(img: GrayView) -> int {
    if img.width + img.height < 255 {
        (img.width + img.height) as int
    } else {
        255
    }
}

/// Some background pixel lies within distance `k` of `(x, y)`.
pub open spec fn near_background(img: GrayView, x: int, y: int, k: int) -> bool {
    exists|qx: int, qy: int|
        img.contains(qx, qy) && city_block(x, y, qx, qy) <= k && #[trigger] img.pixel(qx, qy)
            == 0
}

/// Some foreground pixel lies within distance `k` of `(x, y)`.
pub open spec fn near_foreground(img: GrayView, x: int, y: int, k: int) -> bool {
    exists|qx: int, qy: int|
        img.contains(qx, qy) && city_block(x, y, qx, qy) <= k && #[trigger] img.pixel(qx, qy)
            != 0
}

/// The eroded intensity at `(x, y)`: black within distance `k` of a
/// background pixel, white elsewhere; black everywhere once `k` reaches the
/// saturation distance.
pub open spec fn eroded_pixel(img: GrayView, x: int, y: int, k: int) -> u8 {
    if near_background(img, x, y, k) || k >= saturation(img) {
        0
    } else {
        255
    }
}

/// The dilated intensity at `(x, y)`: white within distance `k` of a
/// foreground pixel, black elsewhere; white everywhere once `k` reaches the
/// saturation distance.
pub open spec fn dilated_pixel(img: GrayView, x: int, y: int, k: int) -> u8 {
    if near_foreground(img, x, y, k) || k >= saturation(img) {
        255
    } else {
        0
    }
}

/// The erosion of `img` with radius `k`.
pub open spec fn eroded(img: GrayView, k: nat) -> GrayView {
    GrayView {
        width: img.width,
        height: img.height,
        pixels: Seq::new(
            img.pixels.len(),
            |i: int| eroded_pixel(img, i % (img.width as int), i / (img.width as int), k as int),
        ),
    }
}

/// The dilation of `img` with radius `k`.
pub open spec fn dilated(img: GrayView, k: nat) -> GrayView {
    GrayView {
        width: img.width,
        height: img.height,
        pixels: Seq::new(
            img.pixels.len(),
            |i: int| dilated_pixel(img, i % (img.width as int), i / (img.width as int), k as int),
        ),
    }
}

/// Calls `imageproc::morphology::erode` with `Norm::L1` on the image that
/// `image::GrayImage::from_raw` makes of the arguments.
///
/// Assumed of it: the result has one intensity per position; it computes for
/// every pixel the city-block distance to the nearest background pixel,
/// capped at the smaller of `width + height` and 255, and writes 0 where that
/// distance is at most `k` and 255 elsewhere. The sum `width + height` must
/// fit in `u32`, in which the crate computes it.
#[verifier::external_body]
fn erode_l1(width: u32, height: u32, pixels: Vec<u8>, k: u8) -> (out: Vec<u8>)
    requires
        pixels@.len() == width * height,
        width + height <= u32::MAX,
    ensures
        out@ == eroded(
            GrayView { width: width as nat, height: height as nat, pixels: pixels@ },
            k as nat,
        ).pixels,
{
    match image::GrayImage::from_raw(width, height, pixels) {
        Some(img) => imageproc::morphology::erode(&img, Norm::L1, k).into_raw(),
        None => Vec::new(),
    }
}

/// Calls `imageproc::morphology::dilate` with `Norm::L1` on the image that
/// `image::GrayImage::from_raw` makes of the arguments.
///
/// Assumed of it: the result has one intensity per position; it computes for
/// every pixel the city-block distance to the nearest foreground pixel,
/// capped at the smaller of `width + height` and 255, and writes 255 where
/// that distance is at most `k` and 0 elsewhere. The sum `width + height`
/// must fit in `u32`, in which the crate computes it.
#[verifier::external_body]
fn dilate_l1(width: u32, height: u32, pixels: Vec<u8>, k: u8) -> (out: Vec<u8>)
    requires
        pixels@.len() == width * height,
        width + height <= u32::MAX,
    ensures
        out@ == dilated(
            GrayView { width: width as nat, height: height as nat, pixels: pixels@ },
            k as nat,
        ).pixels,
{
    match image::GrayImage::from_raw(width, height, pixels) {
        Some(img) => imageproc::morphology::dilate(&img, Norm::L1, k).into_raw(),
        None => Vec::new(),
    }
}

/// A copy of the intensities, to hand over to the morphology crate.
fn copy_of(pixels: &Vec<u8>) -> (copy: Vec<u8>)
    ensures
        copy@ == pixels@,
{
    let mut copy: Vec<u8> = Vec::new();
    let mut i: usize = 0;
    while i < pixels.len()
        invariant
            i <= pixels.len(),
            copy.len() == i,
            forall|m: int| 0 <= m < i ==> copy[m] == pixels[m],
        decreases pixels.len() - i,
    {
        copy.push(pixels[i]);
        i += 1;
    }
    assert(copy@ =~= pixels@);
    copy
}

/// Whether the dimensions of an image can be handed to the morphology
/// operations: their sum must fit in 32 bits.
pub open spec fn fits_transform(img: GrayView) -> bool {
    img.width + img.height <= u32::MAX
}

/// Erodes `img` with a diamond of radius `k`: every pixel within city-block
/// distance `k` of a background pixel becomes black, every other white.
/// The result has the dimensions of `img`.
///
/// Fails with `InvalidParameter` exactly when the width and height of `img`
/// sum to more than `u32::MAX`.
pub fn erode(img: &GrayImage, k: u8) -> (out: Result<GrayImage, Error>)
    ensures
        match out {
            Ok(thin) => fits_transform(img@) && thin@ == eroded(img@, k as nat),
            Err(e) => !fits_transform(img@) && e == Error::InvalidParameter,
        },
{
    let width = img.width();
    let height = img.height();
    if width as u64 + height as u64 > u32::MAX as u64 {
        return Err(Error::InvalidParameter);
    }
    let pixels = erode_l1(width, height, copy_of(img.pixels()), k);
    GrayImage::new(width, height, pixels)
}

/// Dilates `img` with a diamond of radius `k`: every pixel within city-block
/// distance `k` of a foreground pixel becomes white, every other black.
/// The result has the dimensions of `img`.
///
/// Fails with `InvalidParameter` exactly when the width and height of `img`
/// sum to more than `u32::MAX`.
pub fn dilate(img: &GrayImage, k: u8) -> (out: Result<GrayImage, Error>)
    ensures
        match out {
            Ok(thick) => fits_transform(img@) && thick@ == dilated(img@, k as nat),
            Err(e) => !fits_transform(img@) && e == Error::InvalidParameter,
        },
{
    let width = img.width();
    let height = img.height();
    if width as u64 + height as u64 > u32::MAX as u64 {
        return Err(Error::InvalidParameter);
    }
    let pixels = dilate_l1(width, height, copy_of(img.pixels()), k);
    GrayImage::new(width, height, pixels)
}

/// Erosion followed by dilation with the same radius never grows the
/// foreground: below the saturation distance, every pixel that is foreground
/// afterwards was foreground before.
pub proof fn lemma_opening_never_grows(img: GrayView, k: nat, x: int, y: int)
    requires
        img.wf(),
        k < saturation(img),
        img.contains(x, y),
        dilated(eroded(img, k), k).pixel(x, y) != 0,
    ensures
        img.pixel(x, y) != 0,
{
    let thin = eroded(img, k);
    lemma_index_in_bounds(img.width, img.height, x, y);
    assert(dilated(thin, k).pixel(x, y) == dilated_pixel(thin, x, y, k as int));
    assert(near_foreground(thin, x, y, k as int));
    let (qx, qy) = choose|qx: int, qy: int|
        thin.contains(qx, qy) && city_block(x, y, qx, qy) <= k && #[trigger] thin.pixel(qx, qy)
            != 0;
    lemma_index_in_bounds(img.width, img.height, qx, qy);
    assert(thin.pixel(qx, qy) == eroded_pixel(img, qx, qy, k as int));
    assert(!near_background(img, qx, qy, k as int));
    if img.pixel(x, y) == 0 {
        assert(img.contains(x, y) && city_block(qx, qy, x, y) <= k && img.pixel(x, y) == 0);
    }
}

} // verus!
