//! Colour segmentation: the feature vectors of an image, and the image that
//! shows every pixel in the colour of its cluster's centroid.

use vstd::prelude::*;
use crate::buffer::{ImageBuffer, ImageView, Pixel};
use crate::error::Error;
use crate::kernel::{
    feature_distance, feature_of, intensity_of, lemma_feature_distance_zero, pixel_feature,
    Feature, CHANNEL_SCALE,
};
use crate::kmeans::{
    assignments_for, check_assignments, cluster_size, cluster_sum, clustered, coordinate,
    lemma_assignments_for, lemma_nearest, lloyd, nearest, seeded, updated, valid_assignments,
    valid_seeds,
};

verus! {

/// The feature vectors of an image: one per pixel, in pixel order.
pub open spec fn features_of(img: ImageView) -> Seq<Feature> {
    Seq::new(img.pixels.len(), |i: int| feature_of(img.pixels[i]))
}

/// Computes the feature vectors of an image.
pub fn image_features(img: &ImageBuffer) -> (features: Vec<Feature>)
    ensures
        features@ == features_of(img@),
{
    let pixels = img.pixels();
    let mut features: Vec<Feature> = Vec::new();
    let mut i: usize = 0;
    while i < pixels.len()
        invariant
            i <= pixels.len(),
            pixels@ == img@.pixels,
            features.len() == i,
            forall|m: int| 0 <= m < i ==> #[trigger] features[m] == feature_of(pixels@[m]),
        decreases pixels.len() - i,
    {
        features.push(pixel_feature(pixels[i]));
        i += 1;
    }
    assert(features@ =~= features_of(img@));
    features
}

/// The pixel that shows a centroid: every coordinate scaled back to an 8-bit
/// intensity and truncated toward zero.
pub open spec fn centroid_color(c: Feature) -> Pixel {
    Pixel { r: intensity_of(c.r), g: intensity_of(c.g), b: intensity_of(c.b) }
}

/// The image of the dimensions of `img` in which every pixel has the colour
/// of the centroid of its cluster.
pub open spec fn recolored(
    img: ImageView,
    assignments: Seq<usize>,
    centroids: Seq<Feature>,
) -> ImageView {
    ImageView {
        width: img.width,
        height: img.height,
        pixels: Seq::new(
            img.pixels.len(),
            |i: int| centroid_color(centroids[assignments[i] as int]),
        ),
    }
}

/// Computes the pixel that shows a centroid.
pub fn centroid_pixel(c: &Feature) -> (p: Pixel)
    ensures
        p == centroid_color(*c),
{
    Pixel {
        r: (c.r / CHANNEL_SCALE) as u8,
        g: (c.g / CHANNEL_SCALE) as u8,
        b: (c.b / CHANNEL_SCALE) as u8,
    }
}

/// Paints every pixel of `original` in the colour of the centroid of its
/// cluster. The result has the dimensions of `original`.
///
/// Fails with `InvalidParameter` exactly when `assignments` does not hold one
/// index of a centroid per pixel.
pub fn recolor_image(
    original: &ImageBuffer,
    assignments: &Vec<usize>,
    centroids: &Vec<Feature>,
) -> (out: Result<ImageBuffer, Error>)
    ensures
        match out {
            Ok(painted) => {
                &&& valid_assignments(assignments@, original@.pixels.len(), centroids@.len())
                &&& painted@ == recolored(original@, assignments@, centroids@)
            },
            Err(e) => {
                &&& !valid_assignments(assignments@, original@.pixels.len(), centroids@.len())
                &&& e == Error::InvalidParameter
            },
        },
{
    let len = original.pixels().len();
    if !check_assignments(assignments, len, centroids.len()) {
        return Err(Error::InvalidParameter);
    }
    let mut painted: Vec<Pixel> = Vec::new();
    let mut i: usize = 0;
    while i < len
        invariant
            i <= len,
            len == original@.pixels.len(),
            valid_assignments(assignments@, len as nat, centroids@.len()),
            painted.len() == i,
            forall|m: int|
                0 <= m < i ==> #[trigger] painted[m] == centroid_color(
                    centroids@[assignments@[m] as int],
                ),
        decreases len - i,
    {
        painted.push(centroid_pixel(&centroids[assignments[i]]));
        i += 1;
    }
    assert(painted@ =~= recolored(original@, assignments@, centroids@).pixels);
    ImageBuffer::new(original.width(), original.height(), painted)
}

/// `p` is one of the centroids.
pub open spec fn occurs(centroids: Seq<Feature>, p: Feature) -> bool {
    exists|j: int| 0 <= j < centroids.len() && #[trigger] centroids[j] == p
}

/// Every point coincides with one of the centroids.
pub open spec fn covers(centroids: Seq<Feature>, features: Seq<Feature>) -> bool {
    forall|i: int| 0 <= i < features.len() ==> occurs(centroids, #[trigger] features[i])
}

/// A point that coincides with a centroid is nearest to a centroid equal to
/// it.
proof fn lemma_nearest_of_covered(centroids: Seq<Feature>, features: Seq<Feature>, i: int)
    requires
        covers(centroids, features),
        0 <= i < features.len(),
    ensures
        0 <= nearest(features[i], centroids) < centroids.len(),
        centroids[nearest(features[i], centroids)] == features[i],
{
    let p = features[i];
    assert(occurs(centroids, p));
    let j = choose|j: int| 0 <= j < centroids.len() && #[trigger] centroids[j] == p;
    lemma_nearest(p, centroids);
    let best = nearest(p, centroids);
    lemma_feature_distance_zero(p, centroids[j]);
    assert(feature_distance(p, centroids[best]) <= feature_distance(p, centroids[j]));
    lemma_feature_distance_zero(p, centroids[best]);
}

/// A cluster whose points all equal `value` sums to its size times `value`.
proof fn lemma_cluster_of_equals(
    features: Seq<Feature>,
    assignments: Seq<usize>,
    value: Feature,
    j: int,
    c: int,
    n: nat,
)
    requires
        n <= features.len(),
        n <= assignments.len(),
        forall|i: int| 0 <= i < n && assignments[i] == j ==> #[trigger] features[i] == value,
    ensures
        cluster_sum(features, assignments, j, c, n) == cluster_size(assignments, j, n)
            * coordinate(value, c),
    decreases n,
{
    let v = coordinate(value, c) as int;
    if n == 0 {
        assert(0 * v == 0) by (nonlinear_arith);
    } else {
        lemma_cluster_of_equals(features, assignments, value, j, c, (n - 1) as nat);
        let before = cluster_size(assignments, j, (n - 1) as nat) as int;
        if assignments[n - 1] == j {
            assert(features[n - 1] == value);
            assert((before + 1) * v == before * v + v) by (nonlinear_arith);
        }
    }
}

/// Centroids that cover the points are left in place by the update step.
proof fn lemma_covered_is_fixed(centroids: Seq<Feature>, features: Seq<Feature>)
    requires
        covers(centroids, features),
        0 < centroids.len() <= usize::MAX,
    ensures
        updated(features, assignments_for(features, centroids), centroids) == centroids,
{
    let assignments = assignments_for(features, centroids);
    let moved = updated(features, assignments, centroids);
    lemma_assignments_for(features, centroids);
    assert forall|j: int| 0 <= j < centroids.len() implies moved[j] == centroids[j] by {
        let size = cluster_size(assignments, j, features.len());
        if size > 0 {
            assert forall|i: int|
                0 <= i < features.len() && assignments[i] == j implies #[trigger] features[i]
                == centroids[j] by {
                lemma_nearest_of_covered(centroids, features, i);
            }
            lemma_cluster_of_equals(features, assignments, centroids[j], j, 0, features.len());
            lemma_cluster_of_equals(features, assignments, centroids[j], j, 1, features.len());
            lemma_cluster_of_equals(features, assignments, centroids[j], j, 2, features.len());
            vstd::arithmetic::div_mod::lemma_div_multiples_vanish(
                centroids[j].r as int,
                size as int,
            );
            vstd::arithmetic::div_mod::lemma_div_multiples_vanish(
                centroids[j].g as int,
                size as int,
            );
            vstd::arithmetic::div_mod::lemma_div_multiples_vanish(
                centroids[j].b as int,
                size as int,
            );
            assert(size * coordinate(centroids[j], 0) == centroids[j].r * size)
                by (nonlinear_arith);
            assert(size * coordinate(centroids[j], 1) == centroids[j].g * size)
                by (nonlinear_arith);
            assert(size * coordinate(centroids[j], 2) == centroids[j].b * size)
                by (nonlinear_arith);
        }
    }
    assert(moved =~= centroids);
}

/// From centroids that cover the points, Lloyd's iteration returns them and
/// the first assignment, however many steps it is allowed.
proof fn lemma_covered_run(centroids: Seq<Feature>, features: Seq<Feature>, steps: nat)
    requires
        covers(centroids, features),
        0 < centroids.len() <= usize::MAX,
    ensures
        lloyd(features, centroids, assignments_for(features, centroids), steps).centroids
            == centroids,
        lloyd(features, centroids, assignments_for(features, centroids), steps).assignments
            == assignments_for(features, centroids),
{
    lemma_covered_is_fixed(centroids, features);
}

/// Scaling a pixel to a feature vector and back loses nothing.
proof fn lemma_scaling_is_exact(p: Pixel)
    ensures
        centroid_color(feature_of(p)) == p,
{
}

/// Where every pixel has the colour of one of the seeds, one cluster per
/// distinct colour, clustering followed by recolouring reproduces the image:
/// each pixel is assigned to a centroid of exactly its colour, and scaling
/// that centroid back loses nothing.
pub proof fn lemma_recolor_reproduces_image(img: ImageView, seeds: Seq<usize>, max_iterations: nat)
    requires
        img.wf(),
        0 < seeds.len() <= usize::MAX,
        valid_seeds(seeds, img.pixels.len()),
        covers(seeded(features_of(img), seeds), features_of(img)),
    ensures
        recolored(
            img,
            clustered(features_of(img), seeds, max_iterations).assignments,
            clustered(features_of(img), seeds, max_iterations).centroids,
        ) == img,
{
    let features = features_of(img);
    let initial = seeded(features, seeds);
    let first = assignments_for(features, initial);
    lemma_covered_run(initial, features, max_iterations);
    let painted = recolored(img, first, initial);
    assert forall|i: int| 0 <= i < img.pixels.len() implies painted.pixels[i] == img.pixels[i] by {
        lemma_nearest_of_covered(initial, features, i);
        lemma_scaling_is_exact(img.pixels[i]);
    }
    assert(painted.pixels =~= img.pixels);
}

} // verus!
