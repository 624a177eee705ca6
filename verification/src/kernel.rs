//! Similarity measures: the squared colour distance between two pixels, the
//! squared distance between two feature vectors, and the table that turns a
//! pixel distance into an averaging weight.

use vstd::prelude::*;
use crate::buffer::Pixel;
use crate::error::Error;

verus! {

/// The stored value of a channel intensity of one level: 2^24. A normalised
/// colour coordinate `c` in [0, 1] is stored as `c * 255 * 2^24`, so that every
/// 8-bit intensity is represented exactly.
pub const CHANNEL_SCALE: u32 = 0x0100_0000;

/// A point in normalised colour space, one fixed-point coordinate per channel.
#[derive(Clone, Copy, Debug, PartialEq, Eq, Structural)]
pub struct Feature {
    pub r: u32,
    pub g: u32,
    pub b: u32,
}

/// The square of `a - b`.
pub open spec fn squared_difference(a: int, b: int) -> nat {
    ((a - b) * (a - b)) as nat
}

/// The squared Euclidean distance between two feature vectors.
pub open spec fn feature_distance(p: Feature, q: Feature) -> nat {
    squared_difference(p.r as int, q.r as int) + squared_difference(p.g as int, q.g as int)
        + squared_difference(p.b as int, q.b as int)
}

/// The squared channel-wise difference between two pixels, summed over the
/// three colour channels.
pub open spec fn pixel_distance(p: Pixel, q: Pixel) -> nat {
    squared_difference(p.r as int, q.r as int) + squared_difference(p.g as int, q.g as int)
        + squared_difference(p.b as int, q.b as int)
}

/// The feature vector of a pixel: each intensity scaled by `CHANNEL_SCALE`.
pub open spec fn feature_of(p: Pixel) -> Feature {
    Feature {
        r: (p.r as nat * CHANNEL_SCALE as nat) as u32,
        g: (p.g as nat * CHANNEL_SCALE as nat) as u32,
        b: (p.b as nat * CHANNEL_SCALE as nat) as u32,
    }
}

/// The 8-bit intensity that a stored coordinate scales back to, truncated
/// toward zero.
pub open spec fn intensity_of(c: u32) -> u8 {
    (c as nat / CHANNEL_SCALE as nat) as u8
}

/// A squared difference is zero only between equal values, and is bounded by
/// the square of the larger range.
pub proof fn lemma_squared_difference(a: int, b: int, bound: int)
    requires
        0 <= a <= bound,
        0 <= b <= bound,
    ensures
        squared_difference(a, b) == (a - b) * (a - b),
        squared_difference(a, b) <= bound * bound,
        squared_difference(a, b) == squared_difference(b, a),
        squared_difference(a, b) == 0 <==> a == b,
{
    assert((a - b) * (a - b) >= 0) by (nonlinear_arith);
    assert((a - b) * (a - b) <= bound * bound) by (nonlinear_arith)
        requires
            -bound <= a - b <= bound,
    ;
    assert((a - b) * (a - b) == (b - a) * (b - a)) by (nonlinear_arith);
    assert((a - b) * (a - b) == 0 <==> a == b) by (nonlinear_arith);
}

/// Two feature vectors are at distance zero exactly when they are equal.
pub proof fn lemma_feature_distance_zero(p: Feature, q: Feature)
    ensures
        feature_distance(p, q) == 0 <==> p == q,
{
    lemma_squared_difference(p.r as int, q.r as int, 0xFFFF_FFFF);
    lemma_squared_difference(p.g as int, q.g as int, 0xFFFF_FFFF);
    lemma_squared_difference(p.b as int, q.b as int, 0xFFFF_FFFF);
}

/// The squared difference of two coordinates.
fn channel_gap(a: u32, b: u32) -> (d: u128)
    ensures
        d == squared_difference(a as int, b as int),
        d <= 0xFFFF_FFFF * 0xFFFF_FFFF,
{
    let gap: u64 = if a >= b {
        (a - b) as u64
    } else {
        (b - a) as u64
    };
    proof {
        lemma_squared_difference(a as int, b as int, 0xFFFF_FFFF);
        lemma_squared_difference(b as int, a as int, 0xFFFF_FFFF);
        assert(gap * gap == squared_difference(a as int, b as int));
    }
    (gap as u128) * (gap as u128)
}

/// Computes the squared Euclidean distance between two feature vectors.
/// Comparing squared distances orders points exactly as comparing distances.
pub fn squared_distance(p: &Feature, q: &Feature) -> (d: u128)
    ensures
        d == feature_distance(*p, *q),
{
    channel_gap(p.r, q.r) + channel_gap(p.g, q.g) + channel_gap(p.b, q.b)
}

/// The squared difference of two intensities.
fn intensity_gap(a: u8, b: u8) -> (d: u32)
    ensures
        d == squared_difference(a as int, b as int),
        d <= 255 * 255,
{
    let gap: u32 = if a >= b {
        (a - b) as u32
    } else {
        (b - a) as u32
    };
    proof {
        lemma_squared_difference(a as int, b as int, 255);
        lemma_squared_difference(b as int, a as int, 255);
        assert(gap * gap == squared_difference(a as int, b as int));
    }
    gap * gap
}

/// Computes the squared colour distance between two pixels; it is at most
/// `3 * 255 * 255`.
pub fn color_distance(p: Pixel, q: Pixel) -> (d: u32)
    ensures
        d == pixel_distance(p, q),
        d <= 195075,
{
    intensity_gap(p.r, q.r) + intensity_gap(p.g, q.g) + intensity_gap(p.b, q.b)
}

/// Computes the feature vector of a pixel.
pub fn pixel_feature(p: Pixel) -> (f: Feature)
    ensures
        f == feature_of(p),
        intensity_of(f.r) == p.r,
        intensity_of(f.g) == p.g,
        intensity_of(f.b) == p.b,
{
    Feature {
        r: (p.r as u32) * CHANNEL_SCALE,
        g: (p.g as u32) * CHANNEL_SCALE,
        b: (p.b as u32) * CHANNEL_SCALE,
    }
}

/// The weight that `weights` gives to a neighbour at squared colour distance
/// `d`: the entry at index `d`, and zero past the end of the table.
pub open spec fn weight_at(weights: Seq<u32>, d: nat) -> nat {
    if d < weights.len() {
        weights[d as int] as nat
    } else {
        0
    }
}

/// A table is usable when it gives a positive weight to distance zero, so that
/// a pixel always counts in its own average.
pub open spec fn valid_weights(weights: Seq<u32>) -> bool {
    weights.len() > 0 && weights[0] > 0
}

/// The similarity kernel of the denoiser, tabulated: entry `d` is the weight
/// of a neighbour whose squared colour distance from the centre pixel is `d`,
/// in a fixed-point unit of the caller's choice. Only the ratios of the
/// entries matter. A table for smoothing strength `h` holds `exp(-d / h)`
/// scaled to that unit.
#[derive(Debug, PartialEq, Eq)]
pub struct WeightTable {
    weights: Vec<u32>,
}

impl View for WeightTable {
    type V = Seq<u32>;

    closed spec fn view(&self) -> Seq<u32> {
        self.weights@
    }
}

impl WeightTable {
    #[verifier::type_invariant]
    spec fn inv(self) -> bool {
        valid_weights(self.weights@)
    }

    /// Builds a table from its entries. Fails exactly when there is no entry
    /// or the weight of distance zero is zero.
    pub fn new(weights: Vec<u32>) -> (out: Result<WeightTable, Error>)
        ensures
            match out {
                Ok(table) => valid_weights(weights@) && table@ == weights@,
                Err(e) => !valid_weights(weights@) && e == Error::InvalidParameter,
            },
    {
        if weights.len() > 0 && weights[0] > 0 {
            Ok(WeightTable { weights })
        } else {
            Err(Error::InvalidParameter)
        }
    }

    /// The weight of a neighbour at squared colour distance `d`.
    pub fn weight(&self, d: u32) -> (w: u32)
        ensures
            w == weight_at(self@, d as nat),
            valid_weights(self@),
    {
        proof {
            use_type_invariant(self);
        }
        if (d as usize) < self.weights.len() {
            self.weights[d as usize]
        } else {
            0
        }
    }
}

} // verus!
