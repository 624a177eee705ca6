//! Non-local-means denoising: every pixel is replaced by the average of the
//! pixels in a square window around it, each weighted by how similar its
//! colour is to the centre pixel's.

use vstd::prelude::*;
use crate::buffer::{
    grid_index, lemma_index_in_bounds, lemma_position_of_index, ImageBuffer, ImageView, Pixel,
};
use crate::error::Error;
use crate::kernel::{color_distance, pixel_distance, valid_weights, weight_at, WeightTable};

verus! {

/// The sum of the weights of a set of neighbours, and per channel the sum of
/// their intensities times their weights.
pub struct WeightedSums {
    pub weight: nat,
    pub r: nat,
    pub g: nat,
    pub b: nat,
}

/// The sums over no neighbour.
pub open spec fn no_sums() -> WeightedSums {
    WeightedSums { weight: 0, r: 0, g: 0, b: 0 }
}

/// `sums` with one more neighbour of the pixel `center` counted.
pub open spec fn with_neighbor(
    sums: WeightedSums,
    weights: Seq<u32>,
    center: Pixel,
    neighbor: Pixel,
) -> WeightedSums {
    let w = weight_at(weights, pixel_distance(center, neighbor));
    WeightedSums {
        weight: sums.weight + w,
        r: sums.r + w * (neighbor.r as nat),
        g: sums.g + w * (neighbor.g as nat),
        b: sums.b + w * (neighbor.b as nat),
    }
}

/// `sums` with the pixels of row `y` in columns `x_lo..x_hi` counted.
pub open spec fn span_sums(
    img: ImageView,
    weights: Seq<u32>,
    center: Pixel,
    sums: WeightedSums,
    y: int,
    x_lo: int,
    x_hi: int,
) -> WeightedSums
    decreases x_hi - x_lo,
{
    if x_hi <= x_lo {
        sums
    } else {
        with_neighbor(
            span_sums(img, weights, center, sums, y, x_lo, x_hi - 1),
            weights,
            center,
            img.pixel(x_hi - 1, y),
        )
    }
}

/// The sums over the pixels in columns `x_lo..x_hi` of rows `y_lo..y_hi`.
pub open spec fn window_sums(
    img: ImageView,
    weights: Seq<u32>,
    center: Pixel,
    x_lo: int,
    x_hi: int,
    y_lo: int,
    y_hi: int,
) -> WeightedSums
    decreases y_hi - y_lo,
{
    if y_hi <= y_lo {
        no_sums()
    } else {
        span_sums(
            img,
            weights,
            center,
            window_sums(img, weights, center, x_lo, x_hi, y_lo, y_hi - 1),
            y_hi - 1,
            x_lo,
            x_hi,
        )
    }
}

/// The first coordinate of a window of the given radius around `c`: the
/// window stops at the border of the image.
pub open spec fn window_start(c: int, radius: int) -> int {
    if c >= radius {
        c - radius
    } else {
        0
    }
}

/// One past the last coordinate of a window of the given radius around `c`
/// in an image of the given size.
pub open spec fn window_end(c: int, radius: int, size: int) -> int {
    if c + radius + 1 <= size {
        c + radius + 1
    } else {
        size
    }
}

/// The sums over the window of the given radius around `(x, y)`, clipped to
/// the image. Positions outside the image are not counted.
pub open spec fn neighborhood_sums(
    img: ImageView,
    radius: nat,
    weights: Seq<u32>,
    x: int,
    y: int,
) -> WeightedSums {
    window_sums(
        img,
        weights,
        img.pixel(x, y),
        window_start(x, radius as int),
        window_end(x, radius as int, img.width as int),
        window_start(y, radius as int),
        window_end(y, radius as int, img.height as int),
    )
}

/// The denoised pixel at `(x, y)`: per channel, the weighted sum of the
/// neighbours' intensities divided by the sum of their weights, truncated
/// toward zero.
pub open spec fn denoised_pixel(
    img: ImageView,
    radius: nat,
    weights: Seq<u32>,
    x: int,
    y: int,
) -> Pixel {
    let sums = neighborhood_sums(img, radius, weights, x, y);
    Pixel {
        r: (sums.r / sums.weight) as u8,
        g: (sums.g / sums.weight) as u8,
        b: (sums.b / sums.weight) as u8,
    }
}

/// The denoised image: of the same dimensions, every pixel denoised.
pub open spec fn denoised(img: ImageView, radius: nat, weights: Seq<u32>) -> ImageView {
    ImageView {
        width: img.width,
        height: img.height,
        pixels: Seq::new(
            img.pixels.len(),
            |i: int|
                denoised_pixel(
                    img,
                    radius,
                    weights,
                    i % (img.width as int),
                    i / (img.width as int),
                ),
        ),
    }
}

/// Counting more neighbours never lowers the sum of weights, and a channel
/// sum never exceeds 255 times the sum of weights.
pub proof fn lemma_span_sums_bounds(
    img: ImageView,
    weights: Seq<u32>,
    center: Pixel,
    sums: WeightedSums,
    y: int,
    x_lo: int,
    x_hi: int,
)
    requires
        sums.r <= 255 * sums.weight,
        sums.g <= 255 * sums.weight,
        sums.b <= 255 * sums.weight,
    ensures
        span_sums(img, weights, center, sums, y, x_lo, x_hi).weight >= sums.weight,
        span_sums(img, weights, center, sums, y, x_lo, x_hi).r <= 255 * span_sums(
            img,
            weights,
            center,
            sums,
            y,
            x_lo,
            x_hi,
        ).weight,
        span_sums(img, weights, center, sums, y, x_lo, x_hi).g <= 255 * span_sums(
            img,
            weights,
            center,
            sums,
            y,
            x_lo,
            x_hi,
        ).weight,
        span_sums(img, weights, center, sums, y, x_lo, x_hi).b <= 255 * span_sums(
            img,
            weights,
            center,
            sums,
            y,
            x_lo,
            x_hi,
        ).weight,
    decreases x_hi - x_lo,
{
    if x_hi > x_lo {
        lemma_span_sums_bounds(img, weights, center, sums, y, x_lo, x_hi - 1);
        let before = span_sums(img, weights, center, sums, y, x_lo, x_hi - 1);
        let neighbor = img.pixel(x_hi - 1, y);
        let w = weight_at(weights, pixel_distance(center, neighbor));
        assert(w * neighbor.r <= 255 * w) by (nonlinear_arith)
            requires
                0 <= w,
                0 <= neighbor.r <= 255,
        ;
        assert(w * neighbor.g <= 255 * w) by (nonlinear_arith)
            requires
                0 <= w,
                0 <= neighbor.g <= 255,
        ;
        assert(w * neighbor.b <= 255 * w) by (nonlinear_arith)
            requires
                0 <= w,
                0 <= neighbor.b <= 255,
        ;
    }
}

/// A span counts the weight of each pixel in it.
pub proof fn lemma_span_sums_include(
    img: ImageView,
    weights: Seq<u32>,
    center: Pixel,
    sums: WeightedSums,
    y: int,
    x_lo: int,
    x_hi: int,
    x: int,
)
    requires
        x_lo <= x < x_hi,
    ensures
        span_sums(img, weights, center, sums, y, x_lo, x_hi).weight >= sums.weight + weight_at(
            weights,
            pixel_distance(center, img.pixel(x, y)),
        ),
    decreases x_hi - x_lo,
{
    if x < x_hi - 1 {
        lemma_span_sums_include(img, weights, center, sums, y, x_lo, x_hi - 1, x);
    } else {
        lemma_span_sums_weight_grows(img, weights, center, sums, y, x_lo, x_hi - 1);
    }
}

/// Counting a span never lowers the sum of weights.
pub proof fn lemma_span_sums_weight_grows(
    img: ImageView,
    weights: Seq<u32>,
    center: Pixel,
    sums: WeightedSums,
    y: int,
    x_lo: int,
    x_hi: int,
)
    ensures
        span_sums(img, weights, center, sums, y, x_lo, x_hi).weight >= sums.weight,
    decreases x_hi - x_lo,
{
    if x_hi > x_lo {
        lemma_span_sums_weight_grows(img, weights, center, sums, y, x_lo, x_hi - 1);
    }
}

/// A window counts the weight of each pixel in it, and its channel sums never
/// exceed 255 times its sum of weights.
pub proof fn lemma_window_sums_include(
    img: ImageView,
    weights: Seq<u32>,
    center: Pixel,
    x_lo: int,
    x_hi: int,
    y_lo: int,
    y_hi: int,
    x: int,
    y: int,
)
    requires
        x_lo <= x < x_hi,
        y_lo <= y < y_hi,
    ensures
        window_sums(img, weights, center, x_lo, x_hi, y_lo, y_hi).weight >= weight_at(
            weights,
            pixel_distance(center, img.pixel(x, y)),
        ),
    decreases y_hi - y_lo,
{
    let above = window_sums(img, weights, center, x_lo, x_hi, y_lo, y_hi - 1);
    if y < y_hi - 1 {
        lemma_window_sums_include(img, weights, center, x_lo, x_hi, y_lo, y_hi - 1, x, y);
        lemma_span_sums_weight_grows(img, weights, center, above, y_hi - 1, x_lo, x_hi);
    } else {
        lemma_span_sums_include(img, weights, center, above, y, x_lo, x_hi, x);
    }
}

/// The channel sums of a window never exceed 255 times its sum of weights.
pub proof fn lemma_window_sums_bounds(
    img: ImageView,
    weights: Seq<u32>,
    center: Pixel,
    x_lo: int,
    x_hi: int,
    y_lo: int,
    y_hi: int,
)
    ensures
        window_sums(img, weights, center, x_lo, x_hi, y_lo, y_hi).r <= 255 * window_sums(
            img,
            weights,
            center,
            x_lo,
            x_hi,
            y_lo,
            y_hi,
        ).weight,
        window_sums(img, weights, center, x_lo, x_hi, y_lo, y_hi).g <= 255 * window_sums(
            img,
            weights,
            center,
            x_lo,
            x_hi,
            y_lo,
            y_hi,
        ).weight,
        window_sums(img, weights, center, x_lo, x_hi, y_lo, y_hi).b <= 255 * window_sums(
            img,
            weights,
            center,
            x_lo,
            x_hi,
            y_lo,
            y_hi,
        ).weight,
    decreases y_hi - y_lo,
{
    if y_hi > y_lo {
        lemma_window_sums_bounds(img, weights, center, x_lo, x_hi, y_lo, y_hi - 1);
        lemma_span_sums_bounds(
            img,
            weights,
            center,
            window_sums(img, weights, center, x_lo, x_hi, y_lo, y_hi - 1),
            y_hi - 1,
            x_lo,
            x_hi,
        );
    }
}

/// The neighbourhood of a pixel counts the pixel itself, at distance zero, so
/// its sum of weights is positive and every weighted average is an intensity.
pub proof fn lemma_neighborhood_sums(
    img: ImageView,
    radius: nat,
    weights: Seq<u32>,
    x: int,
    y: int,
)
    requires
        valid_weights(weights),
        img.contains(x, y),
    ensures
        neighborhood_sums(img, radius, weights, x, y).weight > 0,
        neighborhood_sums(img, radius, weights, x, y).r / neighborhood_sums(
            img,
            radius,
            weights,
            x,
            y,
        ).weight <= 255,
        neighborhood_sums(img, radius, weights, x, y).g / neighborhood_sums(
            img,
            radius,
            weights,
            x,
            y,
        ).weight <= 255,
        neighborhood_sums(img, radius, weights, x, y).b / neighborhood_sums(
            img,
            radius,
            weights,
            x,
            y,
        ).weight <= 255,
{
    let center = img.pixel(x, y);
    let r = radius as int;
    let x_lo = window_start(x, r);
    let x_hi = window_end(x, r, img.width as int);
    let y_lo = window_start(y, r);
    let y_hi = window_end(y, r, img.height as int);
    lemma_window_sums_include(img, weights, center, x_lo, x_hi, y_lo, y_hi, x, y);
    lemma_window_sums_bounds(img, weights, center, x_lo, x_hi, y_lo, y_hi);
    assert(pixel_distance(center, center) == 0);
    let sums = neighborhood_sums(img, radius, weights, x, y);
    lemma_average_bound(sums.r as int, sums.weight as int);
    lemma_average_bound(sums.g as int, sums.weight as int);
    lemma_average_bound(sums.b as int, sums.weight as int);
}

/// A sum of at most 255 per unit of weight averages to an intensity.
proof fn lemma_average_bound(sum: int, weight: int)
    requires
        weight > 0,
        0 <= sum <= 255 * weight,
    ensures
        0 <= sum / weight <= 255,
{
    assert(0 <= sum / weight <= 255) by (nonlinear_arith)
        requires
            weight > 0,
            0 <= sum <= 255 * weight,
    ;
}

/// The first coordinate of the window around `c`.
fn clipped_start(c: u32, radius: u32) -> (lo: u32)
    ensures
        lo == window_start(c as int, radius as int),
        lo <= c,
{
    if c >= radius {
        c - radius
    } else {
        0
    }
}

/// One past the last coordinate of the window around `c`.
fn clipped_end(c: u32, radius: u32, size: u32) -> (hi: u32)
    requires
        c < size,
    ensures
        hi == window_end(c as int, radius as int, size as int),
        c < hi <= size,
{
    let end: u64 = c as u64 + radius as u64 + 1;
    if end <= size as u64 {
        end as u32
    } else {
        size
    }
}

/// A weighted channel sum divided by the sum of weights.
fn average(sum: u128, weight: u128) -> (mean: u8)
    requires
        weight > 0,
        sum <= 255 * weight,
    ensures
        mean == sum as nat / weight as nat,
{
    proof {
        lemma_average_bound(sum as int, weight as int);
    }
    (sum / weight) as u8
}

/// Scans the clipped window around `(x, y)` row by row, accumulating the
/// weights and the weighted channel sums, and averages.
fn denoise_pixel(
    img: &ImageBuffer,
    radius: u32,
    weights: &WeightTable,
    x: u32,
    y: u32,
) -> (p: Pixel)
    requires
        img@.contains(x as int, y as int),
        valid_weights(weights@),
    ensures
        p == denoised_pixel(img@, radius as nat, weights@, x as int, y as int),
{
    let pixels = img.pixels();
    let width = img.width();
    let height = img.height();
    assert(width * height == pixels.len());
    let center = pixels[grid_index(width, height, x, y)];
    let x_lo = clipped_start(x, radius);
    let x_hi = clipped_end(x, radius, width);
    let y_lo = clipped_start(y, radius);
    let y_hi = clipped_end(y, radius, height);
    let mut sum_w: u128 = 0;
    let mut sum_r: u128 = 0;
    let mut sum_g: u128 = 0;
    let mut sum_b: u128 = 0;
    let mut ny = y_lo;
    while ny < y_hi
        invariant
            y_lo <= ny <= y_hi <= height,
            x_lo <= x_hi <= width,
            width == img@.width,
            height == img@.height,
            pixels@ == img@.pixels,
            width * height == pixels.len(),
            (WeightedSums {
                weight: sum_w as nat,
                r: sum_r as nat,
                g: sum_g as nat,
                b: sum_b as nat,
            }) == window_sums(
                img@,
                weights@,
                center,
                x_lo as int,
                x_hi as int,
                y_lo as int,
                ny as int,
            ),
            sum_w <= 0xFFFF_FFFF * ((ny - y_lo) * 0x1_0000_0000),
            sum_r <= 255 * sum_w,
            sum_g <= 255 * sum_w,
            sum_b <= 255 * sum_w,
        decreases y_hi - ny,
    {
        let ghost above = window_sums(
            img@,
            weights@,
            center,
            x_lo as int,
            x_hi as int,
            y_lo as int,
            ny as int,
        );
        let mut nx = x_lo;
        while nx < x_hi
            invariant
                y_lo <= ny < y_hi <= height,
                x_lo <= nx <= x_hi <= width,
                width == img@.width,
                height == img@.height,
                pixels@ == img@.pixels,
                width * height == pixels.len(),
                (WeightedSums {
                    weight: sum_w as nat,
                    r: sum_r as nat,
                    g: sum_g as nat,
                    b: sum_b as nat,
                }) == span_sums(img@, weights@, center, above, ny as int, x_lo as int, nx as int),
                sum_w <= 0xFFFF_FFFF * ((ny - y_lo) * 0x1_0000_0000 + (nx - x_lo)),
                sum_r <= 255 * sum_w,
                sum_g <= 255 * sum_w,
                sum_b <= 255 * sum_w,
            decreases x_hi - nx,
        {
            let neighbor = pixels[grid_index(width, height, nx, ny)];
            let w = weights.weight(color_distance(center, neighbor)) as u128;
            assert(w * neighbor.r <= 255 * w && w * neighbor.g <= 255 * w && w * neighbor.b <= 255
                * w) by (nonlinear_arith)
                requires
                    0 <= w,
                    0 <= neighbor.r <= 255,
                    0 <= neighbor.g <= 255,
                    0 <= neighbor.b <= 255,
            ;
            sum_w += w;
            sum_r += w * (neighbor.r as u128);
            sum_g += w * (neighbor.g as u128);
            sum_b += w * (neighbor.b as u128);
            nx += 1;
        }
        ny += 1;
    }
    proof {
        lemma_neighborhood_sums(img@, radius as nat, weights@, x as int, y as int);
    }
    Pixel { r: average(sum_r, sum_w), g: average(sum_g, sum_w), b: average(sum_b, sum_w) }
}

/// Denoises `img` by non-local means over square windows of radius
/// `window_size`, clipped at the borders of the image, with the similarity
/// weights of `weights`. The red, green and blue channels are averaged.
///
/// Fails with `InvalidParameter` exactly when `window_size` is negative.
/// Otherwise the result has the dimensions of `img` and holds at every
/// position the weighted average that `denoised_pixel` defines; with a window
/// of radius zero it is `img` itself.
pub fn non_local_means(img: &ImageBuffer, window_size: i32, weights: &WeightTable) -> (out: Result<
    ImageBuffer,
    Error,
>)
    ensures
        match out {
            Ok(clean) => {
                &&& window_size >= 0
                &&& clean@ == denoised(img@, window_size as nat, weights@)
                &&& clean@.width == img@.width
                &&& clean@.height == img@.height
                &&& clean@.wf()
                &&& window_size == 0 ==> clean@ == img@
            },
            Err(e) => window_size < 0 && e == Error::InvalidParameter,
        },
{
    if window_size < 0 {
        return Err(Error::InvalidParameter);
    }
    let radius = window_size as u32;
    // Every pixel counts in its own average, with a positive weight.
    let own_weight = weights.weight(0);
    assert(own_weight > 0);
    let width = img.width();
    let height = img.height();
    let len = img.pixels().len();
    let mut cleaned: Vec<Pixel> = Vec::new();
    let mut i: usize = 0;
    while i < len
        invariant
            i <= len,
            len == img@.pixels.len(),
            img@.wf(),
            valid_weights(weights@),
            width == img@.width,
            height == img@.height,
            cleaned.len() == i,
            forall|m: int|
                0 <= m < i ==> #[trigger] cleaned[m] == denoised_pixel(
                    img@,
                    radius as nat,
                    weights@,
                    m % (width as int),
                    m / (width as int),
                ),
        decreases len - i,
    {
        proof {
            lemma_position_of_index(width as nat, height as nat, i as int);
        }
        let x = (i % (width as usize)) as u32;
        let y = (i / (width as usize)) as u32;
        cleaned.push(denoise_pixel(img, radius, weights, x, y));
        i += 1;
    }
    assert(cleaned@ =~= denoised(img@, radius as nat, weights@).pixels);
    proof {
        if radius == 0 {
            lemma_zero_window_is_identity(img@, weights@);
        }
    }
    ImageBuffer::new(width, height, cleaned)
}

/// A value weighted and divided by the same weight is unchanged.
proof fn lemma_exact_average(weight: int, value: int)
    requires
        weight > 0,
        0 <= value,
    ensures
        (weight * value) / weight == value,
{
    vstd::arithmetic::div_mod::lemma_div_multiples_vanish(value, weight);
    assert(weight * value == value * weight) by (nonlinear_arith);
}

/// With a window of radius zero every pixel is its own only neighbour, so
/// denoising returns the image unchanged.
pub proof fn lemma_zero_window_is_identity(img: ImageView, weights: Seq<u32>)
    requires
        img.wf(),
        valid_weights(weights),
    ensures
        denoised(img, 0, weights) == img,
{
    let out = denoised(img, 0, weights);
    assert forall|i: int| 0 <= i < img.pixels.len() implies out.pixels[i] == img.pixels[i] by {
        lemma_position_of_index(img.width, img.height, i);
        let x = i % (img.width as int);
        let y = i / (img.width as int);
        let center = img.pixel(x, y);
        let sums = neighborhood_sums(img, 0, weights, x, y);
        assert(window_sums(img, weights, center, x, x + 1, y, y) == no_sums());
        assert(span_sums(img, weights, center, no_sums(), y, x, x) == no_sums());
        assert(span_sums(img, weights, center, no_sums(), y, x, x + 1) == with_neighbor(
            no_sums(),
            weights,
            center,
            center,
        ));
        assert(sums == with_neighbor(no_sums(), weights, center, center));
        assert(pixel_distance(center, center) == 0);
        let w = weights[0] as int;
        lemma_exact_average(w, center.r as int);
        lemma_exact_average(w, center.g as int);
        lemma_exact_average(w, center.b as int);
    }
    assert(out.pixels =~= img.pixels);
}

/// Every pixel of the image has the colour `color`.
pub open spec fn is_uniform(img: ImageView, color: Pixel) -> bool {
    forall|i: int| 0 <= i < img.pixels.len() ==> #[trigger] img.pixels[i] == color
}

/// In a uniform image, counting a span keeps every channel sum at the sum of
/// weights times the colour's channel.
proof fn lemma_uniform_span(
    img: ImageView,
    weights: Seq<u32>,
    color: Pixel,
    sums: WeightedSums,
    y: int,
    x_lo: int,
    x_hi: int,
)
    requires
        img.wf(),
        is_uniform(img, color),
        0 <= x_lo,
        x_hi <= img.width,
        0 <= y < img.height,
        sums.r == sums.weight * color.r,
        sums.g == sums.weight * color.g,
        sums.b == sums.weight * color.b,
    ensures
        span_sums(img, weights, color, sums, y, x_lo, x_hi).r == span_sums(
            img,
            weights,
            color,
            sums,
            y,
            x_lo,
            x_hi,
        ).weight * color.r,
        span_sums(img, weights, color, sums, y, x_lo, x_hi).g == span_sums(
            img,
            weights,
            color,
            sums,
            y,
            x_lo,
            x_hi,
        ).weight * color.g,
        span_sums(img, weights, color, sums, y, x_lo, x_hi).b == span_sums(
            img,
            weights,
            color,
            sums,
            y,
            x_lo,
            x_hi,
        ).weight * color.b,
    decreases x_hi - x_lo,
{
    if x_hi > x_lo {
        lemma_uniform_span(img, weights, color, sums, y, x_lo, x_hi - 1);
        lemma_index_in_bounds(img.width, img.height, x_hi - 1, y);
        let before = span_sums(img, weights, color, sums, y, x_lo, x_hi - 1);
        let w = weight_at(weights, pixel_distance(color, color)) as int;
        assert(img.pixel(x_hi - 1, y) == color);
        assert((before.weight + w) * color.r == before.weight * color.r + w * color.r)
            by (nonlinear_arith);
        assert((before.weight + w) * color.g == before.weight * color.g + w * color.g)
            by (nonlinear_arith);
        assert((before.weight + w) * color.b == before.weight * color.b + w * color.b)
            by (nonlinear_arith);
    }
}

/// In a uniform image, every channel sum of a window is its sum of weights
/// times the colour's channel.
proof fn lemma_uniform_window(
    img: ImageView,
    weights: Seq<u32>,
    color: Pixel,
    x_lo: int,
    x_hi: int,
    y_lo: int,
    y_hi: int,
)
    requires
        img.wf(),
        is_uniform(img, color),
        0 <= x_lo,
        x_hi <= img.width,
        0 <= y_lo,
        y_hi <= img.height,
    ensures
        window_sums(img, weights, color, x_lo, x_hi, y_lo, y_hi).r == window_sums(
            img,
            weights,
            color,
            x_lo,
            x_hi,
            y_lo,
            y_hi,
        ).weight * color.r,
        window_sums(img, weights, color, x_lo, x_hi, y_lo, y_hi).g == window_sums(
            img,
            weights,
            color,
            x_lo,
            x_hi,
            y_lo,
            y_hi,
        ).weight * color.g,
        window_sums(img, weights, color, x_lo, x_hi, y_lo, y_hi).b == window_sums(
            img,
            weights,
            color,
            x_lo,
            x_hi,
            y_lo,
            y_hi,
        ).weight * color.b,
    decreases y_hi - y_lo,
{
    if y_hi > y_lo {
        lemma_uniform_window(img, weights, color, x_lo, x_hi, y_lo, y_hi - 1);
        lemma_uniform_span(
            img,
            weights,
            color,
            window_sums(img, weights, color, x_lo, x_hi, y_lo, y_hi - 1),
            y_hi - 1,
            x_lo,
            x_hi,
        );
    }
}

/// An image of a single colour is a fixed point of the denoiser, whatever the
/// window radius and the weights.
pub proof fn lemma_uniform_is_fixed_point(
    img: ImageView,
    color: Pixel,
    radius: nat,
    weights: Seq<u32>,
)
    requires
        img.wf(),
        is_uniform(img, color),
        valid_weights(weights),
    ensures
        denoised(img, radius, weights) == img,
{
    let out = denoised(img, radius, weights);
    assert forall|i: int| 0 <= i < img.pixels.len() implies out.pixels[i] == img.pixels[i] by {
        lemma_position_of_index(img.width, img.height, i);
        let x = i % (img.width as int);
        let y = i / (img.width as int);
        assert(img.pixel(x, y) == color);
        let r = radius as int;
        lemma_uniform_window(
            img,
            weights,
            color,
            window_start(x, r),
            window_end(x, r, img.width as int),
            window_start(y, r),
            window_end(y, r, img.height as int),
        );
        lemma_neighborhood_sums(img, radius, weights, x, y);
        let sums = neighborhood_sums(img, radius, weights, x, y);
        lemma_exact_average(sums.weight as int, color.r as int);
        lemma_exact_average(sums.weight as int, color.g as int);
        lemma_exact_average(sums.weight as int, color.b as int);
    }
    assert(out.pixels =~= img.pixels);
}

} // verus!
