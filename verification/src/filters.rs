//! Channel adjustments and blur, computed by the `photon_rs` crate on
//! interleaved RGBA bytes: shifting the red channel, raising the brightness,
//! and Gaussian blur.

use vstd::prelude::*;
use crate::buffer::{
    channel, lemma_alpha_round_trip, with_alpha, without_alpha, ImageBuffer, ImageView, Pixel,
};
use crate::error::Error;

verus! {

/// `v` brought into the range of an intensity.
pub open spec fn clamped(v: int) -> u8 {
    if v < 0 {
        0
    } else if v > 255 {
        255
    } else {
        v as u8
    }
}

/// RGBA bytes with `amt` added to every red byte and the sum clamped.
pub open spec fn red_shifted(data: Seq<u8>, amt: int) -> Seq<u8> {
    Seq::new(
        data.len(),
        |i: int|
            if i % 4 == 0 {
                clamped(data[i] + amt)
            } else {
                data[i]
            },
    )
}

/// RGBA bytes with `brightness` added to the red, green and blue bytes of
/// every pixel but the last, each sum capped at 255. The last pixel and all
/// alpha bytes stay as they are.
pub open spec fn brightened(data: Seq<u8>, brightness: int) -> Seq<u8> {
    Seq::new(
        data.len(),
        |i: int|
            if i % 4 != 3 && 4 * (i / 4) < data.len() - 4 {
                clamped(data[i] + brightness)
            } else {
                data[i]
            },
    )
}

/// The RGBA bytes that `photon_rs::conv::gaussian_blur` leaves in an image of
/// the given bytes and dimensions, for the given radius.
pub uninterp spec fn gaussian_blurred(data: Seq<u8>, width: nat, height: nat, radius: int) -> Seq<
    u8,
>;

/// Calls `photon_rs::channels::alter_red_channel` on a `PhotonImage` of the
/// given bytes. Assumed of it: every fourth byte from the first becomes itself
/// plus `amt`, clamped to 0..=255, and no other byte changes. The crate panics
/// for `amt` above 255.
#[verifier::external_body]
fn photon_alter_red(data: Vec<u8>, width: u32, height: u32, amt: i16) -> (out: Vec<u8>)
    requires
        amt <= 255,
    ensures
        out@ == red_shifted(data@, amt as int),
{
    let mut img = photon_rs::PhotonImage::new(data, width, height);
    photon_rs::channels::alter_red_channel(&mut img, amt);
    img.get_raw_pixels()
}

/// Calls `photon_rs::effects::inc_brightness` on a `PhotonImage` of the given
/// bytes. Assumed of it: it walks the pixels that start before the last four
/// bytes, and adds `brightness` to their first three bytes, capping at 255;
/// nothing else changes. The crate subtracts four from the length, so there
/// must be a pixel.
#[verifier::external_body]
fn photon_inc_brightness(data: Vec<u8>, width: u32, height: u32, brightness: u8) -> (out: Vec<u8>)
    requires
        data@.len() >= 4,
        data@.len() % 4 == 0,
    ensures
        out@ == brightened(data@, brightness as int),
{
    let mut img = photon_rs::PhotonImage::new(data, width, height);
    photon_rs::effects::inc_brightness(&mut img, brightness);
    img.get_raw_pixels()
}

/// Calls `photon_rs::conv::gaussian_blur` on a `PhotonImage` of the given
/// bytes. Assumed of it: the bytes left in the image depend on the arguments
/// alone, and are as many as went in. The crate clamps the radius below half
/// of each dimension and indexes by 32-bit products, so both dimensions must
/// be at least 2, the byte count must fit in `u32`, and the radius must not be
/// negative; outside that it may read past the end of a row.
#[verifier::external_body]
fn photon_gaussian_blur(data: Vec<u8>, width: u32, height: u32, radius: i32) -> (out: Vec<u8>)
    requires
        data@.len() == 4 * (width * height),
        width >= 2,
        height >= 2,
        4 * (width * height) <= u32::MAX,
        radius >= 0,
    ensures
        out@ == gaussian_blurred(data@, width as nat, height as nat, radius as int),
        out@.len() == data@.len(),
{
    let mut img = photon_rs::PhotonImage::new(data, width, height);
    photon_rs::conv::gaussian_blur(&mut img, radius);
    img.get_raw_pixels()
}

/// The image with `amt` added to the red channel of every pixel, clamped.
pub open spec fn red_altered(img: ImageView, amt: int) -> ImageView {
    ImageView {
        width: img.width,
        height: img.height,
        pixels: Seq::new(
            img.pixels.len(),
            |i: int|
                Pixel { r: clamped(img.pixels[i].r + amt), g: img.pixels[i].g, b: img.pixels[i].b },
        ),
    }
}

/// A pixel with `brightness` added to every channel, each sum capped at 255.
pub open spec fn brighter(p: Pixel, brightness: int) -> Pixel {
    Pixel {
        r: clamped(p.r + brightness),
        g: clamped(p.g + brightness),
        b: clamped(p.b + brightness),
    }
}

/// The image with every pixel but the last made brighter. The filter crate
/// leaves the last pixel as it is.
pub open spec fn brightness_raised(img: ImageView, brightness: int) -> ImageView {
    ImageView {
        width: img.width,
        height: img.height,
        pixels: Seq::new(
            img.pixels.len(),
            |i: int|
                if i + 1 < img.pixels.len() {
                    brighter(img.pixels[i], brightness)
                } else {
                    img.pixels[i]
                },
        ),
    }
}

/// The blurred image: the filter crate's result on the opaque RGBA bytes of
/// the image, without the alpha channel.
pub open spec fn blurred(img: ImageView, radius: int) -> ImageView {
    ImageView {
        width: img.width,
        height: img.height,
        pixels: without_alpha(
            gaussian_blurred(with_alpha(img.pixels), img.width, img.height, radius),
        ),
    }
}

/// Whether the blur is defined on an image and a radius: the image has at
/// least two rows and two columns, its RGBA bytes can be counted in 32 bits,
/// and the radius is not negative.
pub open spec fn blur_defined(img: ImageView, radius: int) -> bool {
    &&& radius >= 0
    &&& img.width >= 2
    &&& img.height >= 2
    &&& 4 * (img.width * img.height) <= u32::MAX
}

/// Adds `amt` to the red channel of every pixel, clamping the result.
/// Fails with `InvalidParameter` exactly when `amt` exceeds 255.
pub fn alter_red_channel(img: &ImageBuffer, amt: i16) -> (out: Result<ImageBuffer, Error>)
    ensures
        match out {
            Ok(altered) => amt <= 255 && altered@ == red_altered(img@, amt as int),
            Err(e) => amt > 255 && e == Error::InvalidParameter,
        },
{
    if amt > 255 {
        return Err(Error::InvalidParameter);
    }
    let shifted = photon_alter_red(img.to_rgba(), img.width(), img.height(), amt);
    proof {
        let pixels = img@.pixels;
        assert forall|i: int| 0 <= i < pixels.len() implies #[trigger] without_alpha(shifted@)[i]
            == red_altered(img@, amt as int).pixels[i] by {
            assert((4 * i) / 4 == i && (4 * i) % 4 == 0);
            assert((4 * i + 1) / 4 == i && (4 * i + 1) % 4 == 1);
            assert((4 * i + 2) / 4 == i && (4 * i + 2) % 4 == 2);
        }
        assert(without_alpha(shifted@) =~= red_altered(img@, amt as int).pixels);
    }
    ImageBuffer::from_rgba(img.width(), img.height(), &shifted)
}

/// Raises the brightness of every pixel but the last by `brightness`, capping
/// every channel at 255. With `brightness` zero the image is unchanged.
pub fn inc_brightness(img: &ImageBuffer, brightness: u8) -> (out: ImageBuffer)
    ensures
        out@ == brightness_raised(img@, brightness as int),
        brightness == 0 ==> out@ == img@,
{
    let data = img.to_rgba();
    let raised = if data.len() == 0 {
        data
    } else {
        photon_inc_brightness(data, img.width(), img.height(), brightness)
    };
    proof {
        let pixels = img@.pixels;
        lemma_alpha_round_trip(pixels);
        assert forall|i: int| 0 <= i < pixels.len() implies #[trigger] without_alpha(raised@)[i]
            == brightness_raised(img@, brightness as int).pixels[i] by {
            assert((4 * i) / 4 == i && (4 * i) % 4 == 0);
            assert((4 * i + 1) / 4 == i && (4 * i + 1) % 4 == 1);
            assert((4 * i + 2) / 4 == i && (4 * i + 2) % 4 == 2);
        }
        assert(without_alpha(raised@) =~= brightness_raised(img@, brightness as int).pixels);
        if brightness == 0 {
            assert(brightness_raised(img@, 0).pixels =~= pixels);
        }
    }
    ImageBuffer::from_rgba(img.width(), img.height(), &raised).unwrap()
}

/// Blurs the image with the filter crate's Gaussian blur of the given radius.
/// Fails with `InvalidParameter` exactly when the blur is not defined on the
/// image and radius.
pub fn gaussian_blur(img: &ImageBuffer, radius: i32) -> (out: Result<ImageBuffer, Error>)
    ensures
        match out {
            Ok(soft) => blur_defined(img@, radius as int) && soft@ == blurred(img@, radius as int),
            Err(e) => !blur_defined(img@, radius as int) && e == Error::InvalidParameter,
        },
{
    let width = img.width();
    let height = img.height();
    let count = img.pixels().len();
    if radius < 0 || width < 2 || height < 2 || count > 0x3FFF_FFFF {
        return Err(Error::InvalidParameter);
    }
    let soft = photon_gaussian_blur(img.to_rgba(), width, height, radius);
    ImageBuffer::from_rgba(width, height, &soft)
}

/// A tone curve has one output intensity for each of the 256 input
/// intensities.
pub open spec fn valid_curve(curve: Seq<u8>) -> bool {
    curve.len() == 256
}

/// The curve that maps every intensity to itself.
pub open spec fn identity_curve() -> Seq<u8> {
    Seq::new(256, |v: int| v as u8)
}

/// A contrast adjustment, tabulated: entry `v` is the intensity that input
/// intensity `v` becomes. A table for a contrast setting holds the filter
/// crate's contrast formula evaluated at every intensity.
#[derive(Debug, PartialEq, Eq)]
pub struct ToneCurve {
    table: Vec<u8>,
}

impl View for ToneCurve {
    type V = Seq<u8>;

    closed spec fn view(&self) -> Seq<u8> {
        self.table@
    }
}

impl ToneCurve {
    #[verifier::type_invariant]
    spec fn inv(self) -> bool {
        valid_curve(self.table@)
    }

    /// Builds a curve from its entries. Fails exactly when there are not 256.
    pub fn new(table: Vec<u8>) -> (out: Result<ToneCurve, Error>)
        ensures
            match out {
                Ok(curve) => valid_curve(table@) && curve@ == table@,
                Err(e) => !valid_curve(table@) && e == Error::InvalidParameter,
            },
    {
        if table.len() == 256 {
            Ok(ToneCurve { table })
        } else {
            Err(Error::InvalidParameter)
        }
    }

    /// The curve that changes nothing.
    pub fn identity() -> (curve: ToneCurve)
        ensures
            curve@ == identity_curve(),
    {
        let mut table: Vec<u8> = Vec::new();
        let mut v: usize = 0;
        while v < 256
            invariant
                v <= 256,
                table.len() == v,
                forall|m: int| 0 <= m < v ==> #[trigger] table[m] == m,
            decreases 256 - v,
        {
            table.push(v as u8);
            v += 1;
        }
        assert(table@ =~= identity_curve());
        ToneCurve { table }
    }

    /// The intensity that `v` becomes.
    pub fn apply(&self, v: u8) -> (toned: u8)
        ensures
            toned == self@[v as int],
            valid_curve(self@),
    {
        proof {
            use_type_invariant(self);
        }
        self.table[v as usize]
    }
}

/// The image with every channel of every pixel sent through the curve.
pub open spec fn toned(img: ImageView, curve: Seq<u8>) -> ImageView {
    ImageView {
        width: img.width,
        height: img.height,
        pixels: Seq::new(
            img.pixels.len(),
            |i: int|
                Pixel {
                    r: curve[img.pixels[i].r as int],
                    g: curve[img.pixels[i].g as int],
                    b: curve[img.pixels[i].b as int],
                },
        ),
    }
}

/// Sends every channel of every pixel through the curve.
pub fn apply_tone_curve(img: &ImageBuffer, curve: &ToneCurve) -> (out: ImageBuffer)
    ensures
        out@ == toned(img@, curve@),
{
    let pixels = img.pixels();
    let mut mapped: Vec<Pixel> = Vec::new();
    let mut i: usize = 0;
    while i < pixels.len()
        invariant
            i <= pixels.len(),
            pixels@ == img@.pixels,
            mapped.len() == i,
            forall|m: int|
                0 <= m < i ==> #[trigger] mapped[m] == (Pixel {
                    r: curve@[pixels@[m].r as int],
                    g: curve@[pixels@[m].g as int],
                    b: curve@[pixels@[m].b as int],
                }),
        decreases pixels.len() - i,
    {
        let p = pixels[i];
        mapped.push(Pixel { r: curve.apply(p.r), g: curve.apply(p.g), b: curve.apply(p.b) });
        i += 1;
    }
    assert(mapped@ =~= toned(img@, curve@).pixels);
    ImageBuffer::new(img.width(), img.height(), mapped).unwrap()
}

/// The restored image: brightness raised, then contrast adjusted by the curve.
pub open spec fn restored(img: ImageView, brightness: int, curve: Seq<u8>) -> ImageView {
    toned(brightness_raised(img, brightness), curve)
}

/// Restoring with brightness zero and the identity curve returns the image
/// unchanged.
pub proof fn lemma_neutral_restore_is_identity(img: ImageView)
    ensures
        restored(img, 0, identity_curve()) == img,
{
    assert(brightness_raised(img, 0).pixels =~= img.pixels);
    assert(toned(img, identity_curve()).pixels =~= img.pixels);
}

} // verus!
