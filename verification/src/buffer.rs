//! The pixel grid: an RGB image with explicit width and height, its
//! single-channel counterpart, and the conversions between grids and
//! interleaved channel bytes.

use vstd::prelude::*;
use crate::error::Error;

verus! {

/// One pixel: red, green and blue intensities.
#[derive(Clone, Copy, Debug, PartialEq, Eq, Structural)]
pub struct Pixel {
    pub r: u8,
    pub g: u8,
    pub b: u8,
}

/// The mathematical content of an RGB image: its dimensions and its pixels in
/// row-major order, origin at the top left.
pub struct ImageView {
    pub width: nat,
    pub height: nat,
    pub pixels: Seq<Pixel>,
}

impl ImageView {
    /// There is exactly one pixel per grid position.
    pub open spec fn wf(self) -> bool {
        self.pixels.len() == self.width * self.height
    }

    /// Whether `(x, y)` is a position of the grid.
    pub open spec fn contains(self, x: int, y: int) -> bool {
        0 <= x < self.width && 0 <= y < self.height
    }

    /// The pixel in column `x` of row `y`.
    pub open spec fn pixel(self, x: int, y: int) -> Pixel {
        self.pixels[y * self.width + x]
    }
}

/// A position inside a `width` by `height` grid has a row-major index below
/// `width * height`.
pub proof fn lemma_index_in_bounds(width: nat, height: nat, x: int, y: int)
    requires
        0 <= x < width,
        0 <= y < height,
    ensures
        0 <= y * width + x < width * height,
        (y * width + x) / (width as int) == y,
        (y * width + x) % (width as int) == x,
{
    assert(0 <= y * width) by (nonlinear_arith)
        requires
            0 <= y,
            0 <= width,
    ;
    assert(y * width + width <= width * height) by (nonlinear_arith)
        requires
            y + 1 <= height,
            0 <= width,
    ;
    vstd::arithmetic::div_mod::lemma_fundamental_div_mod_converse(
        y * width + x,
        width as int,
        y,
        x,
    );
}

/// A row-major index below `width * height` names the position in column
/// `i % width` of row `i / width`.
pub proof fn lemma_position_of_index(width: nat, height: nat, i: int)
    requires
        0 <= i < width * height,
    ensures
        width > 0,
        0 <= i % (width as int) < width,
        0 <= i / (width as int) < height,
        (i / (width as int)) * width + i % (width as int) == i,
{
    if width == 0 {
        assert(width * height == 0) by (nonlinear_arith)
            requires
                width == 0,
        ;
    }
    let w = width as int;
    vstd::arithmetic::div_mod::lemma_fundamental_div_mod(i, w);
    vstd::arithmetic::div_mod::lemma_mod_bound(i, w);
    vstd::arithmetic::div_mod::lemma_div_pos_is_pos(i, w);
    if i / w >= height {
        assert(w * (i / w) >= w * height) by (nonlinear_arith)
            requires
                i / w >= height,
                w > 0,
        ;
    }
    assert(w * (i / w) == (i / w) * w) by (nonlinear_arith);
}

/// The number of positions in a `width` by `height` grid.
pub fn pixel_count(width: u32, height: u32) -> (n: u64)
    ensures
        n == width * height,
{
    assert(width * height <= 0xFFFF_FFFF * 0xFFFF_FFFF) by (nonlinear_arith)
        requires
            0 <= width <= 0xFFFF_FFFF,
            0 <= height <= 0xFFFF_FFFF,
    ;
    (width as u64) * (height as u64)
}

/// The row-major index of position `(x, y)` in a grid whose positions can all
/// be indexed.
pub(crate) fn grid_index(width: u32, height: u32, x: u32, y: u32) -> (i: usize)
    requires
        x < width,
        y < height,
        width * height <= usize::MAX,
    ensures
        i == y * width + x,
        i < width * height,
{
    proof {
        lemma_index_in_bounds(width as nat, height as nat, x as int, y as int);
    }
    (y as usize) * (width as usize) + (x as usize)
}

/// An RGB image. Its pixel count always equals `width * height`.
#[derive(Debug, PartialEq, Eq)]
pub struct ImageBuffer {
    width: u32,
    height: u32,
    pixels: Vec<Pixel>,
}

impl View for ImageBuffer {
    type V = ImageView;

    closed spec fn view(&self) -> ImageView {
        ImageView { width: self.width as nat, height: self.height as nat, pixels: self.pixels@ }
    }
}

impl ImageBuffer {
    #[verifier::type_invariant]
    spec fn inv(self) -> bool {
        self.pixels@.len() == (self.width as nat) * (self.height as nat)
    }

    /// Builds an image from its dimensions and its pixels in row-major order.
    /// Fails exactly when the number of pixels is not `width * height`.
    pub fn new(width: u32, height: u32, pixels: Vec<Pixel>) -> (out: Result<ImageBuffer, Error>)
        ensures
            match out {
                Ok(img) => pixels@.len() == width * height && img@ == (ImageView {
                    width: width as nat,
                    height: height as nat,
                    pixels: pixels@,
                }),
                Err(e) => pixels@.len() != width * height && e == Error::InvalidParameter,
            },
    {
        let expected: u64 = pixel_count(width, height);
        if pixels.len() as u64 == expected {
            Ok(ImageBuffer { width, height, pixels })
        } else {
            Err(Error::InvalidParameter)
        }
    }

    /// The number of columns.
    pub fn width(&self) -> (w: u32)
        ensures
            w == self@.width,
            self@.wf(),
    {
        proof {
            use_type_invariant(self);
        }
        self.width
    }

    /// The number of rows.
    pub fn height(&self) -> (h: u32)
        ensures
            h == self@.height,
            self@.wf(),
    {
        proof {
            use_type_invariant(self);
        }
        self.height
    }

    /// The pixels in row-major order.
    pub fn pixels(&self) -> (p: &Vec<Pixel>)
        ensures
            p@ == self@.pixels,
            self@.wf(),
    {
        proof {
            use_type_invariant(self);
        }
        &self.pixels
    }

    /// The pixel in column `x` of row `y`, or `None` outside the grid.
    pub fn get_pixel(&self, x: u32, y: u32) -> (p: Option<Pixel>)
        ensures
            self@.wf(),
            self@.contains(x as int, y as int) ==> p == Some(self@.pixel(x as int, y as int)),
            !self@.contains(x as int, y as int) ==> p.is_none(),
    {
        proof {
            use_type_invariant(self);
        }
        let len = self.pixels.len();
        if x < self.width && y < self.height {
            assert(self.width * self.height == len);
            let i: usize = grid_index(self.width, self.height, x, y);
            Some(self.pixels[i])
        } else {
            None
        }
    }
}

/// Channel `c` of a pixel: 0 is red, 1 is green, anything else blue.
pub open spec fn channel(p: Pixel, c: int) -> u8 {
    if c == 0 {
        p.r
    } else if c == 1 {
        p.g
    } else {
        p.b
    }
}

/// The pixels as bytes: red, green and blue of each pixel in turn.
pub open spec fn interleaved(pixels: Seq<Pixel>) -> Seq<u8> {
    Seq::new(3 * pixels.len(), |i: int| channel(pixels[i / 3], i % 3))
}

/// The pixels that a sequence of bytes holds, three bytes to the pixel. Bytes
/// past the last full pixel are not read.
pub open spec fn deinterleaved(data: Seq<u8>) -> Seq<Pixel> {
    Seq::new(
        data.len() / 3,
        |i: int| Pixel { r: data[3 * i], g: data[3 * i + 1], b: data[3 * i + 2] },
    )
}

/// Reading back the bytes of a sequence of pixels gives the same pixels.
pub proof fn lemma_raw_round_trip(pixels: Seq<Pixel>)
    ensures
        deinterleaved(interleaved(pixels)) == pixels,
{
    let data = interleaved(pixels);
    assert(data.len() / 3 == pixels.len());
    assert forall|i: int| 0 <= i < pixels.len() implies deinterleaved(data)[i] == pixels[i] by {
        assert((3 * i) / 3 == i && (3 * i) % 3 == 0);
        assert((3 * i + 1) / 3 == i && (3 * i + 1) % 3 == 1);
        assert((3 * i + 2) / 3 == i && (3 * i + 2) % 3 == 2);
    }
    assert(deinterleaved(data) =~= pixels);
}

/// The pixels as bytes with an opaque alpha channel: red, green, blue and 255
/// for each pixel in turn.
pub open spec fn with_alpha(pixels: Seq<Pixel>) -> Seq<u8> {
    Seq::new(
        4 * pixels.len(),
        |i: int|
            if i % 4 == 3 {
                255u8
            } else {
                channel(pixels[i / 4], i % 4)
            },
    )
}

/// The pixels that a sequence of bytes holds, four bytes to the pixel, the
/// fourth of each dropped.
pub open spec fn without_alpha(data: Seq<u8>) -> Seq<Pixel> {
    Seq::new(
        data.len() / 4,
        |i: int| Pixel { r: data[4 * i], g: data[4 * i + 1], b: data[4 * i + 2] },
    )
}

/// Dropping the alpha channel that `with_alpha` added gives the same pixels.
pub proof fn lemma_alpha_round_trip(pixels: Seq<Pixel>)
    ensures
        without_alpha(with_alpha(pixels)) == pixels,
{
    let data = with_alpha(pixels);
    assert(data.len() / 4 == pixels.len());
    assert forall|i: int| 0 <= i < pixels.len() implies without_alpha(data)[i] == pixels[i] by {
        assert((4 * i) / 4 == i && (4 * i) % 4 == 0);
        assert((4 * i + 1) / 4 == i && (4 * i + 1) % 4 == 1);
        assert((4 * i + 2) / 4 == i && (4 * i + 2) % 4 == 2);
    }
    assert(without_alpha(data) =~= pixels);
}

/// Reads `count` pixels from bytes laid out `stride` to the pixel, taking the
/// first three of each.
fn pixels_from_bytes(data: &Vec<u8>, stride: usize, count: usize) -> (pixels: Vec<Pixel>)
    requires
        3 <= stride <= 4,
        data.len() == stride * count,
    ensures
        pixels.len() == count,
        forall|i: int|
            0 <= i < count ==> #[trigger] pixels[i] == (Pixel {
                r: data[stride * i],
                g: data[stride * i + 1],
                b: data[stride * i + 2],
            }),
{
    let mut pixels: Vec<Pixel> = Vec::new();
    let mut i: usize = 0;
    while i < count
        invariant
            i <= count,
            3 <= stride <= 4,
            data.len() == stride * count,
            pixels.len() == i,
            forall|m: int|
                0 <= m < i ==> #[trigger] pixels[m] == (Pixel {
                    r: data[stride * m],
                    g: data[stride * m + 1],
                    b: data[stride * m + 2],
                }),
        decreases count - i,
    {
        assert(stride * i + stride <= stride * count) by (nonlinear_arith)
            requires
                i + 1 <= count,
                0 <= stride,
        ;
        let at = stride * i;
        pixels.push(Pixel { r: data[at], g: data[at + 1], b: data[at + 2] });
        i += 1;
    }
    pixels
}

impl ImageBuffer {
    /// Reads an image from interleaved RGB bytes. Fails exactly when the
    /// number of bytes is not `3 * width * height`.
    pub fn from_raw(width: u32, height: u32, data: &Vec<u8>) -> (out: Result<ImageBuffer, Error>)
        ensures
            match out {
                Ok(img) => data@.len() == 3 * (width * height) && img@ == (ImageView {
                    width: width as nat,
                    height: height as nat,
                    pixels: deinterleaved(data@),
                }),
                Err(e) => data@.len() != 3 * (width * height) && e == Error::InvalidParameter,
            },
    {
        let count = pixel_count(width, height);
        if data.len() as u128 != 3 * (count as u128) {
            return Err(Error::InvalidParameter);
        }
        let pixels = pixels_from_bytes(data, 3, count as usize);
        assert(pixels@ =~= deinterleaved(data@));
        ImageBuffer::new(width, height, pixels)
    }

    /// Reads an image from interleaved RGBA bytes, dropping the alpha channel.
    /// Fails exactly when the number of bytes is not `4 * width * height`.
    pub fn from_rgba(width: u32, height: u32, data: &Vec<u8>) -> (out: Result<ImageBuffer, Error>)
        ensures
            match out {
                Ok(img) => data@.len() == 4 * (width * height) && img@ == (ImageView {
                    width: width as nat,
                    height: height as nat,
                    pixels: without_alpha(data@),
                }),
                Err(e) => data@.len() != 4 * (width * height) && e == Error::InvalidParameter,
            },
    {
        let count = pixel_count(width, height);
        if data.len() as u128 != 4 * (count as u128) {
            return Err(Error::InvalidParameter);
        }
        let pixels = pixels_from_bytes(data, 4, count as usize);
        assert(pixels@ =~= without_alpha(data@));
        ImageBuffer::new(width, height, pixels)
    }

    /// The image as interleaved RGB bytes, rows from the top, three bytes to
    /// the pixel.
    pub fn to_raw(&self) -> (data: Vec<u8>)
        ensures
            data@ == interleaved(self@.pixels),
    {
        let mut data: Vec<u8> = Vec::new();
        let mut i: usize = 0;
        while i < self.pixels.len()
            invariant
                i <= self.pixels.len(),
                data.len() == 3 * i,
                forall|m: int|
                    0 <= m < 3 * i ==> #[trigger] data[m] == channel(self.pixels@[m / 3], m % 3),
            decreases self.pixels.len() - i,
        {
            let p = self.pixels[i];
            data.push(p.r);
            data.push(p.g);
            data.push(p.b);
            i += 1;
        }
        assert(data@ =~= interleaved(self@.pixels));
        data
    }

    /// The image as interleaved RGBA bytes with every pixel opaque.
    pub fn to_rgba(&self) -> (data: Vec<u8>)
        ensures
            data@ == with_alpha(self@.pixels),
    {
        let mut data: Vec<u8> = Vec::new();
        let mut i: usize = 0;
        while i < self.pixels.len()
            invariant
                i <= self.pixels.len(),
                data.len() == 4 * i,
                forall|m: int|
                    0 <= m < 4 * i ==> #[trigger] data[m] == if m % 4 == 3 {
                        255u8
                    } else {
                        channel(self.pixels@[m / 4], m % 4)
                    },
            decreases self.pixels.len() - i,
        {
            let p = self.pixels[i];
            data.push(p.r);
            data.push(p.g);
            data.push(p.b);
            data.push(255);
            i += 1;
        }
        assert(data@ =~= with_alpha(self@.pixels));
        data
    }
}

/// Writing an image as bytes and reading the bytes back gives the same image.
pub proof fn lemma_image_round_trip(img: ImageView)
    requires
        img.wf(),
    ensures
        interleaved(img.pixels).len() == 3 * (img.width * img.height),
        (ImageView {
            width: img.width,
            height: img.height,
            pixels: deinterleaved(interleaved(img.pixels)),
        }) == img,
{
    lemma_raw_round_trip(img.pixels);
}

/// The mathematical content of a single-channel image.
pub struct GrayView {
    pub width: nat,
    pub height: nat,
    pub pixels: Seq<u8>,
}

impl GrayView {
    /// There is exactly one intensity per grid position.
    pub open spec fn wf(self) -> bool {
        self.pixels.len() == self.width * self.height
    }

    /// Whether `(x, y)` is a position of the grid.
    pub open spec fn contains(self, x: int, y: int) -> bool {
        0 <= x < self.width && 0 <= y < self.height
    }

    /// The intensity in column `x` of row `y`.
    pub open spec fn pixel(self, x: int, y: int) -> u8 {
        self.pixels[y * self.width + x]
    }
}

/// A single-channel image. Its pixel count always equals `width * height`.
#[derive(Debug, PartialEq, Eq)]
pub struct GrayImage {
    width: u32,
    height: u32,
    pixels: Vec<u8>,
}

impl View for GrayImage {
    type V = GrayView;

    closed spec fn view(&self) -> GrayView {
        GrayView { width: self.width as nat, height: self.height as nat, pixels: self.pixels@ }
    }
}

impl GrayImage {
    #[verifier::type_invariant]
    spec fn inv(self) -> bool {
        self.pixels@.len() == (self.width as nat) * (self.height as nat)
    }

    /// Builds an image from its dimensions and its intensities in row-major
    /// order. Fails exactly when their number is not `width * height`.
    pub fn new(width: u32, height: u32, pixels: Vec<u8>) -> (out: Result<GrayImage, Error>)
        ensures
            match out {
                Ok(img) => pixels@.len() == width * height && img@ == (GrayView {
                    width: width as nat,
                    height: height as nat,
                    pixels: pixels@,
                }),
                Err(e) => pixels@.len() != width * height && e == Error::InvalidParameter,
            },
    {
        let expected: u64 = pixel_count(width, height);
        if pixels.len() as u64 == expected {
            Ok(GrayImage { width, height, pixels })
        } else {
            Err(Error::InvalidParameter)
        }
    }

    /// The number of columns.
    pub fn width(&self) -> (w: u32)
        ensures
            w == self@.width,
            self@.wf(),
    {
        proof {
            use_type_invariant(self);
        }
        self.width
    }

    /// The number of rows.
    pub fn height(&self) -> (h: u32)
        ensures
            h == self@.height,
            self@.wf(),
    {
        proof {
            use_type_invariant(self);
        }
        self.height
    }

    /// The intensities in row-major order.
    pub fn pixels(&self) -> (p: &Vec<u8>)
        ensures
            p@ == self@.pixels,
            self@.wf(),
    {
        proof {
            use_type_invariant(self);
        }
        &self.pixels
    }

    /// The image as an RGB image with the intensity in all three channels.
    pub fn to_rgb(&self) -> (out: ImageBuffer)
        ensures
            out@ == gray_as_rgb(self@),
    {
        proof {
            use_type_invariant(self);
        }
        let mut pixels: Vec<Pixel> = Vec::new();
        let mut i: usize = 0;
        while i < self.pixels.len()
            invariant
                i <= self.pixels.len(),
                pixels.len() == i,
                forall|m: int|
                    0 <= m < i ==> #[trigger] pixels[m] == (Pixel {
                        r: self.pixels@[m],
                        g: self.pixels@[m],
                        b: self.pixels@[m],
                    }),
            decreases self.pixels.len() - i,
        {
            let v = self.pixels[i];
            pixels.push(Pixel { r: v, g: v, b: v });
            i += 1;
        }
        assert(pixels@ =~= gray_as_rgb(self@).pixels);
        ImageBuffer { width: self.width, height: self.height, pixels }
    }
}

/// The RGB image that shows a single-channel image.
pub open spec fn gray_as_rgb(img: GrayView) -> ImageView {
    ImageView {
        width: img.width,
        height: img.height,
        pixels: Seq::new(
            img.pixels.len(),
            |i: int| Pixel { r: img.pixels[i], g: img.pixels[i], b: img.pixels[i] },
        ),
    }
}

/// The luminance of a pixel: its channels weighted 0.2126, 0.7152 and 0.0722,
/// truncated toward zero.
pub open spec fn luma(p: Pixel) -> u8 {
    ((2126 * p.r + 7152 * p.g + 722 * p.b) / 10000) as u8
}

/// The grayscale image of an RGB image: of the same dimensions, every pixel
/// its luminance.
pub open spec fn grayscale_of(img: ImageView) -> GrayView {
    GrayView {
        width: img.width,
        height: img.height,
        pixels: Seq::new(img.pixels.len(), |i: int| luma(img.pixels[i])),
    }
}

/// Computes the luminance of a pixel.
pub fn pixel_luma(p: Pixel) -> (l: u8)
    ensures
        l == luma(p),
{
    ((2126 * (p.r as u32) + 7152 * (p.g as u32) + 722 * (p.b as u32)) / 10000) as u8
}

/// Converts an image to grayscale. The result has the same dimensions.
pub fn to_grayscale(img: &ImageBuffer) -> (gray: GrayImage)
    ensures
        gray@ == grayscale_of(img@),
        gray@.wf(),
{
    let pixels = img.pixels();
    let mut intensities: Vec<u8> = Vec::new();
    let mut i: usize = 0;
    while i < pixels.len()
        invariant
            i <= pixels.len(),
            pixels@ == img@.pixels,
            intensities.len() == i,
            forall|m: int| 0 <= m < i ==> #[trigger] intensities[m] == luma(pixels@[m]),
        decreases pixels.len() - i,
    {
        intensities.push(pixel_luma(pixels[i]));
        i += 1;
    }
    assert(intensities@ =~= grayscale_of(img@).pixels);
    GrayImage { width: img.width(), height: img.height(), pixels: intensities }
}

} // verus!
