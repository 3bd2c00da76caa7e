//! From raw window-system pixels to an RGB image.
//!
//! Every backend delivers four bytes per pixel in the order blue, green, red,
//! unused, row after row from the top; a bitmap may pad its rows. This module
//! is the only place that knows that layout.

use vstd::prelude::*;

verus! {

/// An owned RGB image: three bytes per pixel, row after row from the top.
///
/// The pixels live in an `image::RgbImage`, which the verifier does not look
/// into; [`image_width`], [`image_height`] and [`image_pixels`] name what it
/// holds.
#[verifier::external_body]
#[derive(Debug)]
pub struct RgbImage {
    buffer: image::RgbImage,
}

/// The width that `ImageBuffer::width` reports of the image held.
pub uninterp spec fn image_width(image: RgbImage) -> nat;

/// The height that `ImageBuffer::height` reports of the image held.
pub uninterp spec fn image_height(image: RgbImage) -> nat;

/// The pixels of the image held: for each column and row inside it, the red,
/// green and blue sample that `ImageBuffer::get_pixel` reports there.
pub uninterp spec fn image_pixels(image: RgbImage) -> Map<(int, int), (u8, u8, u8)>;

/// What an image is, to the contracts of this crate.
pub struct Raster {
    pub width: nat,
    pub height: nat,
    pub pixels: Map<(int, int), (u8, u8, u8)>,
}

impl View for RgbImage {
    type V = Raster;

    open spec fn view(&self) -> Raster {
        Raster {
            width: image_width(*self),
            height: image_height(*self),
            pixels: image_pixels(*self),
        }
    }
}

/// The coordinates (column, row) inside an image of the given size.
pub open spec fn inside(width: nat, height: nat, at: (int, int)) -> bool {
    0 <= at.0 < width && 0 <= at.1 < height
}

/// The red, green and blue byte of the `index`-th quad of a raw buffer.
pub open spec fn quad_rgb(data: Seq<u8>, index: int) -> (u8, u8, u8) {
    (data[4 * index + 2], data[4 * index + 1], data[4 * index])
}

/// The image that a raw buffer stands for: pixel (x, y) is quad `y * width + x`.
pub open spec fn normalized(data: Seq<u8>, width: nat, height: nat) -> Raster {
    Raster {
        width,
        height,
        pixels: Map::new(
            |at: (int, int)| inside(width, height, at),
            |at: (int, int)| quad_rgb(data, at.1 * width + at.0),
        ),
    }
}

/// Whether an image of `width` x `height` can be allocated: the samples of
/// one row can be counted, and those of all rows fit in one allocation.
pub open spec fn allocable(width: nat, height: nat) -> bool {
    3 * width <= usize::MAX && 3 * width * height <= isize::MAX
}

/// Whether a raw buffer of `len` bytes can be normalized to `width` x `height`:
/// it holds a quad for every pixel, and the image can be allocated.
pub open spec fn raw_fits(len: nat, width: nat, height: nat) -> bool {
    4 * width * height <= len && allocable(width, height)
}

/// The red, green and blue byte of the pixel in column `at.0` of row `at.1`,
/// in a raw buffer whose rows begin `stride` bytes apart.
pub open spec fn row_rgb(data: Seq<u8>, stride: nat, at: (int, int)) -> (u8, u8, u8) {
    let quad = at.1 * stride + 4 * at.0;
    (data[quad + 2], data[quad + 1], data[quad])
}

/// The image that a raw buffer with padded rows stands for: row y begins at
/// byte `y * stride`, and what follows the quads of a row is dropped.
pub open spec fn normalized_rows(data: Seq<u8>, width: nat, height: nat, stride: nat) -> Raster {
    Raster {
        width,
        height,
        pixels: Map::new(
            |at: (int, int)| inside(width, height, at),
            |at: (int, int)| row_rgb(data, stride, at),
        ),
    }
}

/// Whether a raw buffer of `len` bytes whose rows begin `stride` bytes apart
/// can be normalized to `width` x `height`: a row holds its quads, the buffer
/// reaches to the last quad of the last row, and the image can be allocated.
pub open spec fn rows_fit(len: nat, width: nat, height: nat, stride: nat) -> bool {
    &&& 4 * width <= stride
    &&& height > 0 ==> stride * (height - 1) + 4 * width <= len
    &&& allocable(width, height)
}

/// `ImageBuffer::new`: an image of the given size whose samples are all zero.
/// It counts the samples of a row, then those of all rows, and panics when
/// either count overflows or the buffer would not fit in one allocation; the
/// precondition rules out all three.
#[verifier::external_body]
fn blank_image(width: u32, height: u32) -> (image: RgbImage)
    requires
        allocable(width as nat, height as nat),
    ensures
        image_width(image) == width,
        image_height(image) == height,
        image_pixels(image) == Map::new(
            |at: (int, int)| inside(width as nat, height as nat, at),
            |at: (int, int)| (0u8, 0u8, 0u8),
        ),
{
    RgbImage { buffer: image::RgbImage::new(width, height) }
}

/// `ImageBuffer::put_pixel`: replaces the pixel at column `x`, row `y` and
/// leaves the size and every other pixel as they were. It panics outside the
/// image, which the precondition rules out.
#[verifier::external_body]
fn put_pixel(image: &mut RgbImage, x: u32, y: u32, red: u8, green: u8, blue: u8)
    requires
        x < image_width(*old(image)),
        y < image_height(*old(image)),
    ensures
        image_width(*final(image)) == image_width(*old(image)),
        image_height(*final(image)) == image_height(*old(image)),
        image_pixels(*final(image)) == image_pixels(*old(image)).insert(
            (x as int, y as int),
            (red, green, blue),
        ),
{
    image.buffer.put_pixel(x, y, image::Rgb([red, green, blue]));
}

/// `ImageBuffer::width`.
#[verifier::external_body]
fn width_of(image: &RgbImage) -> (width: u32)
    ensures
        width == image_width(*image),
{
    image.buffer.width()
}

/// `ImageBuffer::height`.
#[verifier::external_body]
fn height_of(image: &RgbImage) -> (height: u32)
    ensures
        height == image_height(*image),
{
    image.buffer.height()
}

/// `ImageBuffer::get_pixel`: the samples at column `x`, row `y`. It panics
/// outside the image, which the precondition rules out.
#[verifier::external_body]
fn pixel_of(image: &RgbImage, x: u32, y: u32) -> (rgb: (u8, u8, u8))
    requires
        x < image_width(*image),
        y < image_height(*image),
    ensures
        rgb == image_pixels(*image)[(x as int, y as int)],
{
    let pixel = image.buffer.get_pixel(x, y);
    (pixel.0[0], pixel.0[1], pixel.0[2])
}

/// One sample of a pixel: red, green or blue as `channel` is 0, 1 or 2.
pub open spec fn sample(rgb: (u8, u8, u8), channel: int) -> u8 {
    if channel == 0 {
        rgb.0
    } else if channel == 1 {
        rgb.1
    } else {
        rgb.2
    }
}

/// The samples of an image in storage order: row after row from the top,
/// pixel after pixel from the left, red, green and blue of each.
pub open spec fn samples(raster: Raster) -> Seq<u8> {
    let width = raster.width as int;
    Seq::new(
        3 * raster.width * raster.height,
        |at: int| sample(raster.pixels[((at / 3) % width, (at / 3) / width)], at % 3),
    )
}

/// `ImageBuffer::into_raw`: the buffer of the image. An image of this crate
/// is always made by `ImageBuffer::new`, so the buffer holds exactly three
/// samples for every pixel, in storage order.
#[verifier::external_body]
fn raw_of(image: RgbImage) -> (raw: Vec<u8>)
    ensures
        raw@ == samples(image@),
{
    image.buffer.into_raw()
}

proof fn lemma_row_in_bounds(x: int, y: int, width: int, height: int, stride: int)
    by (nonlinear_arith)
    requires
        0 <= x < width,
        0 <= y < height,
        4 * width <= stride,
    ensures
        0 <= y * stride <= stride * (height - 1),
        0 <= y * stride + 4 * x,
        y * stride + 4 * x + 4 <= stride * (height - 1) + 4 * width,
{
}

proof fn lemma_packed_rows(data: Seq<u8>, width: nat, height: nat)
    ensures
        normalized_rows(data, width, height, 4 * width) == normalized(data, width, height),
        height > 0 ==> (4 * width) * (height - 1) + 4 * width == 4 * width * height,
        height > 0 ==> 4 * width <= 4 * width * height,
{
    assert forall|at: (int, int)| inside(width, height, at) implies row_rgb(data, 4 * width, at)
        == quad_rgb(data, at.1 * width + at.0) by {
        assert(at.1 * (4 * width) + 4 * at.0 == 4 * (at.1 * width + at.0)) by (nonlinear_arith);
    }
    assert(normalized_rows(data, width, height, 4 * width).pixels =~= normalized(
        data,
        width,
        height,
    ).pixels);
    if height > 0 {
        assert((4 * width) * (height - 1) + 4 * width == 4 * width * height && 4 * width <= 4
            * width * height) by (nonlinear_arith)
            requires
                height > 0,
        ;
    }
}

fn allocable_size(width: u32, height: u32) -> (fits: bool)
    ensures
        fits == allocable(width as nat, height as nat),
{
    assert(0 <= width * height <= 0xffff_ffff * 0xffff_ffff && 3 * width * height == 3 * (width
        * height)) by (nonlinear_arith)
        requires
            width <= 0xffff_ffff,
            height <= 0xffff_ffff,
    ;
    let pixels: u128 = (width as u128) * (height as u128);
    3 * (width as u128) <= usize::MAX as u128 && 3 * pixels <= isize::MAX as u128
}

/// Whether a raw buffer of `len` bytes can be normalized to the given size.
pub fn raw_buffer_fits(len: usize, width: u32, height: u32) -> (fits: bool)
    ensures
        fits == raw_fits(len as nat, width as nat, height as nat),
{
    assert(0 <= width * height <= 0xffff_ffff * 0xffff_ffff && 4 * width * height == 4 * (width
        * height)) by (nonlinear_arith)
        requires
            width <= 0xffff_ffff,
            height <= 0xffff_ffff,
    ;
    let pixels: u128 = (width as u128) * (height as u128);
    4 * pixels <= len as u128 && allocable_size(width, height)
}

/// Whether a raw buffer of `len` bytes whose rows begin `bytes_per_row` apart
/// can be normalized to the given size.
pub fn raw_rows_fit(len: usize, width: u32, height: u32, bytes_per_row: usize) -> (fits: bool)
    ensures
        fits == rows_fit(len as nat, width as nat, height as nat, bytes_per_row as nat),
{
    if 4 * (width as u128) > bytes_per_row as u128 || !allocable_size(width, height) {
        return false;
    }
    if height == 0 {
        return true;
    }
    assert(0 <= bytes_per_row * (height - 1) <= 0xffff_ffff_ffff_ffff * 0xffff_ffff)
        by (nonlinear_arith)
        requires
            bytes_per_row <= 0xffff_ffff_ffff_ffff,
            0 < height <= 0xffff_ffff,
    ;
    (bytes_per_row as u128) * ((height - 1) as u128) + 4 * (width as u128) <= len as u128
}

/// Turns raw blue-green-red-unused quads in rows that begin `bytes_per_row`
/// apart into an RGB image.
///
/// The pixel in column x of row y takes its red, green and blue from bytes
/// 2, 1 and 0 of the quad at `y * bytes_per_row + 4 * x`. The fourth byte of
/// each quad is dropped, and so is what pads a row. Every row has to hold
/// its quads: a caller that cannot tell asks [`raw_rows_fit`] first.
pub fn bgr_rows_to_rgb_image(data: &[u8], width: u32, height: u32, bytes_per_row: usize) -> (image:
    RgbImage)
    requires
        rows_fit(data@.len(), width as nat, height as nat, bytes_per_row as nat),
    ensures
        image@ == normalized_rows(data@, width as nat, height as nat, bytes_per_row as nat),
{
    assert(data@.len() == data.len());
    let mut image = blank_image(width, height);
    let mut y: u32 = 0;
    while y < height
        invariant
            y <= height,
            data@.len() <= usize::MAX,
            rows_fit(data@.len(), width as nat, height as nat, bytes_per_row as nat),
            image_width(image) == width,
            image_height(image) == height,
            image_pixels(image) == Map::new(
                |at: (int, int)| inside(width as nat, height as nat, at),
                |at: (int, int)|
                    if at.1 < y {
                        row_rgb(data@, bytes_per_row as nat, at)
                    } else {
                        (0u8, 0u8, 0u8)
                    },
            ),
        decreases height - y,
    {
        proof {
            if width > 0 {
                lemma_row_in_bounds(
                    0,
                    y as int,
                    width as int,
                    height as int,
                    bytes_per_row as int,
                );
            }
        }
        let mut x: u32 = 0;
        while x < width
            invariant
                x <= width,
                y < height,
                data@.len() <= usize::MAX,
                rows_fit(data@.len(), width as nat, height as nat, bytes_per_row as nat),
                image_width(image) == width,
                image_height(image) == height,
                image_pixels(image) == Map::new(
                    |at: (int, int)| inside(width as nat, height as nat, at),
                    |at: (int, int)|
                        if at.1 < y || (at.1 == y && at.0 < x) {
                            row_rgb(data@, bytes_per_row as nat, at)
                        } else {
                            (0u8, 0u8, 0u8)
                        },
                ),
            decreases width - x,
        {
            proof {
                lemma_row_in_bounds(
                    x as int,
                    y as int,
                    width as int,
                    height as int,
                    bytes_per_row as int,
                );
            }
            let quad: usize = (y as usize) * bytes_per_row + 4 * (x as usize);
            let blue = data[quad];
            let green = data[quad + 1];
            let red = data[quad + 2];
            put_pixel(&mut image, x, y, red, green, blue);
            x = x + 1;
            assert(image_pixels(image) =~= Map::new(
                |at: (int, int)| inside(width as nat, height as nat, at),
                |at: (int, int)|
                    if at.1 < y || (at.1 == y && at.0 < x) {
                        row_rgb(data@, bytes_per_row as nat, at)
                    } else {
                        (0u8, 0u8, 0u8)
                    },
            ));
        }
        y = y + 1;
        assert(image_pixels(image) =~= Map::new(
            |at: (int, int)| inside(width as nat, height as nat, at),
            |at: (int, int)|
                if at.1 < y {
                    row_rgb(data@, bytes_per_row as nat, at)
                } else {
                    (0u8, 0u8, 0u8)
                },
        ));
    }
    assert(image_pixels(image) =~= normalized_rows(
        data@,
        width as nat,
        height as nat,
        bytes_per_row as nat,
    ).pixels);
    image
}

/// Turns raw blue-green-red-unused quads into an RGB image.
///
/// Pixel (x, y) of the result takes its red, green and blue from bytes 2, 1
/// and 0 of quad `y * width + x`; the fourth byte of each quad is dropped, and
/// so is whatever follows the last quad needed. The buffer has to hold a quad
/// for every pixel: a caller that cannot tell asks [`raw_buffer_fits`] first.
pub fn bgr_to_rgb_image(data: &[u8], width: u32, height: u32) -> (image: RgbImage)
    requires
        raw_fits(data@.len(), width as nat, height as nat),
    ensures
        image@ == normalized(data@, width as nat, height as nat),
{
    proof {
        lemma_packed_rows(data@, width as nat, height as nat);
        assert(data@.len() == data.len());
    }
    if height == 0 {
        let image = blank_image(width, height);
        assert(image_pixels(image) =~= normalized(data@, width as nat, height as nat).pixels);
        image
    } else {
        bgr_rows_to_rgb_image(data, width, height, 4 * (width as usize))
    }
}

impl RgbImage {
    /// The number of columns.
    pub fn width(&self) -> (width: u32)
        ensures
            width == self@.width,
    {
        width_of(self)
    }

    /// The number of rows.
    pub fn height(&self) -> (height: u32)
        ensures
            height == self@.height,
    {
        height_of(self)
    }

    /// Gives up the image for its samples in storage order, three bytes per
    /// pixel.
    pub fn into_raw(self) -> (raw: Vec<u8>)
        ensures
            raw@ == samples(self@),
    {
        raw_of(self)
    }

    /// The red, green and blue sample at column `x`, row `y`, or nothing
    /// outside the image.
    pub fn get_pixel(&self, x: u32, y: u32) -> (rgb: Option<(u8, u8, u8)>)
        ensures
            rgb == if x < self@.width && y < self@.height {
                Some(self@.pixels[(x as int, y as int)])
            } else {
                None
            },
    {
        if x < width_of(self) && y < height_of(self) {
            Some(pixel_of(self, x, y))
        } else {
            None
        }
    }
}

} // verus!
