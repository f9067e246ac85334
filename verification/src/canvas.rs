//! Pictures in processor memory.
//!
//! The pictures are macroquad's `Image`. But for `is_sound`, nothing in
//! this file is proved: each function states what the macroquad function
//! that it calls does, as the source of macroquad shows it.

use vstd::prelude::*;
use macroquad::color::Color;
use macroquad::texture::Image;
use crate::color::Rgba;

verus! {

/// macroquad's `Image`: a picture in processor memory. Its inside is
/// hidden here; the three functions below name what it holds.
#[verifier::external_type_specification]
#[verifier::external_body]
pub struct ExImage(Image);

/// The bytes of an image taken four at a time, as red, green, blue and
/// alpha. In an image that is `sound` they are the pixels row after row
/// from the top, each row from the left.
pub uninterp spec fn image_pixels(img: Image) -> Seq<Rgba>;

/// The number of pixels in a row of the image.
pub uninterp spec fn image_width(img: Image) -> nat;

/// The number of rows of the image.
pub uninterp spec fn image_height(img: Image) -> nat;

/// The image holds one pixel for every place in its rows and columns.
/// macroquad makes no other images, but lets its users put them together
/// by hand, and reads beyond the bytes of one that holds fewer.
pub open spec fn sound(img: Image) -> bool {
    image_pixels(img).len() == image_width(img) * image_height(img)
}

/// `Image::gen_image_color` with opaque black: a sound image of the given
/// size whose every pixel is black.
#[verifier::external_body]
pub(crate) fn blank_image(width: u16, height: u16) -> (img: Image)
    ensures
        image_width(img) == width,
        image_height(img) == height,
        image_pixels(img).len() == width * height,
        forall|i: int| 0 <= i < width * height ==> #[trigger] image_pixels(img)[i] == Rgba::black(),
{
    Image::gen_image_color(width, height, Color::from_rgba(0, 0, 0, 255))
}

/// `Image::set_pixel` with a colour made by `Color::from_rgba`: the pixel
/// in column `x` of row `y` takes the four channels as they are given, and
/// nothing else changes. The colour passes through floating point on the
/// way; dividing a channel by 255 and multiplying it back returns the same
/// byte for each of the 256 values. On a sound image and a pixel within it
/// the call does not panic.
#[verifier::external_body]
pub(crate) fn put_pixel(img: &mut Image, x: u32, y: u32, color: Rgba)
    requires
        sound(*old(img)),
        x < image_width(*old(img)),
        y < image_height(*old(img)),
    ensures
        image_width(*final(img)) == image_width(*old(img)),
        image_height(*final(img)) == image_height(*old(img)),
        image_pixels(*final(img)) == image_pixels(*old(img)).update(
            y * image_width(*old(img)) + x,
            color,
        ),
    no_unwind
{
    img.set_pixel(x, y, Color::from_rgba(color.r, color.g, color.b, color.a))
}

/// `Image::width`, which is held in sixteen bits.
#[verifier::external_body]
pub(crate) fn width_of(img: &Image) -> (w: usize)
    ensures
        w == image_width(*img),
        w <= 0xffff,
{
    img.width()
}

/// `Image::height`, which is held in sixteen bits.
#[verifier::external_body]
pub(crate) fn height_of(img: &Image) -> (h: usize)
    ensures
        h == image_height(*img),
        h <= 0xffff,
{
    img.height()
}

/// The length of the field `bytes` of an `Image`: four bytes for each
/// whole pixel.
#[verifier::external_body]
pub(crate) fn bytes_of(img: &Image) -> (n: usize)
    ensures
        n / 4 == image_pixels(*img).len(),
{
    img.bytes.len()
}

/// `Image::get_image_data` on a sound image, each pixel handed out as a
/// colour of the library.
#[verifier::external_body]
pub(crate) fn pixels_of(img: &Image) -> (pixels: Vec<Rgba>)
    requires
        sound(*img),
    ensures
        pixels@ == image_pixels(*img),
{
    img.get_image_data().iter().map(|p| Rgba { r: p[0], g: p[1], b: p[2], a: p[3] }).collect()
}

/// Tells whether an image is sound.
pub fn is_sound(img: &Image) -> (ok: bool)
    ensures
        ok == sound(*img),
{
    let w = width_of(img) as u64;
    let h = height_of(img) as u64;
    assert(w * h <= 0xffff * 0xffff) by (nonlinear_arith)
        requires
            0 <= w <= 0xffff,
            0 <= h <= 0xffff,
    ;
    (bytes_of(img) / 4) as u64 == w * h
}

} // verus!
