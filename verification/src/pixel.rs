//! Colours, and the layout of an image as a sequence of RGBA bytes.

use vstd::prelude::*;

verus! {

/// The largest width or height that an image may have: its bytes are then at
/// most 2^30.
pub const MAX_IMAGE_SIDE: usize = 16384;

/// A colour with its opacity.
#[derive(Clone, Copy, Debug, PartialEq, Eq)]
pub struct Rgba {
    /// Red.
    pub r: u8,
    /// Green.
    pub g: u8,
    /// Blue.
    pub b: u8,
    /// Opacity.
    pub a: u8,
}

/// The colour `c` as it shows on a wall face of the darker orientation: every
/// channel halved.
pub open spec fn darkened(c: Rgba) -> Rgba {
    Rgba { r: c.r / 2, g: c.g / 2, b: c.b / 2, a: c.a / 2 }
}

/// The colour `c` on a wall face: darkened on the faces that a ray enters
/// across a horizontal grid line.
pub open spec fn shaded(c: Rgba, side: bool) -> Rgba {
    if side {
        darkened(c)
    } else {
        c
    }
}

/// The pixel in column `x` and row `y` of an image of `width` columns, stored
/// row by row with four bytes to the pixel.
pub open spec fn pixel_of(bytes: Seq<u8>, width: int, x: int, y: int) -> Rgba {
    let i = 4 * (y * width + x);
    Rgba { r: bytes[i], g: bytes[i + 1], b: bytes[i + 2], a: bytes[i + 3] }
}

/// The number of bytes of an image.
pub open spec fn image_len(width: int, height: int) -> int {
    4 * (width * height)
}

/// The bytes of a pixel of an image lie within the image.
pub(crate) proof fn lemma_pixel_in_image(width: int, height: int, x: int, y: int)
    by (nonlinear_arith)
    requires
        0 <= x < width <= MAX_IMAGE_SIDE,
        0 <= y < height <= MAX_IMAGE_SIDE,
    ensures
        0 <= y * width + x < width * height,
        0 <= y * width <= width * height - width,
        width * height <= MAX_IMAGE_SIDE * MAX_IMAGE_SIDE,
{
}

/// Two pixels of an image do not share their place.
proof fn lemma_pixels_apart(width: int, x: int, y: int, x2: int, y2: int)
    by (nonlinear_arith)
    requires
        0 <= x < width,
        0 <= x2 < width,
        0 <= y,
        0 <= y2,
        x != x2 || y != y2,
    ensures
        y * width + x != y2 * width + x2,
{
}

impl Rgba {
    /// The colour with the given channels.
    pub fn new(r: u8, g: u8, b: u8, a: u8) -> (c: Rgba)
        ensures
            c == (Rgba { r, g, b, a }),
    {
        Rgba { r, g, b, a }
    }

    /// The colour on a wall face: darkened if `side`.
    pub fn shade(self, side: bool) -> (c: Rgba)
        ensures
            c == shaded(self, side),
    {
        if side {
            Rgba { r: self.r / 2, g: self.g / 2, b: self.b / 2, a: self.a / 2 }
        } else {
            self
        }
    }
}

/// The pixel in column `x` and row `y` of the image.
pub fn read_pixel(bytes: &Vec<u8>, width: usize, height: usize, x: usize, y: usize) -> (c: Rgba)
    requires
        x < width <= MAX_IMAGE_SIDE,
        y < height <= MAX_IMAGE_SIDE,
        bytes@.len() == image_len(width as int, height as int),
    ensures
        c == pixel_of(bytes@, width as int, x as int, y as int),
{
    proof {
        lemma_pixel_in_image(width as int, height as int, x as int, y as int);
    }
    let i: usize = 4 * (y * width + x);
    Rgba { r: bytes[i], g: bytes[i + 1], b: bytes[i + 2], a: bytes[i + 3] }
}

/// Sets the pixel in column `x` and row `y` of the image, and no other.
pub fn write_pixel(bytes: &mut Vec<u8>, width: usize, height: usize, x: usize, y: usize, c: Rgba)
    requires
        x < width <= MAX_IMAGE_SIDE,
        y < height <= MAX_IMAGE_SIDE,
        old(bytes)@.len() == image_len(width as int, height as int),
    ensures
        final(bytes)@.len() == old(bytes)@.len(),
        pixel_of(final(bytes)@, width as int, x as int, y as int) == c,
        forall|x2: int, y2: int|
            0 <= x2 < width && 0 <= y2 < height && (x2 != x || y2 != y) ==> #[trigger] pixel_of(
                final(bytes)@,
                width as int,
                x2,
                y2,
            ) == pixel_of(old(bytes)@, width as int, x2, y2),
{
    proof {
        lemma_pixel_in_image(width as int, height as int, x as int, y as int);
    }
    let i: usize = 4 * (y * width + x);
    bytes.set(i, c.r);
    bytes.set(i + 1, c.g);
    bytes.set(i + 2, c.b);
    bytes.set(i + 3, c.a);
    proof {
        assert forall|x2: int, y2: int|
            0 <= x2 < width && 0 <= y2 < height && (x2 != x || y2 != y) implies #[trigger] pixel_of(
            bytes@,
            width as int,
            x2,
            y2,
        ) == pixel_of(old(bytes)@, width as int, x2, y2) by {
            lemma_pixels_apart(width as int, x as int, y as int, x2, y2);
            lemma_pixel_in_image(width as int, height as int, x2, y2);
        }
    }
}

} // verus!
