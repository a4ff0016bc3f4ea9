//! The frame buffer: the picture of one frame, as RGBA bytes row by row.

use vstd::prelude::*;
use crate::pixel::{image_len, lemma_pixel_in_image, pixel_of, read_pixel, write_pixel, Rgba};
use crate::raycast::MAX_SCREEN_SIDE;

verus! {

/// The picture of one frame: `4 * width * height` bytes, four to the pixel, row
/// by row from the top.
pub struct FrameBuffer {
    width: usize,
    height: usize,
    bytes: Vec<u8>,
}

/// The pixel of a blank frame: black, and fully transparent.
pub open spec fn blank_pixel() -> Rgba {
    Rgba { r: 0, g: 0, b: 0, a: 0 }
}

impl FrameBuffer {
    /// The number of pixel columns.
    pub closed spec fn columns(&self) -> int {
        self.width as int
    }

    /// The number of pixel rows.
    pub closed spec fn rows(&self) -> int {
        self.height as int
    }

    /// The bytes of the picture.
    pub closed spec fn bytes(&self) -> Seq<u8> {
        self.bytes@
    }

    /// The pixel in column `x` and row `y`.
    pub open spec fn pixel(&self, x: int, y: int) -> Rgba {
        pixel_of(self.bytes(), self.columns(), x, y)
    }

    /// The picture has a size that a screen can have, and all its bytes.
    pub open spec fn wf(&self) -> bool {
        &&& 1 <= self.columns() <= MAX_SCREEN_SIDE
        &&& 1 <= self.rows() <= MAX_SCREEN_SIDE
        &&& self.bytes().len() == image_len(self.columns(), self.rows())
    }

    /// The picture is of the same size as `other`.
    pub open spec fn same_size(&self, other: &FrameBuffer) -> bool {
        self.columns() == other.columns() && self.rows() == other.rows()
    }

    /// A blank picture of the given size.
    pub fn blank(width: usize, height: usize) -> (frame: FrameBuffer)
        requires
            1 <= width <= MAX_SCREEN_SIDE,
            1 <= height <= MAX_SCREEN_SIDE,
        ensures
            frame.wf(),
            frame.columns() == width,
            frame.rows() == height,
            forall|x: int, y: int|
                0 <= x < width && 0 <= y < height ==> #[trigger] frame.pixel(x, y) == blank_pixel(),
    {
        proof {
            lemma_pixel_in_image(width as int, height as int, 0, 0);
        }
        let bytes: Vec<u8> = vec![0u8; 4 * (width * height)];
        proof {
            assert forall|x: int, y: int| 0 <= x < width && 0 <= y < height implies #[trigger] pixel_of(
                bytes@,
                width as int,
                x,
                y,
            ) == blank_pixel() by {
                lemma_pixel_in_image(width as int, height as int, x, y);
            }
        }
        FrameBuffer { width, height, bytes }
    }

    /// A blank picture of the given size, if a screen can have that size: each
    /// side at least 1 and at most `MAX_SCREEN_SIDE`.
    pub fn new(width: usize, height: usize) -> (r: Option<FrameBuffer>)
        ensures
            r.is_some() <==> 1 <= width <= MAX_SCREEN_SIDE && 1 <= height <= MAX_SCREEN_SIDE,
            r matches Some(frame) ==> {
                &&& frame.wf()
                &&& frame.columns() == width
                &&& frame.rows() == height
                &&& forall|x: int, y: int|
                    0 <= x < width && 0 <= y < height ==> #[trigger] frame.pixel(x, y) == blank_pixel()
            },
    {
        if width == 0 || width > MAX_SCREEN_SIDE || height == 0 || height > MAX_SCREEN_SIDE {
            None
        } else {
            Some(FrameBuffer::blank(width, height))
        }
    }

    /// The number of pixel columns.
    pub fn width(&self) -> (w: usize)
        ensures
            w == self.columns(),
    {
        self.width
    }

    /// The number of pixel rows.
    pub fn height(&self) -> (h: usize)
        ensures
            h == self.rows(),
    {
        self.height
    }

    /// The pixel in column `x` and row `y`.
    pub fn pixel_at(&self, x: usize, y: usize) -> (c: Rgba)
        requires
            self.wf(),
            x < self.columns(),
            y < self.rows(),
        ensures
            c == self.pixel(x as int, y as int),
    {
        read_pixel(&self.bytes, self.width, self.height, x, y)
    }

    /// Sets the pixel in column `x` and row `y`, and no other.
    pub fn put_pixel(&mut self, x: usize, y: usize, c: Rgba)
        requires
            old(self).wf(),
            x < old(self).columns(),
            y < old(self).rows(),
        ensures
            final(self).wf(),
            final(self).same_size(old(self)),
            final(self).pixel(x as int, y as int) == c,
            forall|x2: int, y2: int|
                0 <= x2 < old(self).columns() && 0 <= y2 < old(self).rows() && (x2 != x || y2 != y)
                    ==> #[trigger] final(self).pixel(x2, y2) == old(self).pixel(x2, y2),
    {
        write_pixel(&mut self.bytes, self.width, self.height, x, y, c);
    }

    /// The bytes of the picture: four to the pixel, row by row from the top.
    pub fn as_bytes(&self) -> (bytes: &Vec<u8>)
        ensures
            bytes@ == self.bytes(),
    {
        &self.bytes
    }

    /// The bytes of the picture, the picture given up.
    pub fn into_bytes(self) -> (bytes: Vec<u8>)
        ensures
            bytes@ == self.bytes(),
    {
        self.bytes
    }
}

} // verus!
