//! The texture atlas: one square image for each wall material.

use vstd::prelude::*;
use crate::pixel::{
    image_len,
    lemma_pixel_in_image,
    pixel_of,
    read_pixel,
    write_pixel,
    Rgba,
};

verus! {

/// The largest side that a texture may have.
pub const MAX_TEXTURE_SIDE: usize = 16384;

/// The number of textures that [`generate_textures`] makes.
pub const GENERATED_TEXTURES: usize = 8;

/// Why a set of images is no texture atlas.
#[derive(Clone, Copy, Debug, PartialEq, Eq)]
pub enum TextureError {
    /// The side is 0 or more than `MAX_TEXTURE_SIDE`.
    BadResolution,
    /// Some image is not of `4 * side * side` bytes.
    WrongLength,
}

/// Square RGBA images of one common side, one for each wall material: the
/// image of index `code - 1` is the texture of the cells of code `code`.
pub struct TextureAtlas {
    side: usize,
    images: Vec<Vec<u8>>,
}

/// The reason for which a set of images is refused, if it is.
pub open spec fn atlas_fault(side: int, images: Seq<Vec<u8>>) -> Option<TextureError> {
    if side <= 0 || side > MAX_TEXTURE_SIDE {
        Some(TextureError::BadResolution)
    } else if exists|i: int| 0 <= i < images.len() && (#[trigger] images[i])@.len() != image_len(side, side) {
        Some(TextureError::WrongLength)
    } else {
        None
    }
}

/// The shade of grey, or of one colour, that the generated textures have at
/// `(x, y)` where they blend from one corner to the other.
pub open spec fn blend_level(side: int, x: int, y: int) -> u8 {
    ((y * 128) / side + (x * 128) / side) as u8
}

/// The level that grows with `v` from 0 to 255 across a texture.
pub open spec fn ramp_level(side: int, v: int) -> u8 {
    ((v * 256) / side) as u8
}

/// The level of the chequered textures at `(x, y)`.
pub open spec fn xor_level(side: int, x: int, y: int) -> u8 {
    ramp_level(side, x) ^ ramp_level(side, y)
}

/// The texel at `(x, y)` of the generated texture of index `design`, of side `side`:
/// a red field with a black cross, a grey blend, a yellow blend, grey cheques,
/// green cheques, red bricks, a red ramp, and plain grey.
pub open spec fn pattern(design: int, side: int, x: int, y: int) -> Rgba {
    let blend = blend_level(side, x, y);
    let xor = xor_level(side, x, y);
    if design == 0 {
        Rgba {
            r: if x != y && x != side - y {
                254
            } else {
                0
            },
            g: 0,
            b: 0,
            a: 255,
        }
    } else if design == 1 {
        Rgba { r: blend, g: blend, b: blend, a: 255 }
    } else if design == 2 {
        Rgba { r: blend, g: blend, b: 0, a: 255 }
    } else if design == 3 {
        Rgba { r: xor, g: xor, b: xor, a: 255 }
    } else if design == 4 {
        Rgba { r: 0, g: xor, b: 0, a: 255 }
    } else if design == 5 {
        Rgba {
            r: if x % 16 > 0 && y % 16 > 0 {
                192
            } else {
                0
            },
            g: 0,
            b: 0,
            a: 255,
        }
    } else if design == 6 {
        Rgba { r: ramp_level(side, y), g: 0, b: 0, a: 255 }
    } else {
        Rgba { r: 128, g: 128, b: 128, a: 255 }
    }
}

impl TextureAtlas {
    /// The side of every texture, in texels.
    pub closed spec fn side(&self) -> int {
        self.side as int
    }

    /// The number of textures.
    pub closed spec fn count(&self) -> int {
        self.images@.len() as int
    }

    /// The bytes of the texture of index `id`.
    pub closed spec fn image(&self, id: int) -> Seq<u8> {
        self.images@[id]@
    }

    /// The texel in column `x` and row `y` of the texture of index `id`.
    pub open spec fn texel(&self, id: int, x: int, y: int) -> Rgba {
        pixel_of(self.image(id), self.side(), x, y)
    }

    /// Every texture is a full square image of the common side.
    pub open spec fn wf(&self) -> bool {
        &&& 1 <= self.side() <= MAX_TEXTURE_SIDE
        &&& self.count() >= 0
        &&& forall|id: int|
            0 <= id < self.count() ==> (#[trigger] self.image(id)).len() == image_len(
                self.side(),
                self.side(),
            )
    }

    /// Every texel of the texture of index `id` has the colour `c`.
    pub open spec fn uniform(&self, id: int, c: Rgba) -> bool {
        forall|x: int, y: int|
            0 <= x < self.side() && 0 <= y < self.side() ==> #[trigger] self.texel(id, x, y) == c
    }

    /// The atlas of the given images, each of `4 * side * side` RGBA bytes, row
    /// by row.
    pub fn from_images(side: usize, images: Vec<Vec<u8>>) -> (r: Result<TextureAtlas, TextureError>)
        ensures
            match r {
                Ok(atlas) => {
                    &&& atlas_fault(side as int, images@) is None
                    &&& atlas.wf()
                    &&& atlas.side() == side
                    &&& atlas.count() == images@.len()
                    &&& forall|id: int|
                        0 <= id < images@.len() ==> #[trigger] atlas.image(id) == images@[id]@
                },
                Err(e) => atlas_fault(side as int, images@) == Some(e),
            },
    {
        if side == 0 || side > MAX_TEXTURE_SIDE {
            return Err(TextureError::BadResolution);
        }
        proof {
            lemma_pixel_in_image(side as int, side as int, 0, 0);
        }
        let expected: usize = 4 * (side * side);
        let mut i: usize = 0;
        while i < images.len()
            invariant
                0 <= i <= images@.len(),
                1 <= side <= MAX_TEXTURE_SIDE,
                expected == image_len(side as int, side as int),
                forall|j: int| 0 <= j < i ==> (#[trigger] images@[j])@.len() == expected,
            decreases images@.len() - i,
        {
            if images[i].len() != expected {
                assert(images@[i as int]@.len() != image_len(side as int, side as int));
                return Err(TextureError::WrongLength);
            }
            i = i + 1;
        }
        Ok(TextureAtlas { side, images })
    }

    /// The side of every texture, in texels.
    pub fn size(&self) -> (s: usize)
        ensures
            s == self.side(),
    {
        self.side
    }

    /// The number of textures.
    pub fn len(&self) -> (n: usize)
        ensures
            n == self.count(),
    {
        self.images.len()
    }

    /// The texel in column `x` and row `y` of the texture of index `id`.
    pub fn texel_at(&self, id: usize, x: usize, y: usize) -> (c: Rgba)
        requires
            self.wf(),
            id < self.count(),
            x < self.side(),
            y < self.side(),
        ensures
            c == self.texel(id as int, x as int, y as int),
    {
        assert(self.image(id as int).len() == image_len(self.side(), self.side()));
        read_pixel(&self.images[id], self.side, self.side, x, y)
    }
}

/// The level that grows with `v` from 0 to 255 across a texture of side `side`.
fn ramp(side: usize, v: usize) -> (level: u8)
    requires
        v < side <= MAX_TEXTURE_SIDE,
    ensures
        level == ramp_level(side as int, v as int),
        (v * 256) / (side as int) < 256,
{
    proof {
        vstd::arithmetic::div_mod::lemma_multiply_divide_lt(v * 256, side as int, 256);
    }
    ((v * 256) / side) as u8
}

/// The texel at `(x, y)` of the generated texture of index `design`.
fn pattern_texel(design: usize, side: usize, x: usize, y: usize) -> (c: Rgba)
    requires
        x < side <= MAX_TEXTURE_SIDE,
        y < side,
    ensures
        c == pattern(design as int, side as int, x as int, y as int),
{
    proof {
        vstd::arithmetic::div_mod::lemma_multiply_divide_lt(x * 128, side as int, 128);
        vstd::arithmetic::div_mod::lemma_multiply_divide_lt(y * 128, side as int, 128);
        vstd::arithmetic::div_mod::lemma_div_pos_is_pos(x * 128, side as int);
        vstd::arithmetic::div_mod::lemma_div_pos_is_pos(y * 128, side as int);
    }
    let blend: u8 = ((y * 128) / side + (x * 128) / side) as u8;
    let xor: u8 = ramp(side, x) ^ ramp(side, y);
    if design == 0 {
        let r: u8 = if x != y && x != side - y {
            254
        } else {
            0
        };
        Rgba { r, g: 0, b: 0, a: 255 }
    } else if design == 1 {
        Rgba { r: blend, g: blend, b: blend, a: 255 }
    } else if design == 2 {
        Rgba { r: blend, g: blend, b: 0, a: 255 }
    } else if design == 3 {
        Rgba { r: xor, g: xor, b: xor, a: 255 }
    } else if design == 4 {
        Rgba { r: 0, g: xor, b: 0, a: 255 }
    } else if design == 5 {
        let r: u8 = if x % 16 > 0 && y % 16 > 0 {
            192
        } else {
            0
        };
        Rgba { r, g: 0, b: 0, a: 255 }
    } else if design == 6 {
        Rgba { r: ramp(side, y), g: 0, b: 0, a: 255 }
    } else {
        Rgba { r: 128, g: 128, b: 128, a: 255 }
    }
}

/// The generated texture of index `design`, as RGBA bytes row by row.
fn pattern_image(design: usize, side: usize) -> (bytes: Vec<u8>)
    requires
        1 <= side <= MAX_TEXTURE_SIDE,
    ensures
        bytes@.len() == image_len(side as int, side as int),
        forall|x: int, y: int|
            0 <= x < side && 0 <= y < side ==> #[trigger] pixel_of(bytes@, side as int, x, y)
                == pattern(design as int, side as int, x, y),
{
    proof {
        lemma_pixel_in_image(side as int, side as int, 0, 0);
    }
    let mut bytes: Vec<u8> = vec![0u8; 4 * (side * side)];
    let mut y: usize = 0;
    while y < side
        invariant
            0 <= y <= side,
            1 <= side <= MAX_TEXTURE_SIDE,
            bytes@.len() == image_len(side as int, side as int),
            forall|x2: int, y2: int|
                0 <= x2 < side && 0 <= y2 < y ==> #[trigger] pixel_of(bytes@, side as int, x2, y2)
                    == pattern(design as int, side as int, x2, y2),
        decreases side - y,
    {
        let mut x: usize = 0;
        while x < side
            invariant
                0 <= x <= side,
                0 <= y < side,
                1 <= side <= MAX_TEXTURE_SIDE,
                bytes@.len() == image_len(side as int, side as int),
                forall|x2: int, y2: int|
                    0 <= x2 < side && 0 <= y2 < y ==> #[trigger] pixel_of(
                        bytes@,
                        side as int,
                        x2,
                        y2,
                    ) == pattern(design as int, side as int, x2, y2),
                forall|x2: int|
                    0 <= x2 < x ==> #[trigger] pixel_of(bytes@, side as int, x2, y as int)
                        == pattern(design as int, side as int, x2, y as int),
            decreases side - x,
        {
            let c = pattern_texel(design, side, x, y);
            write_pixel(&mut bytes, side, side, x, y, c);
            x = x + 1;
        }
        y = y + 1;
    }
    bytes
}

/// The eight generated textures of side `size`, for the materials 1 to 8; none
/// where `size` is 0 or more than `MAX_TEXTURE_SIDE`.
pub fn generate_textures(size: usize) -> (r: Result<TextureAtlas, TextureError>)
    ensures
        r.is_ok() <==> 1 <= size <= MAX_TEXTURE_SIDE,
        r matches Err(e) ==> e == TextureError::BadResolution,
        r matches Ok(atlas) ==> {
            &&& atlas.wf()
            &&& atlas.side() == size
            &&& atlas.count() == GENERATED_TEXTURES
            &&& forall|design: int, x: int, y: int|
                0 <= design < GENERATED_TEXTURES && 0 <= x < size && 0 <= y < size
                    ==> #[trigger] atlas.texel(design, x, y) == pattern(design, size as int, x, y)
        },
{
    if size == 0 || size > MAX_TEXTURE_SIDE {
        return Err(TextureError::BadResolution);
    }
    let mut images: Vec<Vec<u8>> = Vec::new();
    let mut design: usize = 0;
    while design < GENERATED_TEXTURES
        invariant
            0 <= design <= GENERATED_TEXTURES,
            1 <= size <= MAX_TEXTURE_SIDE,
            images@.len() == design,
            forall|k: int|
                0 <= k < design ==> (#[trigger] images@[k])@.len() == image_len(
                    size as int,
                    size as int,
                ),
            forall|k: int, x: int, y: int|
                0 <= k < design && 0 <= x < size && 0 <= y < size ==> #[trigger] pixel_of(
                    images@[k]@,
                    size as int,
                    x,
                    y,
                ) == pattern(k, size as int, x, y),
        decreases GENERATED_TEXTURES - design,
    {
        let image = pattern_image(design, size);
        images.push(image);
        design = design + 1;
    }
    Ok(TextureAtlas { side: size, images })
}

} // verus!
