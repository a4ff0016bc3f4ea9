//! The column renderer: from a hit record to a vertical strip of pixels, and
//! from a camera to a whole frame.

use vstd::prelude::*;
use crate::camera::{Camera, Pose};
use crate::fixed::ONE;
use crate::frame::{blank_pixel, FrameBuffer};
use crate::geometry::lemma_cast_reports_a_wall;
use crate::grid::GridMap;
use crate::pixel::{shaded, Rgba};
use crate::raycast::{cast, cast_column, Hit, HitRecord, MAX_SCREEN_SIDE};
use crate::texture::TextureAtlas;

verus! {

/// The height that a wall strip has at most, however near the wall.
pub const MAX_LINE_HEIGHT: i64 = 2147483647;

/// The two colours of a material in flat shading.
#[derive(Clone, Copy, Debug, PartialEq, Eq)]
pub struct Tint {
    /// The colour of the faces that a ray enters across a vertical grid line.
    pub bright: Rgba,
    /// The colour of the faces that a ray enters across a horizontal grid line.
    pub dark: Rgba,
}

/// How wall strips get their colour. The entry of index `code - 1` colours the
/// walls of code `code`.
pub enum Shading {
    /// One of two colours for each material.
    Flat(Vec<Tint>),
    /// A texture for each material, darkened on one of the two wall orientations.
    Textured(TextureAtlas),
}

/// The rows of a screen column that a wall strip fills: from `start` up to,
/// not including, `end`; and the height `line` that the strip would have on an
/// unbounded screen.
#[derive(Clone, Copy, Debug, PartialEq, Eq)]
pub struct Strip {
    /// The height of the strip on an unbounded screen.
    pub line: i64,
    /// The first row of the strip.
    pub start: usize,
    /// The row before which the strip ends.
    pub end: usize,
}

/// The height, in pixels, of a wall at perpendicular distance `distance` on a
/// screen of `height` rows: `height / distance`, at most `MAX_LINE_HEIGHT`.
pub open spec fn line_height(distance: int, height: int) -> int {
    if distance <= 0 {
        MAX_LINE_HEIGHT as int
    } else {
        let line = (height * ONE) / distance;
        if line > MAX_LINE_HEIGHT {
            MAX_LINE_HEIGHT as int
        } else {
            line
        }
    }
}

/// The first row of a strip of height `line`, centred on a screen of `height` rows.
pub open spec fn draw_start(line: int, height: int) -> int {
    let top = height / 2 - line / 2;
    if top < 0 {
        0
    } else {
        top
    }
}

/// The row before which a strip of height `line` ends.
pub open spec fn draw_end(line: int, height: int) -> int {
    let bottom = line / 2 + height / 2;
    if bottom > height - 1 {
        height - 1
    } else {
        bottom
    }
}

/// Row `y` of a screen of `height` rows belongs to the strip of a wall at
/// perpendicular distance `distance`.
pub open spec fn in_strip(distance: int, height: int, y: int) -> bool {
    let line = line_height(distance, height);
    draw_start(line, height) <= y < draw_end(line, height)
}

/// The column of a texture of side `side` that shows at the fraction
/// `fraction` of a wall face.
pub open spec fn texture_column(fraction: int, side: int) -> int {
    (fraction * side) / (ONE as int)
}

/// The row of a texture of side `side` that shows in screen row `y`, where the
/// texture is stretched over the `line` rows of the unclipped strip.
pub open spec fn texture_row(line: int, height: int, side: int, y: int) -> int {
    ((y - height / 2 + line / 2) * side) / line
}

/// A wall strip lies on the screen: it starts no later than it ends, and both
/// rows are rows of the screen.
pub proof fn lemma_strip_on_screen(distance: int, height: int)
    requires
        height >= 1,
    ensures
        0 <= draw_start(line_height(distance, height), height) <= draw_end(
            line_height(distance, height),
            height,
        ) < height,
        0 <= line_height(distance, height) <= MAX_LINE_HEIGHT,
{
    if distance > 0 {
        vstd::arithmetic::div_mod::lemma_div_pos_is_pos(height * ONE, distance);
    }
}

/// Every row of a strip shows a row of the texture, and every fraction of a
/// wall face a column of it.
pub proof fn lemma_texel_in_texture(distance: int, height: int, side: int, y: int, fraction: int)
    requires
        height >= 1,
        side >= 1,
        in_strip(distance, height, y),
        0 <= fraction < ONE,
    ensures
        line_height(distance, height) >= 1,
        0 <= y - height / 2 + line_height(distance, height) / 2 < line_height(distance, height),
        0 <= texture_row(line_height(distance, height), height, side, y) < side,
        0 <= texture_column(fraction, side) < side,
{
    lemma_strip_on_screen(distance, height);
    let line = line_height(distance, height);
    let k = y - height / 2 + line / 2;
    assert(0 <= k * side < line * side) by (nonlinear_arith)
        requires
            0 <= k < line,
            side >= 1,
    ;
    vstd::arithmetic::div_mod::lemma_multiply_divide_lt(k * side, line, side);
    vstd::arithmetic::div_mod::lemma_div_pos_is_pos(k * side, line);
    assert(0 <= fraction * side < ONE * side) by (nonlinear_arith)
        requires
            0 <= fraction < ONE,
            side >= 1,
    ;
}

/// A strip of a wall whose texture has one colour throughout has that colour
/// in every row, darkened by the orientation of the wall face.
pub proof fn lemma_uniform_texture_strip(atlas: TextureAtlas, c: Rgba, hit: Hit, height: int, y: int)
    requires
        atlas.wf(),
        height >= 1,
        0 <= hit.wall_fraction < ONE,
        atlas.uniform(hit.cell_code - 1, c),
        in_strip(hit.perpendicular_distance, height, y),
    ensures
        Shading::Textured(atlas).colour(hit, height, y) == shaded(c, hit.side_hit),
{
    lemma_texel_in_texture(hit.perpendicular_distance, height, atlas.side(), y, hit.wall_fraction);
    let line = line_height(hit.perpendicular_distance, height);
    assert(atlas.texel(
        hit.cell_code - 1,
        texture_column(hit.wall_fraction, atlas.side()),
        texture_row(line, height, atlas.side(), y),
    ) == c);
}

impl Shading {
    /// The number of materials that have a colour.
    pub open spec fn materials(&self) -> int {
        match self {
            Shading::Flat(tints) => tints@.len() as int,
            Shading::Textured(atlas) => atlas.count(),
        }
    }

    /// The textures, where there are any, are full images.
    pub open spec fn wf(&self) -> bool {
        match self {
            Shading::Flat(_) => true,
            Shading::Textured(atlas) => atlas.wf(),
        }
    }

    /// The walls of code `code` have a colour.
    pub open spec fn covers(&self, code: int) -> bool {
        1 <= code <= self.materials()
    }

    /// The colour that the strip of `hit` has in row `y` of a screen of
    /// `height` rows: in flat shading one of the two colours of the material, by
    /// the orientation of the wall face; else the texel that shows there,
    /// darkened by the orientation.
    pub open spec fn colour(&self, hit: Hit, height: int, y: int) -> Rgba {
        match self {
            Shading::Flat(tints) => if hit.side_hit {
                tints@[hit.cell_code - 1].dark
            } else {
                tints@[hit.cell_code - 1].bright
            },
            Shading::Textured(atlas) => shaded(
                atlas.texel(
                    hit.cell_code - 1,
                    texture_column(hit.wall_fraction, atlas.side()),
                    texture_row(
                        line_height(hit.perpendicular_distance, height),
                        height,
                        atlas.side(),
                        y,
                    ),
                ),
                hit.side_hit,
            ),
        }
    }

    /// The number of materials that have a colour.
    pub fn material_count(&self) -> (n: usize)
        ensures
            n == self.materials(),
    {
        match self {
            Shading::Flat(tints) => tints.len(),
            Shading::Textured(atlas) => atlas.len(),
        }
    }

    /// The colour of the strip of `hit` in row `y` of a screen of `height` rows.
    pub fn colour_at(&self, hit: &HitRecord, height: usize, y: usize) -> (c: Rgba)
        requires
            self.wf(),
            hit.wf(),
            self.covers(hit.cell_code as int),
            1 <= height <= MAX_SCREEN_SIDE,
            in_strip(hit.perpendicular_distance as int, height as int, y as int),
        ensures
            c == self.colour(hit@, height as int, y as int),
    {
        let id: usize = (hit.cell_code - 1) as usize;
        match self {
            Shading::Flat(tints) => {
                if hit.side_hit {
                    tints[id].dark
                } else {
                    tints[id].bright
                }
            },
            Shading::Textured(atlas) => {
                let side: usize = atlas.size();
                proof {
                    lemma_texel_in_texture(
                        hit.perpendicular_distance as int,
                        height as int,
                        side as int,
                        y as int,
                        hit.wall_fraction as int,
                    );
                }
                let strip = draw_range(hit.perpendicular_distance, height);
                let k: i64 = y as i64 - (height / 2) as i64 + strip.line / 2;
                assert(0 <= k * side < MAX_LINE_HEIGHT * 16384) by (nonlinear_arith)
                    requires
                        0 <= k < MAX_LINE_HEIGHT,
                        1 <= side <= 16384,
                ;
                assert(0 <= hit.wall_fraction * side < ONE * 16384) by (nonlinear_arith)
                    requires
                        0 <= hit.wall_fraction < ONE,
                        1 <= side <= 16384,
                ;
                let ty: i64 = (k * (side as i64)) / strip.line;
                let tx: i64 = (hit.wall_fraction * (side as i64)) / ONE;
                atlas.texel_at(id, tx as usize, ty as usize).shade(hit.side_hit)
            },
        }
    }
}

/// The rows that the strip of a wall at perpendicular distance `distance` fills
/// on a screen of `height` rows.
pub fn draw_range(distance: i64, height: usize) -> (strip: Strip)
    requires
        1 <= height <= MAX_SCREEN_SIDE,
    ensures
        strip.line == line_height(distance as int, height as int),
        strip.start == draw_start(strip.line as int, height as int),
        strip.end == draw_end(strip.line as int, height as int),
        0 <= strip.start <= strip.end < height,
{
    proof {
        lemma_strip_on_screen(distance as int, height as int);
    }
    let h: i64 = height as i64;
    let line: i64 = if distance <= 0 {
        MAX_LINE_HEIGHT
    } else {
        let l: i64 = (h * ONE) / distance;
        if l > MAX_LINE_HEIGHT {
            MAX_LINE_HEIGHT
        } else {
            l
        }
    };
    let top: i64 = h / 2 - line / 2;
    let bottom: i64 = line / 2 + h / 2;
    let start: usize = if top < 0 {
        0
    } else {
        top as usize
    };
    let end: usize = if bottom > h - 1 {
        height - 1
    } else {
        bottom as usize
    };
    Strip { line, start, end }
}

/// The pixel in column `x` and row `y` of the frame of `width` by `height`
/// pixels that shows `map` from `pose`: the colour of the wall that the ray
/// of column `x` meets, where row `y` belongs to its strip; blank above and
/// below.
pub open spec fn frame_pixel(
    map: GridMap,
    pose: Pose,
    shading: Shading,
    width: int,
    height: int,
    x: int,
    y: int,
) -> Rgba {
    let hit = cast(map, pose, x, width);
    if in_strip(hit.perpendicular_distance, height, y) {
        shading.colour(hit, height, y)
    } else {
        blank_pixel()
    }
}

/// Where every texture has the one colour `c` throughout, every pixel of a
/// frame is blank or has that colour, darkened by the orientation of the wall
/// that shows there: no texel of another colour is ever sampled.
pub proof fn lemma_uniform_textures_frame(
    map: GridMap,
    pose: Pose,
    atlas: TextureAtlas,
    c: Rgba,
    width: int,
    height: int,
    x: int,
    y: int,
)
    requires
        map.wf(),
        map.strictly_inside(pose.position.x, pose.position.y),
        atlas.wf(),
        covers_map(Shading::Textured(atlas), map),
        forall|id: int| 0 <= id < atlas.count() ==> #[trigger] atlas.uniform(id, c),
        width > 0,
        height >= 1,
    ensures
        frame_pixel(map, pose, Shading::Textured(atlas), width, height, x, y) == if in_strip(
            cast(map, pose, x, width).perpendicular_distance,
            height,
            y,
        ) {
            shaded(c, cast(map, pose, x, width).side_hit)
        } else {
            blank_pixel()
        },
{
    let hit = cast(map, pose, x, width);
    lemma_cast_reports_a_wall(map, pose, x, width);
    if in_strip(hit.perpendicular_distance, height, y) {
        assert(atlas.uniform(hit.cell_code - 1, c));
        lemma_uniform_texture_strip(atlas, c, hit, height, y);
    }
}

/// Draws the strip of `hit` into column `column` of the frame: the rows of the
/// strip get its colours, and no other pixel of the frame changes.
pub fn render_column(hit: &HitRecord, column: usize, frame: &mut FrameBuffer, shading: &Shading)
    requires
        hit.wf(),
        old(frame).wf(),
        column < old(frame).columns(),
        shading.wf(),
        shading.covers(hit.cell_code as int),
    ensures
        final(frame).wf(),
        final(frame).same_size(old(frame)),
        forall|x: int, y: int|
            0 <= x < old(frame).columns() && 0 <= y < old(frame).rows() ==> #[trigger] final(frame).pixel(
                x,
                y,
            ) == if x == column && in_strip(
                hit.perpendicular_distance as int,
                old(frame).rows(),
                y,
            ) {
                shading.colour(hit@, old(frame).rows(), y)
            } else {
                old(frame).pixel(x, y)
            },
{
    let height: usize = frame.height();
    let strip = draw_range(hit.perpendicular_distance, height);
    let mut y: usize = strip.start;
    while y < strip.end
        invariant
            strip.start <= y <= strip.end,
            strip.end < height,
            height == old(frame).rows(),
            strip.line == line_height(hit.perpendicular_distance as int, height as int),
            strip.start == draw_start(strip.line as int, height as int),
            strip.end == draw_end(strip.line as int, height as int),
            hit.wf(),
            shading.wf(),
            shading.covers(hit.cell_code as int),
            frame.wf(),
            frame.same_size(old(frame)),
            column < frame.columns(),
            forall|x2: int, y2: int|
                0 <= x2 < frame.columns() && 0 <= y2 < frame.rows() ==> #[trigger] frame.pixel(
                    x2,
                    y2,
                ) == if x2 == column && strip.start <= y2 < y {
                    shading.colour(hit@, height as int, y2)
                } else {
                    old(frame).pixel(x2, y2)
                },
        decreases strip.end - y,
    {
        let c = shading.colour_at(hit, height, y);
        frame.put_pixel(column, y, c);
        y = y + 1;
    }
}

/// Every wall code of the map has a colour.
pub open spec fn covers_map(shading: Shading, map: GridMap) -> bool {
    map.codes_within(shading.materials())
}

/// The frame of `width` by `height` pixels that shows `map` from the camera:
/// for each column the strip of the wall that its ray meets, the rest blank.
pub fn render_frame(
    camera: &Camera,
    map: &GridMap,
    shading: &Shading,
    width: usize,
    height: usize,
) -> (frame: FrameBuffer)
    requires
        camera.wf(),
        map.wf(),
        map.strictly_inside(camera@.position.x, camera@.position.y),
        shading.wf(),
        covers_map(*shading, *map),
        1 <= width <= MAX_SCREEN_SIDE,
        1 <= height <= MAX_SCREEN_SIDE,
    ensures
        frame.wf(),
        frame.columns() == width,
        frame.rows() == height,
        forall|x: int, y: int|
            0 <= x < width && 0 <= y < height ==> #[trigger] frame.pixel(x, y) == frame_pixel(
                *map,
                camera@,
                *shading,
                width as int,
                height as int,
                x,
                y,
            ),
{
    let mut frame = FrameBuffer::blank(width, height);
    let mut column: usize = 0;
    while column < width
        invariant
            0 <= column <= width,
            camera.wf(),
            map.wf(),
            map.strictly_inside(camera@.position.x, camera@.position.y),
            shading.wf(),
            covers_map(*shading, *map),
            1 <= width <= MAX_SCREEN_SIDE,
            1 <= height <= MAX_SCREEN_SIDE,
            frame.wf(),
            frame.columns() == width,
            frame.rows() == height,
            forall|x: int, y: int|
                0 <= x < width && 0 <= y < height ==> #[trigger] frame.pixel(x, y) == if x
                    < column {
                    frame_pixel(*map, camera@, *shading, width as int, height as int, x, y)
                } else {
                    blank_pixel()
                },
        decreases width - column,
    {
        let hit = cast_column(camera, column, width, map);
        render_column(&hit, column, &mut frame, shading);
        column = column + 1;
    }
    frame
}

} // verus!
