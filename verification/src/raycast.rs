//! The ray caster: from a screen column to the first wall that its ray meets.
//!
//! The ray of a column is followed from grid line to grid line. At each step
//! the nearer of the next vertical and the next horizontal line is crossed;
//! which is nearer is decided by comparing two products of integers, so the
//! traversal is exact. That it follows the ray, line by line in the order in
//! which the ray meets them, is proved in the module `geometry`.

use vstd::prelude::*;
use crate::camera::{Camera, Pose, MAX_COORDINATE};
use crate::fixed::{
    fraction,
    lemma_product_range,
    magnitude,
    magnitude_of,
    whole,
    FAR,
    MAX_LENGTH,
    ONE,
};
use crate::grid::{cell_of, on_border, GridMap};
use crate::vector::{lemma_coordinates_bounded, Point, Vec2};

verus! {

/// The largest width or height that a screen may have.
pub const MAX_SCREEN_SIDE: usize = 16384;

/// The largest magnitude that a coordinate of a column's ray can have.
pub const MAX_RAY: i64 = 36028797018963968;

/// A bound on the reach of a ray within a map: more than the two sides of
/// the largest map together.
pub const MAX_REACH: u64 = 281474976710656;

/// The mathematical value of a [`HitRecord`].
pub ghost struct Hit {
    /// The code of the wall cell that the ray entered.
    pub cell_code: int,
    /// The distance from the camera plane to the wall face, in fixed point.
    pub perpendicular_distance: int,
    /// Whether the last grid line crossed was a horizontal one.
    pub side_hit: bool,
    /// Where along the wall face the ray landed, in fixed point.
    pub wall_fraction: int,
}

/// What the ray of one screen column has met.
#[derive(Clone, Copy, Debug, PartialEq, Eq)]
pub struct HitRecord {
    /// The code of the wall cell that the ray entered; never 0.
    pub cell_code: u8,
    /// The distance from the camera plane to the wall face, in fixed point; `FAR`
    /// where it exceeds every representable distance.
    pub perpendicular_distance: i64,
    /// Whether the last grid line crossed was a horizontal one (the ray last
    /// advanced along y) rather than a vertical one.
    pub side_hit: bool,
    /// Where along the wall face the ray landed, in fixed point, in `[0, ONE)`.
    pub wall_fraction: i64,
}

impl View for HitRecord {
    type V = Hit;

    open spec fn view(&self) -> Hit {
        Hit {
            cell_code: self.cell_code as int,
            perpendicular_distance: self.perpendicular_distance as int,
            side_hit: self.side_hit,
            wall_fraction: self.wall_fraction as int,
        }
    }
}

impl HitRecord {
    /// The record is one that a cast can give: a wall code, a distance that is
    /// not negative, a fraction of a cell.
    pub open spec fn wf(&self) -> bool {
        &&& self.cell_code != 0
        &&& self.perpendicular_distance >= 0
        &&& 0 <= self.wall_fraction < ONE
    }
}

/// A ray on its way through the grid: the cell it is in, and how far along each
/// axis the next grid line to cross lies from the camera.
pub ghost struct Probe {
    /// The column of the cell that the ray is in.
    pub col: int,
    /// The row of the cell that the ray is in.
    pub row: int,
    /// The distance along x from the camera to the next vertical grid line.
    pub reach_x: int,
    /// The distance along y from the camera to the next horizontal grid line.
    pub reach_y: int,
    /// Whether the line crossed last was a horizontal one.
    pub side: bool,
}

/// The direction of the ray through screen column `column` of `width`, times
/// `width`: `direction * width + plane * (2 * column - width)`.
pub open spec fn ray_through(pose: Pose, column: int, width: int) -> Point {
    Point {
        x: pose.direction.x * width + pose.plane.x * (2 * column - width),
        y: pose.direction.y * width + pose.plane.y * (2 * column - width),
    }
}

/// The step that a ray makes along an axis on which its direction has
/// coordinate `r`.
pub open spec fn heading(r: int) -> int {
    if r < 0 {
        -1
    } else {
        1
    }
}

/// The distance from coordinate `v` to the next grid line in the sense of `r`.
pub open spec fn first_reach(v: int, r: int) -> int {
    if r < 0 {
        fraction(v)
    } else {
        ONE - fraction(v)
    }
}

/// The ray before its first crossing.
pub open spec fn probe_start(position: Point, ray: Point) -> Probe {
    Probe {
        col: whole(position.x),
        row: whole(position.y),
        reach_x: first_reach(position.x, ray.x),
        reach_y: first_reach(position.y, ray.y),
        side: false,
    }
}

/// The ray meets its next vertical grid line strictly before its next
/// horizontal one: `reach_x / |ray.x| < reach_y / |ray.y|`, where a quotient
/// by zero is infinite.
pub open spec fn vertical_first(ray: Point, p: Probe) -> bool {
    p.reach_x * magnitude(ray.y) < p.reach_y * magnitude(ray.x)
}

/// The ray after crossing the nearer of its two next grid lines.
pub open spec fn probe_step(ray: Point, p: Probe) -> Probe {
    if vertical_first(ray, p) {
        Probe { col: p.col + heading(ray.x), reach_x: p.reach_x + ONE, side: false, ..p }
    } else {
        Probe { row: p.row + heading(ray.y), reach_y: p.reach_y + ONE, side: true, ..p }
    }
}

/// The ray after `n` crossings.
pub open spec fn probe_after(start: Probe, ray: Point, n: nat) -> Probe
    decreases n,
{
    if n == 0 {
        start
    } else {
        probe_step(ray, probe_after(start, ray, (n - 1) as nat))
    }
}

/// The ray cannot go on from the cell it is in: a wall, or no cell of the map.
pub open spec fn blocked(map: GridMap, p: Probe) -> bool {
    !map.in_range(p.row, p.col) || map.cell(p.row, p.col) != 0
}

/// The `n`-th crossing is the first that brings the ray into a wall.
pub open spec fn first_wall_at(map: GridMap, start: Probe, ray: Point, n: nat) -> bool {
    &&& n >= 1
    &&& blocked(map, probe_after(start, ray, n))
    &&& forall|m: nat| 1 <= m < n ==> !blocked(map, #[trigger] probe_after(start, ray, m))
}

/// The number of grid lines that the ray crosses until it enters a wall.
pub open spec fn crossings(map: GridMap, start: Probe, ray: Point) -> nat {
    choose|n: nat| first_wall_at(map, start, ray, n)
}

/// The distance from the camera plane to a wall face that lies `reach` along an
/// axis on which the ray's direction, times `width`, has magnitude `along`.
pub open spec fn distance_along(reach: int, along: int, width: int) -> int {
    if along == 0 {
        FAR as int
    } else {
        let d = (reach * width * ONE) / along;
        if d > FAR {
            FAR as int
        } else {
            d
        }
    }
}

/// The coordinate, on the other axis, at which the ray lands on that wall face:
/// it started at `from` and moves `across` on that axis for each `along` on the first.
pub open spec fn landing(from: int, reach: int, across: int, along: int) -> int {
    if along == 0 {
        from
    } else {
        from + (reach * across) / along
    }
}

/// The texture runs against the landing coordinate: the wall is seen from the
/// side from which its face runs from right to left.
pub open spec fn mirrored(ray: Point, side: bool) -> bool {
    (!side && ray.x > 0) || (side && ray.y < 0)
}

/// The fraction `f` of a cell, or its mirror image within `[0, ONE)`.
pub open spec fn oriented(f: int, mirror: bool) -> int {
    if mirror {
        ONE - 1 - f
    } else {
        f
    }
}

/// How far, along the axis of the grid line that it crossed last, a ray has
/// come from the camera to that line.
pub open spec fn hit_reach(p: Probe) -> int {
    if p.side {
        p.reach_y - ONE
    } else {
        p.reach_x - ONE
    }
}

/// The coordinate, on the other axis, at which a ray of direction `ray` that
/// left `position` crossed its last grid line: where it lands on the wall face.
pub open spec fn hit_landing(position: Point, ray: Point, p: Probe) -> int {
    if p.side {
        landing(position.x, hit_reach(p), ray.x, magnitude(ray.y))
    } else {
        landing(position.y, hit_reach(p), ray.y, magnitude(ray.x))
    }
}

/// The record of a ray of direction `ray / width` that left `position` and
/// has just entered the wall cell of `p`.
pub open spec fn hit_of(map: GridMap, position: Point, ray: Point, width: int, p: Probe) -> Hit {
    let along = if p.side {
        magnitude(ray.y)
    } else {
        magnitude(ray.x)
    };
    Hit {
        cell_code: map.cell(p.row, p.col) as int,
        perpendicular_distance: distance_along(hit_reach(p), along, width),
        side_hit: p.side,
        wall_fraction: oriented(fraction(hit_landing(position, ray, p)), mirrored(ray, p.side)),
    }
}

/// What the ray through screen column `column` of `width` meets: the record of
/// its first entry into a wall.
pub open spec fn cast(map: GridMap, pose: Pose, column: int, width: int) -> Hit {
    let ray = ray_through(pose, column, width);
    let start = probe_start(pose.position, ray);
    hit_of(
        map,
        pose.position,
        ray,
        width,
        probe_after(start, ray, crossings(map, start, ray)),
    )
}

/// The number of crossings after which the ray has certainly left the part of
/// the map that lies before it.
pub open spec fn remaining(map: GridMap, ray: Point, p: Probe) -> int {
    (if ray.x < 0 {
        p.col
    } else {
        map.columns() - 1 - p.col
    }) + (if ray.y < 0 {
        p.row
    } else {
        map.rows() - 1 - p.row
    })
}

/// The cell of the probe is a cell of the map, and not on its border.
pub open spec fn interior(map: GridMap, p: Probe) -> bool {
    0 < p.col < map.columns() - 1 && 0 < p.row < map.rows() - 1
}

/// One crossing from a cell inside the map leads to a cell of the map, one
/// nearer to the border that lies ahead; if that cell is empty, it is inside too.
proof fn lemma_step_stays(map: GridMap, ray: Point, p: Probe)
    requires
        map.wf(),
        interior(map, p),
    ensures
        map.in_range(probe_step(ray, p).row, probe_step(ray, p).col),
        remaining(map, ray, probe_step(ray, p)) == remaining(map, ray, p) - 1,
        remaining(map, ray, probe_step(ray, p)) >= 0,
        !blocked(map, probe_step(ray, p)) ==> interior(map, probe_step(ray, p)),
{
    let q = probe_step(ray, p);
    if !blocked(map, q) {
        if on_border(map.columns(), map.rows(), q.row, q.col) {
            assert(cell_of(map.columns(), map.cells(), q.row, q.col) != 0);
        }
    }
}

/// At most one number of crossings is the first to reach a wall.
pub proof fn lemma_first_wall_unique(map: GridMap, start: Probe, ray: Point, n: nat, m: nat)
    requires
        first_wall_at(map, start, ray, n),
        first_wall_at(map, start, ray, m),
    ensures
        n == m,
{
    if n < m {
        assert(!blocked(map, probe_after(start, ray, n)));
    }
    if m < n {
        assert(!blocked(map, probe_after(start, ray, m)));
    }
}

/// From a cell inside an enclosed map every ray enters a wall, after fewer
/// crossings than the map has rows and columns together; until then it stays
/// inside the map.
pub proof fn lemma_ray_reaches_wall(map: GridMap, position: Point, ray: Point)
    requires
        map.wf(),
        map.strictly_inside(position.x, position.y),
    ensures
        first_wall_at(map, probe_start(position, ray), ray, crossings(map, probe_start(position, ray), ray)),
        crossings(map, probe_start(position, ray), ray) < map.columns() + map.rows(),
        map.in_range(
            probe_after(probe_start(position, ray), ray, crossings(map, probe_start(position, ray), ray)).row,
            probe_after(probe_start(position, ray), ray, crossings(map, probe_start(position, ray), ray)).col,
        ),
{
    let start = probe_start(position, ray);
    let n = lemma_march(map, start, ray, 0);
    lemma_first_wall_unique(map, start, ray, n, crossings(map, start, ray));
}

/// Induction behind [`lemma_ray_reaches_wall`]: a ray that is inside the map
/// after `k` crossings, none of which met a wall, meets its first wall later.
proof fn lemma_march(map: GridMap, start: Probe, ray: Point, k: nat) -> (n: nat)
    requires
        map.wf(),
        interior(map, probe_after(start, ray, k)),
        forall|m: nat| 1 <= m <= k ==> !blocked(map, #[trigger] probe_after(start, ray, m)),
    ensures
        k < n,
        first_wall_at(map, start, ray, n),
        n + remaining(map, ray, probe_after(start, ray, n)) == k + remaining(
            map,
            ray,
            probe_after(start, ray, k),
        ),
        remaining(map, ray, probe_after(start, ray, n)) >= 0,
        map.in_range(probe_after(start, ray, n).row, probe_after(start, ray, n).col),
    decreases remaining(map, ray, probe_after(start, ray, k)),
{
    let p = probe_after(start, ray, k);
    let q = probe_after(start, ray, k + 1);
    assert(q == probe_step(ray, p));
    lemma_step_stays(map, ray, p);
    if blocked(map, q) {
        k + 1
    } else {
        lemma_march(map, start, ray, k + 1)
    }
}

/// The quotient of a negative number by a positive one, from the quotient and
/// remainder of its magnitude.
proof fn lemma_floor_of_negative(t: int, d: int)
    requires
        t >= 0,
        d > 0,
    ensures
        (-t) / d == if t % d == 0 {
            -(t / d)
        } else {
            -(t / d) - 1
        },
        0 <= t / d <= t,
{
    vstd::arithmetic::div_mod::lemma_fundamental_div_mod(t, d);
    vstd::arithmetic::div_mod::lemma_mod_bound(t, d);
    vstd::arithmetic::div_mod::lemma_div_pos_is_pos(t, d);
    vstd::arithmetic::div_mod::lemma_div_nonincreasing(t, d);
    let q = t / d;
    let r = t % d;
    if r == 0 {
        assert(-t == (-q) * d + 0) by (nonlinear_arith)
            requires
                t == d * q + r,
                r == 0,
        ;
        vstd::arithmetic::div_mod::lemma_fundamental_div_mod_converse(-t, d, -q, 0);
    } else {
        assert(-t == (-q - 1) * d + (d - r)) by (nonlinear_arith)
            requires
                t == d * q + r,
        ;
        vstd::arithmetic::div_mod::lemma_fundamental_div_mod_converse(-t, d, -q - 1, d - r);
    }
}

/// The direction of the ray through screen column `column` of `width`, times `width`.
pub fn ray_direction(camera: &Camera, column: usize, width: usize) -> (ray: Vec2)
    requires
        camera.wf(),
        column < width <= MAX_SCREEN_SIDE,
    ensures
        ray@ == ray_through(camera@, column as int, width as int),
        magnitude(ray.x as int) <= MAX_RAY,
        magnitude(ray.y as int) <= MAX_RAY,
{
    let direction = camera.direction();
    let plane = camera.plane();
    let w: i64 = width as i64;
    let k: i64 = 2 * (column as i64) - w;
    proof {
        lemma_coordinates_bounded(camera@.direction);
        lemma_coordinates_bounded(camera@.plane);
        lemma_product_range(direction.x as int, w as int, MAX_LENGTH as int, MAX_SCREEN_SIDE as int);
        lemma_product_range(direction.y as int, w as int, MAX_LENGTH as int, MAX_SCREEN_SIDE as int);
        lemma_product_range(plane.x as int, k as int, MAX_LENGTH as int, MAX_SCREEN_SIDE as int);
        lemma_product_range(plane.y as int, k as int, MAX_LENGTH as int, MAX_SCREEN_SIDE as int);
    }
    Vec2 { x: direction.x * w + plane.x * k, y: direction.y * w + plane.y * k }
}

/// The distance from the camera plane to a wall face that lies `reach` along an
/// axis on which the ray's direction, times `width`, has magnitude `along`.
pub fn perpendicular_distance(reach: u64, along: u64, width: usize) -> (d: i64)
    requires
        reach <= MAX_REACH,
        width <= MAX_SCREEN_SIDE,
    ensures
        d == distance_along(reach as int, along as int, width as int),
        0 <= d <= FAR,
{
    if along == 0 {
        return FAR;
    }
    assert(0 <= reach * width <= 0x4000_0000_0000_0000) by (nonlinear_arith)
        requires
            0 <= reach <= 0x1_0000_0000_0000,
            0 <= width <= 16384,
    ;
    let area: u128 = (reach as u128) * (width as u128);
    assert(area * ONE == reach * width * ONE && area * ONE <= 0x4000_0000_0000_0000 * 0x1_0000_0000)
        by (nonlinear_arith)
        requires
            area == reach * width,
            0 <= area <= 0x4000_0000_0000_0000,
            ONE == 0x1_0000_0000,
    ;
    let scaled: u128 = area * (ONE as u128);
    let d: u128 = scaled / (along as u128);
    if d > FAR as u128 {
        FAR
    } else {
        d as i64
    }
}

/// The fraction of a cell at which a ray lands on a wall face: the fractional
/// part of `landing(from, reach, across, along)`.
pub fn landing_fraction(from: i64, reach: u64, across: i64, along: u64) -> (f: i64)
    requires
        0 <= from <= MAX_COORDINATE,
        reach <= MAX_REACH,
        magnitude(across as int) <= MAX_RAY,
    ensures
        f == fraction(landing(from as int, reach as int, across as int, along as int)),
        0 <= f < ONE,
{
    if along == 0 {
        return from % ONE;
    }
    let size: u64 = magnitude_of(across);
    assert(0 <= reach * size <= 0x80_0000_0000_0000_0000_0000_0000) by (nonlinear_arith)
        requires
            0 <= reach <= 0x1_0000_0000_0000,
            0 <= size <= 0x80_0000_0000_0000,
    ;
    let t: u128 = (reach as u128) * (size as u128);
    let q: u128 = t / (along as u128);
    let r: u128 = t % (along as u128);
    proof {
        lemma_floor_of_negative(t as int, along as int);
        if across < 0 {
            assert(reach * across == -(reach * size)) by (nonlinear_arith)
                requires
                    size == -across,
            ;
        }
    }
    let shift: i128 = if across >= 0 {
        q as i128
    } else if r == 0 {
        -(q as i128)
    } else {
        -(q as i128) - 1
    };
    let at: i128 = from as i128 + shift;
    let one: i128 = ONE as i128;
    if at >= 0 {
        (at % one) as i64
    } else {
        let m: i128 = (-at) % one;
        if m == 0 {
            0
        } else {
            (one - m) as i64
        }
    }
}

/// Casts the ray through screen column `column` of `screen_width` from the
/// camera, and reports the first wall that it enters.
///
/// The camera stands in a cell of the map that is not on its border. The ray
/// then enters a wall after fewer crossings of grid lines than the map has rows
/// and columns together.
pub fn cast_column(camera: &Camera, column: usize, screen_width: usize, map: &GridMap) -> (hit:
    HitRecord)
    requires
        camera.wf(),
        map.wf(),
        map.strictly_inside(camera@.position.x, camera@.position.y),
        column < screen_width <= MAX_SCREEN_SIDE,
    ensures
        hit@ == cast(*map, camera@, column as int, screen_width as int),
        hit.wf(),
        map.holds(hit.cell_code as int),
        ({
            let ray = ray_through(camera@, column as int, screen_width as int);
            let start = probe_start(camera@.position, ray);
            &&& first_wall_at(*map, start, ray, crossings(*map, start, ray))
            &&& crossings(*map, start, ray) < map.columns() + map.rows()
        }),
{
    let position = camera.position();
    let ray = ray_direction(camera, column, screen_width);
    let along_x: u64 = magnitude_of(ray.x);
    let along_y: u64 = magnitude_of(ray.y);
    let one: u64 = ONE as u64;
    let mut col: usize = (position.x / ONE) as usize;
    let mut row: usize = (position.y / ONE) as usize;
    let part_x: u64 = (position.x % ONE) as u64;
    let part_y: u64 = (position.y % ONE) as u64;
    let mut reach_x: u64 = if ray.x < 0 {
        part_x
    } else {
        one - part_x
    };
    let mut reach_y: u64 = if ray.y < 0 {
        part_y
    } else {
        one - part_y
    };
    let mut side: bool = false;
    let mut code: u8 = 0;
    let ghost start = probe_start(camera@.position, ray@);
    let ghost mut n: nat = 0;
    proof {
        lemma_ray_reaches_wall(*map, camera@.position, ray@);
    }
    loop
        invariant_except_break
            interior(*map, probe_after(start, ray@, n)),
            forall|m: nat| 1 <= m <= n ==> !blocked(*map, #[trigger] probe_after(start, ray@, m)),
        invariant
            map.wf(),
            one == ONE,
            along_x == magnitude(ray.x as int),
            along_y == magnitude(ray.y as int),
            along_x <= MAX_RAY,
            along_y <= MAX_RAY,
            probe_after(start, ray@, n) == (Probe {
                col: col as int,
                row: row as int,
                reach_x: reach_x as int,
                reach_y: reach_y as int,
                side,
            }),
            n + remaining(*map, ray@, probe_after(start, ray@, n)) == remaining(*map, ray@, start),
            remaining(*map, ray@, probe_after(start, ray@, n)) >= 0,
            remaining(*map, ray@, start) <= map.columns() + map.rows(),
            0 <= reach_x <= ONE * (n + 1),
            0 <= reach_y <= ONE * (n + 1),
            n >= 1 && side ==> reach_y >= ONE,
            n >= 1 && !side ==> reach_x >= ONE,
        ensures
            first_wall_at(*map, start, ray@, n),
            map.in_range(row as int, col as int),
            code == map.cell(row as int, col as int),
        decreases remaining(*map, ray@, probe_after(start, ray@, n)),
    {
        proof {
            lemma_step_stays(*map, ray@, probe_after(start, ray@, n));
            assert(probe_after(start, ray@, n + 1) == probe_step(ray@, probe_after(start, ray@, n)));
            assert(0 <= reach_x * along_y <= 0x80_0000_0000_0000_0000_0000_0000) by (nonlinear_arith)
                requires
                    0 <= reach_x <= 0x1_0000_0000_0000,
                    0 <= along_y <= 0x80_0000_0000_0000,
            ;
            assert(0 <= reach_y * along_x <= 0x80_0000_0000_0000_0000_0000_0000) by (nonlinear_arith)
                requires
                    0 <= reach_y <= 0x1_0000_0000_0000,
                    0 <= along_x <= 0x80_0000_0000_0000,
            ;
        }
        if (reach_x as u128) * (along_y as u128) < (reach_y as u128) * (along_x as u128) {
            reach_x = reach_x + one;
            if ray.x < 0 {
                col = col - 1;
            } else {
                col = col + 1;
            }
            side = false;
        } else {
            reach_y = reach_y + one;
            if ray.y < 0 {
                row = row - 1;
            } else {
                row = row + 1;
            }
            side = true;
        }
        proof {
            n = n + 1;
        }
        code = map.cell_at(row, col);
        if code != 0 {
            break ;
        }
    }
    proof {
        lemma_first_wall_unique(*map, start, ray@, n, crossings(*map, start, ray@));
    }
    let reach: u64 = if side {
        reach_y - one
    } else {
        reach_x - one
    };
    let along: u64 = if side {
        along_y
    } else {
        along_x
    };
    let across: i64 = if side {
        ray.x
    } else {
        ray.y
    };
    let from: i64 = if side {
        position.x
    } else {
        position.y
    };
    let distance = perpendicular_distance(reach, along, screen_width);
    let landed = landing_fraction(from, reach, across, along);
    let mirror: bool = (!side && ray.x > 0) || (side && ray.y < 0);
    let wall_fraction: i64 = if mirror {
        ONE - 1 - landed
    } else {
        landed
    };
    HitRecord { cell_code: code, perpendicular_distance: distance, side_hit: side, wall_fraction }
}

} // verus!
