//! The traversal and the geometry of the ray: what the numbers of a probe
//! measure, that grid lines are crossed in the order in which the ray meets
//! them, and that the ray lands on the face of the cell that it enters.

use vstd::prelude::*;
use crate::camera::Pose;
use crate::fixed::{fraction, magnitude, whole, FAR, ONE};
use crate::grid::GridMap;
use crate::raycast::{
    blocked,
    cast,
    crossings,
    distance_along,
    first_wall_at,
    hit_landing,
    hit_reach,
    landing,
    lemma_ray_reaches_wall,
    probe_after,
    probe_start,
    probe_step,
    ray_through,
    Probe,
};
use crate::vector::Point;

verus! {

/// The distance from coordinate `v` to the side of the cell of index `cell`
/// that lies ahead in the sense of `r`.
pub open spec fn to_far_side(v: int, r: int, cell: int) -> int {
    if r < 0 {
        v - cell * ONE
    } else {
        (cell + 1) * ONE - v
    }
}

/// The next grid line of each axis is no nearer than the line of the other
/// axis that was crossed last: no line was passed over.
pub open spec fn in_order(ray: Point, p: Probe) -> bool {
    &&& (p.reach_x - ONE) * magnitude(ray.y) <= p.reach_y * magnitude(ray.x)
    &&& (p.reach_y - ONE) * magnitude(ray.x) <= p.reach_x * magnitude(ray.y)
}

/// The grid line crossed last was met after the last line of the other axis,
/// and before its next: strictly before, where a vertical line was crossed.
pub open spec fn crossed_in_turn(ray: Point, p: Probe) -> bool {
    if p.side {
        (p.reach_x - ONE) * magnitude(ray.y) <= (p.reach_y - ONE) * magnitude(ray.x) <= p.reach_x
            * magnitude(ray.y)
    } else {
        (p.reach_y - ONE) * magnitude(ray.x) <= (p.reach_x - ONE) * magnitude(ray.y) < p.reach_y
            * magnitude(ray.x)
    }
}

/// Multiplying by a number that is not negative keeps the order.
proof fn lemma_scale_monotone(a: int, b: int, m: int)
    by (nonlinear_arith)
    requires
        a <= b,
        m >= 0,
    ensures
        a * m <= b * m,
{
}

/// A quotient lies between two numbers where the dividend lies between their
/// products with the divisor.
proof fn lemma_quotient_between(a: int, d: int, lo: int, hi: int)
    requires
        d > 0,
        lo * d <= a <= hi * d,
    ensures
        lo <= a / d <= hi,
{
    vstd::arithmetic::div_mod::lemma_fundamental_div_mod(a, d);
    vstd::arithmetic::div_mod::lemma_mod_bound(a, d);
    let q = a / d;
    let r = a % d;
    assert(lo <= q) by (nonlinear_arith)
        requires
            d > 0,
            lo * d <= a,
            a == d * q + r,
            r < d,
    ;
    assert(q <= hi) by (nonlinear_arith)
        requires
            d > 0,
            a <= hi * d,
            a == d * q + r,
            r >= 0,
    ;
}

/// After any number of crossings, the reach along each axis is the distance
/// from the camera to the side ahead of the cell that the ray is in.
pub proof fn lemma_reach_measures(position: Point, ray: Point, n: nat)
    ensures
        probe_after(probe_start(position, ray), ray, n).reach_x == to_far_side(
            position.x,
            ray.x,
            probe_after(probe_start(position, ray), ray, n).col,
        ),
        probe_after(probe_start(position, ray), ray, n).reach_y == to_far_side(
            position.y,
            ray.y,
            probe_after(probe_start(position, ray), ray, n).row,
        ),
        probe_after(probe_start(position, ray), ray, n).reach_x >= 0,
        probe_after(probe_start(position, ray), ray, n).reach_y >= 0,
    decreases n,
{
    let start = probe_start(position, ray);
    assert(ONE == 4294967296);
    if n == 0 {
        assert(position.x == ONE * whole(position.x) + fraction(position.x));
        assert(position.y == ONE * whole(position.y) + fraction(position.y));
    } else {
        lemma_reach_measures(position, ray, (n - 1) as nat);
        let p = probe_after(start, ray, (n - 1) as nat);
        assert(probe_after(start, ray, n) == probe_step(ray, p));
    }
}

/// The reach behind the line crossed last is the distance, along the axis of
/// that line, from the camera to the near face of the cell that the ray has
/// entered.
pub proof fn lemma_reach_to_entered_face(position: Point, ray: Point, n: nat)
    ensures
        ({
            let p = probe_after(probe_start(position, ray), ray, n);
            hit_reach(p) == if p.side {
                if ray.y < 0 {
                    position.y - (p.row + 1) * ONE
                } else {
                    p.row * ONE - position.y
                }
            } else {
                if ray.x < 0 {
                    position.x - (p.col + 1) * ONE
                } else {
                    p.col * ONE - position.x
                }
            }
        }),
{
    lemma_reach_measures(position, ray, n);
    assert(ONE == 4294967296);
}

/// After any number of crossings no grid line was passed over, and the line
/// crossed last was the nearer of the two. A ray that does not move along x
/// crosses no vertical line.
pub proof fn lemma_crossed_in_order(position: Point, ray: Point, n: nat)
    ensures
        in_order(ray, probe_after(probe_start(position, ray), ray, n)),
        ray.x >= 0 ==> probe_after(probe_start(position, ray), ray, n).reach_x > 0,
        ray.y >= 0 ==> probe_after(probe_start(position, ray), ray, n).reach_y > 0,
        ray.x == 0 ==> probe_after(probe_start(position, ray), ray, n).reach_x <= ONE,
        n >= 1 ==> crossed_in_turn(ray, probe_after(probe_start(position, ray), ray, n)),
        n >= 1 ==> hit_reach(probe_after(probe_start(position, ray), ray, n)) >= 0,
        n >= 1 && ray.x >= 0 && !probe_after(probe_start(position, ray), ray, n).side
            ==> hit_reach(probe_after(probe_start(position, ray), ray, n)) > 0,
        n >= 1 && ray.y >= 0 && probe_after(probe_start(position, ray), ray, n).side
            ==> hit_reach(probe_after(probe_start(position, ray), ray, n)) > 0,
    decreases n,
{
    let start = probe_start(position, ray);
    let ax = magnitude(ray.x);
    let ay = magnitude(ray.y);
    assert(ONE == 4294967296);
    if n == 0 {
        assert(0 <= start.reach_x <= ONE && 0 <= start.reach_y <= ONE);
        lemma_scale_monotone(start.reach_x - ONE, 0, ay);
        lemma_scale_monotone(0, start.reach_y, ax);
        lemma_scale_monotone(start.reach_y - ONE, 0, ax);
        lemma_scale_monotone(0, start.reach_x, ay);
    } else {
        let p = probe_after(start, ray, (n - 1) as nat);
        let q = probe_after(start, ray, n);
        lemma_crossed_in_order(position, ray, (n - 1) as nat);
        lemma_reach_measures(position, ray, (n - 1) as nat);
        assert(q == probe_step(ray, p));
        lemma_scale_monotone(0, p.reach_x, ay);
        if q.side {
            assert(q.reach_y - ONE == p.reach_y);
            lemma_scale_monotone(p.reach_y, q.reach_y, ax);
        } else {
            assert(q.reach_x - ONE == p.reach_x);
            lemma_scale_monotone(p.reach_x, q.reach_x, ay);
            if ray.x == 0 {
                assert(p.reach_y * ax == 0) by (nonlinear_arith)
                    requires
                        ax == 0,
                ;
            }
        }
    }
}

/// The ray lands on the face of the cell that it has entered: the coordinate
/// at which it crossed its last grid line lies between the two ends of that
/// cell.
pub proof fn lemma_lands_on_entered_cell(position: Point, ray: Point, n: nat)
    requires
        n >= 1,
    ensures
        ({
            let p = probe_after(probe_start(position, ray), ray, n);
            let cell = if p.side {
                p.col
            } else {
                p.row
            };
            cell * ONE <= hit_landing(position, ray, p) <= (cell + 1) * ONE
        }),
{
    let p = probe_after(probe_start(position, ray), ray, n);
    lemma_reach_measures(position, ray, n);
    lemma_crossed_in_order(position, ray, n);
    assert(ONE == 4294967296);
    let reach = hit_reach(p);
    let ax = magnitude(ray.x);
    let ay = magnitude(ray.y);
    if p.side {
        if ay == 0 {
            assert(p.reach_x * ay == 0) by (nonlinear_arith)
                requires
                    ay == 0,
            ;
            assert(ax == 0) by (nonlinear_arith)
                requires
                    reach * ax <= 0,
                    reach > 0,
                    ax >= 0,
            ;
        } else {
            lemma_landing_between(position.x, reach, ray.x, ay, p.reach_x);
        }
    } else {
        lemma_scale_monotone(0, reach, ay);
        assert(ax != 0) by (nonlinear_arith)
            requires
                0 < p.reach_y * ax,
        ;
        lemma_landing_between(position.y, reach, ray.y, ax, p.reach_y);
    }
}

/// The shift of a ray on the other axis, while it advances `reach` along the
/// first, is between the distances to the last and to the next line of the
/// other axis, where the crossing of the first lies between those of the two.
proof fn lemma_landing_between(from: int, reach: int, across: int, along: int, next: int)
    requires
        along > 0,
        (next - ONE) * along <= reach * magnitude(across) <= next * along,
    ensures
        across >= 0 ==> next - ONE <= landing(from, reach, across, along) - from <= next,
        across < 0 ==> -next <= landing(from, reach, across, along) - from <= ONE - next,
{
    if across >= 0 {
        lemma_quotient_between(reach * across, along, next - ONE, next);
    } else {
        assert(reach * across == -(reach * magnitude(across))) by (nonlinear_arith)
            requires
                magnitude(across) == -across,
        ;
        assert((-next) * along == -(next * along)) by (nonlinear_arith);
        assert((ONE - next) * along == -((next - ONE) * along)) by (nonlinear_arith);
        lemma_quotient_between(reach * across, along, -next, ONE - next);
    }
}

/// What a cast from inside the map reports is a wall of the map, at a
/// distance that is not negative, met at a fraction of its face.
pub proof fn lemma_cast_reports_a_wall(map: GridMap, pose: Pose, column: int, width: int)
    requires
        map.wf(),
        map.strictly_inside(pose.position.x, pose.position.y),
        width > 0,
    ensures
        cast(map, pose, column, width).cell_code != 0,
        map.holds(cast(map, pose, column, width).cell_code),
        cast(map, pose, column, width).perpendicular_distance >= 0,
        0 <= cast(map, pose, column, width).wall_fraction < ONE,
{
    let ray = ray_through(pose, column, width);
    let start = probe_start(pose.position, ray);
    let n = crossings(map, start, ray);
    let p = probe_after(start, ray, n);
    lemma_ray_reaches_wall(map, pose.position, ray);
    assert(first_wall_at(map, start, ray, n));
    assert(blocked(map, p));
    assert(map.in_range(p.row, p.col) && map.cell(p.row, p.col) == cast(
        map,
        pose,
        column,
        width,
    ).cell_code);
    lemma_crossed_in_order(pose.position, ray, n);
    let reach = hit_reach(p);
    let along = if p.side {
        magnitude(ray.y)
    } else {
        magnitude(ray.x)
    };
    if along != 0 {
        assert(reach * width * ONE >= 0) by (nonlinear_arith)
            requires
                reach >= 0,
                width > 0,
                ONE > 0,
        ;
        vstd::arithmetic::div_mod::lemma_div_pos_is_pos(reach * width * ONE, along);
    }
    assert(ONE == 4294967296);
}

/// Seen along an axis, with the plane across it, a wall across that axis is at
/// the same perpendicular distance in every column of the screen, whatever its
/// width: the distance from the camera to the wall, in lengths of the
/// direction. The picture of a flat wall is flat.
pub proof fn lemma_flat_wall_looks_flat(pose: Pose, column: int, width: int, reach: int)
    requires
        width > 0,
        reach >= 0,
    ensures
        pose.plane.x == 0 ==> distance_along(
            reach,
            magnitude(ray_through(pose, column, width).x),
            width,
        ) == distance_along(reach, magnitude(pose.direction.x), 1),
        pose.plane.y == 0 ==> distance_along(
            reach,
            magnitude(ray_through(pose, column, width).y),
            width,
        ) == distance_along(reach, magnitude(pose.direction.y), 1),
        distance_along(reach, ONE as int, 1) == if reach > FAR {
            FAR as int
        } else {
            reach
        },
{
    assert(ONE == 4294967296);
    if pose.plane.x == 0 {
        assert(pose.plane.x * (2 * column - width) == 0) by (nonlinear_arith)
            requires
                pose.plane.x == 0,
        ;
        lemma_width_cancels(reach, pose.direction.x, width);
    }
    if pose.plane.y == 0 {
        assert(pose.plane.y * (2 * column - width) == 0) by (nonlinear_arith)
            requires
                pose.plane.y == 0,
        ;
        lemma_width_cancels(reach, pose.direction.y, width);
    }
    assert(reach * 1 * ONE == reach * ONE) by (nonlinear_arith);
    assert((reach * ONE) / (ONE as int) == reach) by {
        vstd::arithmetic::div_mod::lemma_div_multiples_vanish(reach, ONE as int);
        assert(reach * ONE == ONE * reach) by (nonlinear_arith);
    }
}

/// The width of the screen cancels from the distance of a ray whose
/// direction is `width` times `d`.
proof fn lemma_width_cancels(reach: int, d: int, width: int)
    requires
        width > 0,
        reach >= 0,
    ensures
        distance_along(reach, magnitude(d * width), width) == distance_along(
            reach,
            magnitude(d),
            1,
        ),
{
    let m = magnitude(d);
    assert(magnitude(d * width) == m * width) by (nonlinear_arith)
        requires
            width > 0,
            m == magnitude(d),
    ;
    if m == 0 {
        assert(m * width == 0) by (nonlinear_arith)
            requires
                m == 0,
        ;
    } else {
        assert(m * width > 0) by (nonlinear_arith)
            requires
                m > 0,
                width > 0,
        ;
        assert(reach * ONE >= 0) by (nonlinear_arith)
            requires
                reach >= 0,
                ONE > 0,
        ;
        vstd::arithmetic::div_mod::lemma_div_multiples_vanish_quotient(width, reach * ONE, m);
        assert(reach * width * ONE == width * (reach * ONE)) by (nonlinear_arith);
        assert(m * width == width * m) by (nonlinear_arith);
        assert(reach * 1 * ONE == reach * ONE) by (nonlinear_arith);
    }
}

} // verus!
