//! Plane vectors in fixed-point coordinates, and their rotation.

use vstd::prelude::*;
use crate::fixed::{
    lemma_product_range,
    lemma_toward_zero_shrinks,
    magnitude,
    toward_zero,
    MAX_LENGTH,
    MAX_PRODUCT,
    ONE,
};

verus! {

/// A point or vector of the plane with integer coordinates: the mathematical
/// value of a [`Vec2`].
pub ghost struct Point {
    pub x: int,
    pub y: int,
}

/// A point or vector of the plane in fixed-point coordinates.
#[derive(Clone, Copy, Debug, PartialEq, Eq)]
pub struct Vec2 {
    pub x: i64,
    pub y: i64,
}

/// A rotation of the plane, given by the fixed-point cosine and sine of its angle.
#[derive(Clone, Copy, Debug, PartialEq, Eq)]
pub struct Rotation {
    /// The cosine of the angle, in fixed point.
    pub cos: i64,
    /// The sine of the angle, in fixed point.
    pub sin: i64,
}

/// The squared length of a vector.
pub open spec fn norm_sq(p: Point) -> int {
    p.x * p.x + p.y * p.y
}

/// The dot product of two vectors.
pub open spec fn dot(p: Point, q: Point) -> int {
    p.x * q.x + p.y * q.y
}

/// The vector `p` turned by the angle whose cosine and sine are `cos / ONE` and
/// `sin / ONE`, before the division by `ONE`: the exact image, in units of
/// `1 / ONE` of those of `p`. The turn brings `(x, y)` toward `(y, -x)`: with a
/// positive sine a viewer who looks along `p` turns to the side on which
/// `(y, -x)` lies, with a negative sine to the other.
pub open spec fn turned_exact(p: Point, cos: int, sin: int) -> Point {
    Point { x: p.x * cos + p.y * sin, y: p.y * cos - p.x * sin }
}

/// The vector `p` turned as in [`turned_exact`], each coordinate rounded toward zero.
pub open spec fn turned(p: Point, cos: int, sin: int) -> Point {
    let e = turned_exact(p, cos, sin);
    Point { x: toward_zero(e.x, ONE as int), y: toward_zero(e.y, ONE as int) }
}

/// The vector `p` scaled by the fixed-point factor `k`, each coordinate rounded toward zero.
pub open spec fn scaled(p: Point, k: int) -> Point {
    Point { x: toward_zero(p.x * k, ONE as int), y: toward_zero(p.y * k, ONE as int) }
}

impl View for Vec2 {
    type V = Point;

    open spec fn view(&self) -> Point {
        Point { x: self.x as int, y: self.y as int }
    }
}

impl Vec2 {
    /// The vector is no longer than `MAX_LENGTH`.
    pub open spec fn bounded(&self) -> bool {
        norm_sq(self@) <= MAX_LENGTH * MAX_LENGTH
    }

    /// The vector with the given coordinates.
    pub fn new(x: i64, y: i64) -> (v: Vec2)
        ensures
            v@ == (Point { x: x as int, y: y as int }),
    {
        Vec2 { x, y }
    }

    /// Whether the vector is no longer than `MAX_LENGTH`.
    pub fn is_bounded(&self) -> (b: bool)
        ensures
            b == self.bounded(),
    {
        if self.x > MAX_LENGTH || self.x < -MAX_LENGTH || self.y > MAX_LENGTH || self.y
            < -MAX_LENGTH {
            proof {
                lemma_long_coordinate(self@);
            }
            return false;
        }
        proof {
            lemma_product_range(self.x as int, self.x as int, MAX_LENGTH as int, MAX_LENGTH as int);
            lemma_product_range(self.y as int, self.y as int, MAX_LENGTH as int, MAX_LENGTH as int);
        }
        let xx: i128 = (self.x as i128) * (self.x as i128);
        let yy: i128 = (self.y as i128) * (self.y as i128);
        xx + yy <= (MAX_LENGTH as i128) * (MAX_LENGTH as i128)
    }

    /// The vector scaled by the fixed-point factor `k`.
    pub fn scaled_by(&self, k: i64) -> (v: Vec2)
        requires
            self.bounded(),
            magnitude(k as int) <= MAX_LENGTH,
        ensures
            v@ == scaled(self@, k as int),
            magnitude(v.x as int) <= MAX_PRODUCT,
            magnitude(v.y as int) <= MAX_PRODUCT,
    {
        proof {
            lemma_coordinates_bounded(self@);
        }
        Vec2 { x: crate::fixed::multiply(self.x, k), y: crate::fixed::multiply(self.y, k) }
    }

    /// The vector turned by `r`.
    pub fn rotated(&self, r: &Rotation) -> (v: Vec2)
        requires
            self.bounded(),
            r.wf(),
        ensures
            v@ == turned(self@, r.cos as int, r.sin as int),
            v.bounded(),
    {
        proof {
            lemma_coordinates_bounded(self@);
            r.lemma_parts_bounded();
            lemma_product_range(self.x as int, r.cos as int, MAX_LENGTH as int, ONE as int);
            lemma_product_range(self.y as int, r.sin as int, MAX_LENGTH as int, ONE as int);
            lemma_product_range(self.y as int, r.cos as int, MAX_LENGTH as int, ONE as int);
            lemma_product_range(self.x as int, r.sin as int, MAX_LENGTH as int, ONE as int);
            lemma_turn_never_lengthens(self@, r.cos as int, r.sin as int);
            lemma_coordinates_bounded(turned(self@, r.cos as int, r.sin as int));
        }
        let ex: i128 = (self.x as i128) * (r.cos as i128) + (self.y as i128) * (r.sin as i128);
        let ey: i128 = (self.y as i128) * (r.cos as i128) - (self.x as i128) * (r.sin as i128);
        let x: i128 = ex / (ONE as i128);
        let y: i128 = ey / (ONE as i128);
        Vec2 { x: x as i64, y: y as i64 }
    }
}

impl Rotation {
    /// The cosine and sine are those of an angle, or fall short of them by
    /// rounding: their squares sum to at most one.
    pub open spec fn wf(&self) -> bool {
        self.cos * self.cos + self.sin * self.sin <= ONE * ONE
    }

    /// The rotation with the given cosine and sine, if their squares sum to at most one.
    pub fn new(cos: i64, sin: i64) -> (r: Option<Rotation>)
        ensures
            r.is_some() <==> cos * cos + sin * sin <= ONE * ONE,
            r matches Some(t) ==> t.cos == cos && t.sin == sin && t.wf(),
    {
        if cos > ONE || cos < -ONE || sin > ONE || sin < -ONE {
            proof {
                if magnitude(cos as int) > ONE {
                    lemma_square_exceeds(cos as int, sin as int, ONE as int);
                } else {
                    lemma_square_exceeds(sin as int, cos as int, ONE as int);
                }
            }
            return None;
        }
        proof {
            lemma_product_range(cos as int, cos as int, ONE as int, ONE as int);
            lemma_product_range(sin as int, sin as int, ONE as int, ONE as int);
        }
        let cc: i128 = (cos as i128) * (cos as i128);
        let ss: i128 = (sin as i128) * (sin as i128);
        if cc + ss <= (ONE as i128) * (ONE as i128) {
            Some(Rotation { cos, sin })
        } else {
            None
        }
    }

    /// The rotation by the same angle in the other sense.
    pub fn reversed(&self) -> (r: Rotation)
        requires
            self.wf(),
        ensures
            r.cos == self.cos,
            r.sin == -self.sin,
            r.wf(),
    {
        proof {
            self.lemma_parts_bounded();
            assert((-self.sin) * (-self.sin) == self.sin * self.sin) by (nonlinear_arith);
        }
        Rotation { cos: self.cos, sin: -self.sin }
    }

    /// The cosine and the sine of a rotation lie in `[-ONE, ONE]`.
    pub proof fn lemma_parts_bounded(&self)
        requires
            self.wf(),
        ensures
            magnitude(self.cos as int) <= ONE,
            magnitude(self.sin as int) <= ONE,
    {
        if magnitude(self.cos as int) > ONE {
            lemma_square_exceeds(self.cos as int, self.sin as int, ONE as int);
        }
        if magnitude(self.sin as int) > ONE {
            lemma_square_exceeds(self.sin as int, self.cos as int, ONE as int);
        }
    }
}

/// Where one coordinate exceeds `l` in magnitude, the squares sum to more than `l * l`.
proof fn lemma_square_exceeds(a: int, b: int, l: int)
    by (nonlinear_arith)
    requires
        l >= 0,
        magnitude(a) > l,
    ensures
        a * a + b * b > l * l,
{
}

/// A vector with a coordinate beyond `MAX_LENGTH` is longer than `MAX_LENGTH`.
proof fn lemma_long_coordinate(p: Point)
    requires
        magnitude(p.x) > MAX_LENGTH || magnitude(p.y) > MAX_LENGTH,
    ensures
        norm_sq(p) > MAX_LENGTH * MAX_LENGTH,
{
    if magnitude(p.x) > MAX_LENGTH {
        lemma_square_exceeds(p.x, p.y, MAX_LENGTH as int);
    } else {
        lemma_square_exceeds(p.y, p.x, MAX_LENGTH as int);
    }
}

/// The coordinates of a vector no longer than `MAX_LENGTH` are at most `MAX_LENGTH`.
pub(crate) proof fn lemma_coordinates_bounded(p: Point)
    requires
        norm_sq(p) <= MAX_LENGTH * MAX_LENGTH,
    ensures
        magnitude(p.x) <= MAX_LENGTH,
        magnitude(p.y) <= MAX_LENGTH,
{
    if magnitude(p.x) > MAX_LENGTH || magnitude(p.y) > MAX_LENGTH {
        lemma_long_coordinate(p);
    }
}

/// The square of a sum.
proof fn lemma_square_of_sum(a: int, b: int)
    by (nonlinear_arith)
    ensures
        (a + b) * (a + b) == a * a + 2 * (a * b) + b * b,
        (a - b) * (a - b) == a * a - 2 * (a * b) + b * b,
{
}

/// The product of two sums.
proof fn lemma_product_of_sums(a: int, b: int, c: int, d: int)
    by (nonlinear_arith)
    ensures
        (a + b) * (c + d) == a * c + a * d + b * c + b * d,
        (a + b) * (c - d) == a * c - a * d + b * c - b * d,
{
}

/// Products of products, regrouped.
proof fn lemma_regroup(a: int, b: int, c: int, d: int)
    by (nonlinear_arith)
    ensures
        (a * b) * (c * d) == (a * c) * (b * d),
        (a * b) * (c * d) == (a * d) * (c * b),
{
}

/// A number and its magnitude have the same square.
proof fn lemma_square_of_magnitude(a: int)
    by (nonlinear_arith)
    ensures
        magnitude(a) * magnitude(a) == a * a,
{
}

/// A rotation multiplies squared lengths by `cos^2 + sin^2`: where that is
/// `ONE^2`, the exact image of a vector is as long as the vector.
pub proof fn lemma_turn_preserves_norm(p: Point, cos: int, sin: int)
    ensures
        norm_sq(turned_exact(p, cos, sin)) == norm_sq(p) * (cos * cos + sin * sin),
{
    let (x, y) = (p.x, p.y);
    lemma_square_of_sum(x * cos, y * sin);
    lemma_square_of_sum(y * cos, x * sin);
    lemma_regroup(x, cos, y, sin);
    lemma_regroup(y, cos, x, sin);
    lemma_regroup(x, cos, x, cos);
    lemma_regroup(y, sin, y, sin);
    lemma_regroup(y, cos, y, cos);
    lemma_regroup(x, sin, x, sin);
    lemma_product_of_sums(x * x, y * y, cos * cos, sin * sin);
}

/// A rotation multiplies dot products by `cos^2 + sin^2`: perpendicular
/// vectors have perpendicular exact images.
pub proof fn lemma_turn_preserves_dot(p: Point, q: Point, cos: int, sin: int)
    ensures
        dot(turned_exact(p, cos, sin), turned_exact(q, cos, sin)) == dot(p, q) * (cos * cos
            + sin * sin),
{
    let (x, y, u, v) = (p.x, p.y, q.x, q.y);
    lemma_product_of_sums(x * cos, y * sin, u * cos, v * sin);
    lemma_product_of_sums(y * cos, -(x * sin), v * cos, u * sin);
    assert((y * cos - x * sin) * (v * cos - u * sin) == (y * cos + (-(x * sin))) * (v * cos - u
        * sin));
    assert((-(x * sin)) * (v * cos) == -((x * sin) * (v * cos))) by (nonlinear_arith);
    assert((-(x * sin)) * (u * sin) == -((x * sin) * (u * sin))) by (nonlinear_arith);
    lemma_regroup(x, cos, u, cos);
    lemma_regroup(x, cos, v, sin);
    lemma_regroup(y, sin, u, cos);
    lemma_regroup(y, sin, v, sin);
    lemma_regroup(y, cos, v, cos);
    lemma_regroup(y, cos, u, sin);
    lemma_regroup(x, sin, v, cos);
    lemma_regroup(x, sin, u, sin);
    lemma_product_of_sums(x * u, y * v, cos * cos, sin * sin);
    assert((x * v) * (cos * sin) == (x * v) * (sin * cos)) by (nonlinear_arith);
    assert((y * u) * (cos * sin) == (y * u) * (sin * cos)) by (nonlinear_arith);
}

/// Each coordinate of a turned vector is its exact value rounded toward zero:
/// it differs from it by less than one unit.
pub proof fn lemma_turn_rounding(p: Point, cos: int, sin: int)
    ensures
        magnitude(turned(p, cos, sin).x) * ONE <= magnitude(turned_exact(p, cos, sin).x) < (
        magnitude(turned(p, cos, sin).x) + 1) * ONE,
        magnitude(turned(p, cos, sin).y) * ONE <= magnitude(turned_exact(p, cos, sin).y) < (
        magnitude(turned(p, cos, sin).y) + 1) * ONE,
{
    let e = turned_exact(p, cos, sin);
    lemma_toward_zero_shrinks(e.x, ONE as int);
    lemma_toward_zero_shrinks(e.y, ONE as int);
}

/// A rotation keeps the length of a vector up to the rounding of its two
/// coordinates: the squared length `n` of the turned vector `t`, to the scale
/// of the exact image, is at most that of the exact image, and
/// `n + 2 * (|t.x| + |t.y|) + 2`, the squared length of `t` with each
/// coordinate one unit further from zero, is more than it.
pub proof fn lemma_turn_keeps_norm(p: Point, cos: int, sin: int)
    ensures
        norm_sq(turned(p, cos, sin)) * (ONE * ONE) <= norm_sq(p) * (cos * cos + sin * sin),
        norm_sq(p) * (cos * cos + sin * sin) < (norm_sq(turned(p, cos, sin)) + 2 * (magnitude(
            turned(p, cos, sin).x,
        ) + magnitude(turned(p, cos, sin).y)) + 2) * (ONE * ONE),
{
    let e = turned_exact(p, cos, sin);
    let t = turned(p, cos, sin);
    lemma_turn_preserves_norm(p, cos, sin);
    lemma_turn_rounding(p, cos, sin);
    lemma_square_monotone(magnitude(t.x) * ONE, magnitude(e.x));
    lemma_square_monotone(magnitude(t.y) * ONE, magnitude(e.y));
    lemma_square_strictly_monotone(magnitude(e.x), (magnitude(t.x) + 1) * ONE);
    lemma_square_strictly_monotone(magnitude(e.y), (magnitude(t.y) + 1) * ONE);
    lemma_square_of_magnitude(t.x);
    lemma_square_of_magnitude(t.y);
    lemma_square_of_magnitude(e.x);
    lemma_square_of_magnitude(e.y);
    let one = ONE as int;
    let (ax, ay) = (magnitude(t.x), magnitude(t.y));
    assert(norm_sq(t) * (one * one) <= norm_sq(e)) by (nonlinear_arith)
        requires
            (ax * one) * (ax * one) <= e.x * e.x,
            (ay * one) * (ay * one) <= e.y * e.y,
            norm_sq(t) == ax * ax + ay * ay,
            norm_sq(e) == e.x * e.x + e.y * e.y,
    ;
    let unit = one * one;
    assert(((ax + 1) * one) * ((ax + 1) * one) == (ax * ax + 2 * ax + 1) * unit)
        by (nonlinear_arith)
        requires
            unit == one * one,
    ;
    assert(((ay + 1) * one) * ((ay + 1) * one) == (ay * ay + 2 * ay + 1) * unit)
        by (nonlinear_arith)
        requires
            unit == one * one,
    ;
    assert((ax * ax + 2 * ax + 1) * unit + (ay * ay + 2 * ay + 1) * unit == (norm_sq(t) + 2 * (ax
        + ay) + 2) * unit) by (nonlinear_arith)
        requires
            norm_sq(t) == ax * ax + ay * ay,
    ;
}

/// A rotation never lengthens a vector.
pub proof fn lemma_turn_never_lengthens(p: Point, cos: int, sin: int)
    requires
        cos * cos + sin * sin <= ONE * ONE,
    ensures
        norm_sq(turned(p, cos, sin)) <= norm_sq(p),
{
    let t = turned(p, cos, sin);
    lemma_turn_keeps_norm(p, cos, sin);
    let one = ONE as int;
    assert(norm_sq(p) >= 0) by (nonlinear_arith)
        requires
            norm_sq(p) == p.x * p.x + p.y * p.y,
    ;
    assert(norm_sq(t) <= norm_sq(p)) by (nonlinear_arith)
        requires
            norm_sq(t) * (one * one) <= norm_sq(p) * (cos * cos + sin * sin),
            cos * cos + sin * sin <= one * one,
            one > 0,
            norm_sq(p) >= 0,
    ;
}

/// The vector `p` after the rotations `turns`, one after the other.
pub open spec fn turned_by_all(p: Point, turns: Seq<Rotation>) -> Point
    decreases turns.len(),
{
    if turns.len() == 0 {
        p
    } else {
        turned(
            turned_by_all(p, turns.drop_last()),
            turns.last().cos as int,
            turns.last().sin as int,
        )
    }
}

/// No sequence of rotations lengthens a vector.
pub proof fn lemma_turns_never_lengthen(p: Point, turns: Seq<Rotation>)
    requires
        forall|i: int| 0 <= i < turns.len() ==> (#[trigger] turns[i]).wf(),
    ensures
        norm_sq(turned_by_all(p, turns)) <= norm_sq(p),
    decreases turns.len(),
{
    if turns.len() > 0 {
        let before = turns.drop_last();
        assert forall|i: int| 0 <= i < before.len() implies (#[trigger] before[i]).wf() by {
            assert(before[i] == turns[i]);
        }
        lemma_turns_never_lengthen(p, before);
        assert(turns.last().wf());
        lemma_turn_never_lengthens(
            turned_by_all(p, before),
            turns.last().cos as int,
            turns.last().sin as int,
        );
    }
}

/// Squaring is strictly monotone on the non-negative integers.
proof fn lemma_square_strictly_monotone(a: int, b: int)
    by (nonlinear_arith)
    requires
        0 <= a < b,
    ensures
        a * a < b * b,
{
}

/// Squaring is monotone on the non-negative integers.
proof fn lemma_square_monotone(a: int, b: int)
    by (nonlinear_arith)
    requires
        0 <= a <= b,
    ensures
        a * a <= b * b,
{
}

} // verus!
