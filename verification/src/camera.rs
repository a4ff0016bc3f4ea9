//! The camera: where the viewer stands, where it looks, and how wide it sees.

use vstd::prelude::*;
use crate::fixed::{magnitude, MAX_LENGTH, MAX_PRODUCT, ONE};
use crate::grid::GridMap;
use crate::vector::{norm_sq, scaled, turned, Point, Rotation, Vec2};

verus! {

/// The largest coordinate that a position may have: the far edge of the largest map.
pub const MAX_COORDINATE: i64 = 70368744177664;

/// The mathematical value of a [`Camera`].
pub ghost struct Pose {
    /// Where the viewer stands, in fixed-point grid coordinates.
    pub position: Point,
    /// The forward vector.
    pub direction: Point,
    /// The vector along the screen, perpendicular to `direction`; the ratio of
    /// their lengths is the tangent of half the field of view.
    pub plane: Point,
}

/// A pose that a camera can hold: the position within the range of positions,
/// the two vectors no longer than `MAX_LENGTH`.
pub open spec fn pose_valid(pose: Pose) -> bool {
    &&& 0 <= pose.position.x <= MAX_COORDINATE
    &&& 0 <= pose.position.y <= MAX_COORDINATE
    &&& norm_sq(pose.direction) <= MAX_LENGTH * MAX_LENGTH
    &&& norm_sq(pose.plane) <= MAX_LENGTH * MAX_LENGTH
}

/// What the viewer wants to do during one step. The flags are independent:
/// opposite ones may be set together, and each then has its effect in turn.
#[derive(Clone, Copy, Debug, PartialEq, Eq)]
pub struct Intents {
    /// Move along the forward vector.
    pub forward: bool,
    /// Move against the forward vector.
    pub backward: bool,
    /// Move against the plane vector.
    pub strafe_left: bool,
    /// Move along the plane vector.
    pub strafe_right: bool,
    /// Turn against the turn of the motion.
    pub rotate_left: bool,
    /// Turn by the turn of the motion.
    pub rotate_right: bool,
}

/// How far one step moves and turns the viewer: the speeds, times the length
/// of the step.
#[derive(Clone, Copy, Debug, PartialEq, Eq)]
pub struct Motion {
    /// The factor by which the forward vector, or the plane vector, is scaled
    /// to give the displacement of one step; fixed point.
    pub stride: i64,
    /// The rotation of one step to the right.
    pub turn: Rotation,
}

/// The vector opposite to `p`.
pub open spec fn negated(p: Point) -> Point {
    Point { x: -p.x, y: -p.y }
}

/// Where a viewer at `from` arrives who tries to move by `by`: each axis moves
/// where the cell that it leads to is empty, x first, then y from the new x.
pub open spec fn slid(map: GridMap, from: Point, by: Point) -> Point {
    let x = if map.open_at(from.x + by.x, from.y) {
        from.x + by.x
    } else {
        from.x
    };
    let y = if map.open_at(x, from.y + by.y) {
        from.y + by.y
    } else {
        from.y
    };
    Point { x, y }
}

/// The pose after trying to move by `by`.
pub open spec fn walked(map: GridMap, pose: Pose, by: Point) -> Pose {
    Pose { position: slid(map, pose.position, by), ..pose }
}

/// The pose after turning: forward and plane vector turned alike.
pub open spec fn swung(pose: Pose, cos: int, sin: int) -> Pose {
    Pose {
        direction: turned(pose.direction, cos, sin),
        plane: turned(pose.plane, cos, sin),
        ..pose
    }
}

/// The pose after one step: forward, backward, turn right, turn left, strafe
/// left, strafe right, each where it is wanted, in this order.
pub open spec fn advanced(map: GridMap, pose: Pose, intents: Intents, motion: Motion) -> Pose {
    let stride = motion.stride as int;
    let cos = motion.turn.cos as int;
    let sin = motion.turn.sin as int;
    let walked_on = if intents.forward {
        walked(map, pose, scaled(pose.direction, stride))
    } else {
        pose
    };
    let walked_back = if intents.backward {
        walked(map, walked_on, negated(scaled(walked_on.direction, stride)))
    } else {
        walked_on
    };
    let turned_right = if intents.rotate_right {
        swung(walked_back, cos, sin)
    } else {
        walked_back
    };
    let turned_left = if intents.rotate_left {
        swung(turned_right, cos, -sin)
    } else {
        turned_right
    };
    let strafed_left = if intents.strafe_left {
        walked(map, turned_left, negated(scaled(turned_left.plane, stride)))
    } else {
        turned_left
    };
    if intents.strafe_right {
        walked(map, strafed_left, scaled(strafed_left.plane, stride))
    } else {
        strafed_left
    }
}

/// A move into a wall leaves that axis where it was, and the other axis free
/// to move: a viewer who walks diagonally into a wall slides along it.
pub proof fn lemma_blocked_axis_stays(map: GridMap, from: Point, by: Point)
    ensures
        !map.open_at(from.x + by.x, from.y) ==> slid(map, from, by).x == from.x,
        !map.open_at(slid(map, from, by).x, from.y + by.y) ==> slid(map, from, by).y == from.y,
        !map.open_at(from.x + by.x, from.y) && map.open_at(from.x, from.y + by.y) ==> slid(
            map,
            from,
            by,
        ) == (Point { x: from.x, y: from.y + by.y }),
        map.open_at(from.x + by.x, from.y) && !map.open_at(from.x + by.x, from.y + by.y) ==> slid(
            map,
            from,
            by,
        ) == (Point { x: from.x + by.x, y: from.y }),
{
}

/// A viewer in an empty cell is in an empty cell after any move.
pub proof fn lemma_slide_stays_open(map: GridMap, from: Point, by: Point)
    requires
        map.open_at(from.x, from.y),
    ensures
        map.open_at(slid(map, from, by).x, slid(map, from, by).y),
{
}

/// A viewer strictly inside the map is strictly inside it after any move.
pub proof fn lemma_slide_stays_inside(map: GridMap, from: Point, by: Point)
    requires
        map.wf(),
        map.strictly_inside(from.x, from.y),
    ensures
        map.strictly_inside(slid(map, from, by).x, slid(map, from, by).y),
{
    let to = slid(map, from, by);
    if map.open_at(to.x, from.y + by.y) {
        map.lemma_open_is_inside(to.x, from.y + by.y);
    } else if map.open_at(from.x + by.x, from.y) {
        map.lemma_open_is_inside(from.x + by.x, from.y);
    }
}

/// Position, forward vector and screen-plane vector of the viewer.
#[derive(Clone, Copy, Debug, PartialEq, Eq)]
pub struct Camera {
    position: Vec2,
    direction: Vec2,
    plane: Vec2,
}

impl View for Camera {
    type V = Pose;

    closed spec fn view(&self) -> Pose {
        Pose { position: self.position@, direction: self.direction@, plane: self.plane@ }
    }
}

impl Camera {
    /// The camera holds a valid pose.
    pub open spec fn wf(&self) -> bool {
        pose_valid(self@)
    }

    /// The camera with the given pose, if that pose is valid.
    pub fn new(position: Vec2, direction: Vec2, plane: Vec2) -> (r: Option<Camera>)
        ensures
            r.is_some() <==> pose_valid(
                Pose { position: position@, direction: direction@, plane: plane@ },
            ),
            r matches Some(c) ==> c.wf() && c@ == (Pose {
                position: position@,
                direction: direction@,
                plane: plane@,
            }),
    {
        if position.x < 0 || position.x > MAX_COORDINATE || position.y < 0 || position.y
            > MAX_COORDINATE {
            return None;
        }
        if !direction.is_bounded() || !plane.is_bounded() {
            return None;
        }
        Some(Camera { position, direction, plane })
    }

    /// Tries to move by `by`, each axis for itself.
    fn walk(&mut self, by: Vec2, map: &GridMap)
        requires
            old(self).wf(),
            map.wf(),
            magnitude(by.x as int) <= MAX_PRODUCT,
            magnitude(by.y as int) <= MAX_PRODUCT,
        ensures
            final(self).wf(),
            final(self)@ == walked(*map, old(self)@, by@),
            map.open_at(old(self)@.position.x, old(self)@.position.y) ==> map.open_at(
                final(self)@.position.x,
                final(self)@.position.y,
            ),
            map.strictly_inside(old(self)@.position.x, old(self)@.position.y)
                ==> map.strictly_inside(final(self)@.position.x, final(self)@.position.y),
    {
        proof {
            if map.strictly_inside(self@.position.x, self@.position.y) {
                lemma_slide_stays_inside(*map, self@.position, by@);
            }
        }
        let x: i64 = self.position.x + by.x;
        if map.is_open_at(x, self.position.y) {
            self.position.x = x;
        }
        let y: i64 = self.position.y + by.y;
        if map.is_open_at(self.position.x, y) {
            self.position.y = y;
        }
    }

    /// Turns forward and plane vector by `turn`.
    fn swing(&mut self, turn: &Rotation)
        requires
            old(self).wf(),
            turn.wf(),
        ensures
            final(self).wf(),
            final(self)@ == swung(old(self)@, turn.cos as int, turn.sin as int),
    {
        self.direction = self.direction.rotated(turn);
        self.plane = self.plane.rotated(turn);
    }

    /// Advances the camera by one step: it moves and turns as `intents` asks,
    /// by the amounts of `motion`, and stops at the walls of `map`, each axis
    /// for itself.
    pub fn advance(&mut self, intents: &Intents, motion: &Motion, map: &GridMap)
        requires
            old(self).wf(),
            motion.wf(),
            map.wf(),
        ensures
            final(self).wf(),
            final(self)@ == advanced(*map, old(self)@, *intents, *motion),
            map.open_at(old(self)@.position.x, old(self)@.position.y) ==> map.open_at(
                final(self)@.position.x,
                final(self)@.position.y,
            ),
            map.strictly_inside(old(self)@.position.x, old(self)@.position.y)
                ==> map.strictly_inside(final(self)@.position.x, final(self)@.position.y),
    {
        if intents.forward {
            let by = self.direction.scaled_by(motion.stride);
            self.walk(by, map);
        }
        if intents.backward {
            let by = self.direction.scaled_by(motion.stride);
            self.walk(Vec2 { x: -by.x, y: -by.y }, map);
        }
        if intents.rotate_right {
            self.swing(&motion.turn);
        }
        if intents.rotate_left {
            let back = motion.turn.reversed();
            self.swing(&back);
        }
        if intents.strafe_left {
            let by = self.plane.scaled_by(motion.stride);
            self.walk(Vec2 { x: -by.x, y: -by.y }, map);
        }
        if intents.strafe_right {
            let by = self.plane.scaled_by(motion.stride);
            self.walk(by, map);
        }
    }

    /// Where the viewer stands.
    pub fn position(&self) -> (v: Vec2)
        ensures
            v@ == self@.position,
    {
        self.position
    }

    /// The forward vector.
    pub fn direction(&self) -> (v: Vec2)
        ensures
            v@ == self@.direction,
    {
        self.direction
    }

    /// The screen-plane vector.
    pub fn plane(&self) -> (v: Vec2)
        ensures
            v@ == self@.plane,
    {
        self.plane
    }
}

impl Intents {
    /// The intents of a viewer who wants nothing.
    pub fn none() -> (intents: Intents)
        ensures
            intents == (Intents {
                forward: false,
                backward: false,
                strafe_left: false,
                strafe_right: false,
                rotate_left: false,
                rotate_right: false,
            }),
    {
        Intents {
            forward: false,
            backward: false,
            strafe_left: false,
            strafe_right: false,
            rotate_left: false,
            rotate_right: false,
        }
    }
}

impl Motion {
    /// The stride is no factor beyond `MAX_LENGTH`, and the turn is a rotation.
    pub open spec fn wf(&self) -> bool {
        magnitude(self.stride as int) <= MAX_LENGTH && self.turn.wf()
    }

    /// The motion with the given stride and the cosine and sine of the turn of
    /// one step, if the stride is within `MAX_LENGTH` and the squares of cosine
    /// and sine sum to at most one.
    pub fn new(stride: i64, cos: i64, sin: i64) -> (r: Option<Motion>)
        ensures
            r.is_some() <==> magnitude(stride as int) <= MAX_LENGTH && cos * cos + sin * sin <= ONE
                * ONE,
            r matches Some(m) ==> m.wf() && m.stride == stride && m.turn.cos == cos && m.turn.sin
                == sin,
    {
        if stride > MAX_LENGTH || stride < -MAX_LENGTH {
            return None;
        }
        match Rotation::new(cos, sin) {
            Some(turn) => Some(Motion { stride, turn }),
            None => None,
        }
    }
}

} // verus!
