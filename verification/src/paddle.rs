//! The paddle: steering by a directional input, and motion between bounds.
use vstd::prelude::*;
use crate::geometry::{Aabb, AabbView, Vec2, Vec2View};
use crate::input::Direction;
use crate::kinematics::advance_axis;

verus! {

/// The value of `x` held to the range from `lo` to `hi`.
pub open spec fn clamped(x: int, lo: int, hi: int) -> int {
    if x < lo {
        lo
    } else if x > hi {
        hi
    } else {
        x
    }
}

/// Holds `x` to the range from `lo` to `hi`.
pub fn clamp(x: i64, lo: i32, hi: i32) -> (c: i32)
    requires
        lo <= hi,
    ensures
        c == clamped(x as int, lo as int, hi as int),
        lo <= c <= hi,
{
    if x < lo as i64 {
        lo
    } else if x > hi as i64 {
        hi
    } else {
        x as i32
    }
}

/// A paddle, as mathematical integers.
pub struct PaddleView {
    pub body: AabbView,
    pub velocity: Vec2View,
    pub speed: int,
}

impl PaddleView {
    /// The speed is no less than zero and the paddle does not move
    /// vertically.
    pub open spec fn wf(self) -> bool {
        &&& 0 <= self.speed
        &&& self.velocity.y == 0
    }

    /// The velocity that `direction` asks for: the paddle's speed to the left
    /// or to the right, or rest.
    pub open spec fn velocity_toward(self, direction: Direction) -> Vec2View {
        match direction {
            Direction::Left => Vec2View { x: -self.speed, y: 0 },
            Direction::Right => Vec2View { x: self.speed, y: 0 },
            Direction::Neither => Vec2View { x: 0, y: 0 },
        }
    }

    /// The paddle with the velocity that `direction` asks for.
    pub open spec fn steered(self, direction: Direction) -> PaddleView {
        PaddleView { velocity: self.velocity_toward(direction), ..self }
    }

    /// The paddle after a tick of length `dt`: moved horizontally by its
    /// velocity, then held between `lo` and `hi`. The velocity stays as it
    /// is, also where the position was held back.
    pub open spec fn moved(self, dt: int, lo: int, hi: int) -> PaddleView {
        PaddleView {
            body: AabbView {
                center: Vec2View {
                    x: clamped(self.body.center.x + self.velocity.x * dt, lo, hi),
                    y: self.body.center.y,
                },
                ..self.body
            },
            ..self
        }
    }
}

/// A paddle: its box, its current velocity, and the speed at which it moves
/// while a direction is held.
#[derive(Clone, Copy, Debug, PartialEq, Eq, Structural)]
pub struct Paddle {
    pub body: Aabb,
    pub velocity: Vec2,
    pub speed: i32,
}

impl View for Paddle {
    type V = PaddleView;

    open spec fn view(&self) -> PaddleView {
        PaddleView { body: self.body@, velocity: self.velocity@, speed: self.speed as int }
    }
}

impl Paddle {
    /// A paddle at rest.
    pub fn new(body: Aabb, speed: i32) -> (p: Paddle)
        ensures
            p.body == body,
            p.speed == speed,
            p.velocity == (Vec2 { x: 0, y: 0 }),
    {
        Paddle { body, velocity: Vec2 { x: 0, y: 0 }, speed }
    }

    /// Sets the velocity that `direction` asks for.
    pub fn steer(&mut self, direction: Direction)
        requires
            0 <= old(self).speed,
        ensures
            final(self)@ == old(self)@.steered(direction),
    {
        self.velocity = match direction {
            Direction::Left => Vec2 { x: -self.speed, y: 0 },
            Direction::Right => Vec2 { x: self.speed, y: 0 },
            Direction::Neither => Vec2 { x: 0, y: 0 },
        };
    }

    /// Moves the paddle for a tick of length `dt` and holds its centre
    /// between `lo` and `hi`.
    pub fn advance(&mut self, dt: u32, lo: i32, hi: i32)
        requires
            lo <= hi,
        ensures
            final(self)@ == old(self)@.moved(dt as int, lo as int, hi as int),
            lo <= final(self).body.center.x <= hi,
    {
        let x: i64 = advance_axis(self.body.center.x, self.velocity.x, dt);
        self.body.center.x = clamp(x, lo, hi);
    }
}

/// A paddle that is held at the bound toward which it is steered stays
/// there, and keeps its velocity.
pub proof fn lemma_held_at_bound(p: PaddleView, direction: Direction, dt: int, lo: int, hi: int)
    requires
        0 <= p.speed,
        0 <= dt,
        lo <= hi,
        direction == Direction::Left && p.body.center.x == lo || direction == Direction::Right
            && p.body.center.x == hi,
    ensures
        p.steered(direction).moved(dt, lo, hi).body.center.x == p.body.center.x,
        p.steered(direction).moved(dt, lo, hi).velocity == p.velocity_toward(direction),
{
    assert(0 <= p.speed * dt) by (nonlinear_arith)
        requires
            0 <= p.speed,
            0 <= dt,
    ;
    assert((-p.speed) * dt == -(p.speed * dt)) by (nonlinear_arith);
}

} // verus!
