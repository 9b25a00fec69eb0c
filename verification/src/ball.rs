//! The ball: a moving body that keeps its speed and changes only direction.
use vstd::prelude::*;
use crate::geometry::{lemma_reflect_keeps_norm, Aabb, AabbView, Axis, Vec2, Vec2View};
use crate::kinematics::{advance, advanced};

verus! {

/// A ball, as mathematical integers.
pub struct BallView {
    pub position: Vec2View,
    pub velocity: Vec2View,
    pub radius: int,
}

impl BallView {
    /// The box that is tested for the ball: its centre with the radius as
    /// both half-extents.
    pub open spec fn bounds(self) -> AabbView {
        AabbView { center: self.position, half_width: self.radius, half_height: self.radius }
    }

    /// The ball after a tick of length `dt` in free motion.
    pub open spec fn moved(self, dt: int) -> BallView {
        BallView { position: advanced(self.position, self.velocity, dt), ..self }
    }

    /// The ball turned back along `axis`.
    pub open spec fn bounced(self, axis: Axis) -> BallView {
        BallView { velocity: self.velocity.reflect(axis), ..self }
    }

    /// The ball turned back along `axis` where `hit` holds, and as it is
    /// otherwise.
    pub open spec fn bounced_if(self, hit: bool, axis: Axis) -> BallView {
        if hit {
            self.bounced(axis)
        } else {
            self
        }
    }

    /// The square of the ball's speed.
    pub open spec fn speed_squared(self) -> int {
        self.velocity.norm_squared()
    }
}

/// A ball: the position of its centre, its velocity and its radius.
#[derive(Clone, Copy, Debug, PartialEq, Eq, Structural)]
pub struct Ball {
    pub position: Vec2,
    pub velocity: Vec2,
    pub radius: u32,
}

impl View for Ball {
    type V = BallView;

    open spec fn view(&self) -> BallView {
        BallView {
            position: self.position@,
            velocity: self.velocity@,
            radius: self.radius as int,
        }
    }
}

impl Ball {
    pub fn new(position: Vec2, velocity: Vec2, radius: u32) -> (b: Ball)
        ensures
            b.position == position,
            b.velocity == velocity,
            b.radius == radius,
    {
        Ball { position, velocity, radius }
    }

    /// The box that is tested for the ball.
    pub fn bounds(&self) -> (b: Aabb)
        ensures
            b@ == self@.bounds(),
    {
        Aabb { center: self.position, half_width: self.radius, half_height: self.radius }
    }

    /// Moves the ball for a tick of length `dt`.
    pub fn advance(&mut self, dt: u32)
        requires
            old(self)@.moved(dt as int).position.representable(),
        ensures
            final(self)@ == old(self)@.moved(dt as int),
            final(self).velocity == old(self).velocity,
    {
        self.position = advance(self.position, self.velocity, dt);
    }

    /// Turns the ball back along `axis`.
    pub fn bounce(&mut self, axis: Axis)
        requires
            old(self).velocity.can_reflect(axis),
        ensures
            final(self)@ == old(self)@.bounced(axis),
            final(self).velocity.can_reflect(axis),
            final(self).velocity.reflectable() == old(self).velocity.reflectable(),
    {
        self.velocity = self.velocity.reflect(axis);
    }
}

/// Neither free motion nor turning back changes the speed of a ball.
pub proof fn lemma_ball_keeps_speed(b: BallView, dt: int, hit: bool, axis: Axis)
    ensures
        b.moved(dt).speed_squared() == b.speed_squared(),
        b.bounced(axis).speed_squared() == b.speed_squared(),
        b.bounced_if(hit, axis).speed_squared() == b.speed_squared(),
{
    lemma_reflect_keeps_norm(b.velocity, axis);
}

} // verus!
