//! The four walls that enclose the playing field.
use vstd::prelude::*;
use crate::geometry::{Aabb, AabbView, Axis};

verus! {

/// The side of the playing field on which a wall stands.
#[derive(Clone, Copy, Debug, PartialEq, Eq, Structural)]
pub enum Side {
    Left,
    Right,
    Bottom,
    Top,
}

impl Side {
    /// The axis along which a wall on this side turns a body back: the side
    /// walls the horizontal one, floor and ceiling the vertical one.
    pub open spec fn spec_axis(self) -> Axis {
        match self {
            Side::Left | Side::Right => Axis::Horizontal,
            Side::Bottom | Side::Top => Axis::Vertical,
        }
    }

    #[verifier::when_used_as_spec(spec_axis)]
    pub fn axis(self) -> (axis: Axis)
        ensures
            axis == self.spec_axis(),
    {
        match self {
            Side::Left | Side::Right => Axis::Horizontal,
            Side::Bottom | Side::Top => Axis::Vertical,
        }
    }
}

/// The walls of a playing field, as mathematical boxes.
pub struct ArenaView {
    pub left: AabbView,
    pub right: AabbView,
    pub bottom: AabbView,
    pub top: AabbView,
}

impl ArenaView {
    /// The wall on `side`.
    pub open spec fn wall(self, side: Side) -> AabbView {
        match side {
            Side::Left => self.left,
            Side::Right => self.right,
            Side::Bottom => self.bottom,
            Side::Top => self.top,
        }
    }

    /// The inner face of the left wall.
    pub open spec fn inner_left(self) -> int {
        self.left.right()
    }

    /// The inner face of the right wall.
    pub open spec fn inner_right(self) -> int {
        self.right.left()
    }

    /// The least centre at which a body of the given half-width lies wholly
    /// to the right of the left wall.
    pub open spec fn least_center(self, half_width: int) -> int {
        self.inner_left() + half_width
    }

    /// The greatest centre at which a body of the given half-width lies
    /// wholly to the left of the right wall.
    pub open spec fn greatest_center(self, half_width: int) -> int {
        self.inner_right() - half_width
    }

    /// A body of the given half-width fits between the side walls.
    pub open spec fn admits(self, half_width: int) -> bool {
        self.least_center(half_width) <= self.greatest_center(half_width)
    }
}

/// The walls of a playing field. They are tested in the order left, right,
/// bottom, top.
#[derive(Clone, Copy, Debug, PartialEq, Eq, Structural)]
pub struct Arena {
    pub left: Aabb,
    pub right: Aabb,
    pub bottom: Aabb,
    pub top: Aabb,
}

impl View for Arena {
    type V = ArenaView;

    open spec fn view(&self) -> ArenaView {
        ArenaView {
            left: self.left@,
            right: self.right@,
            bottom: self.bottom@,
            top: self.top@,
        }
    }
}

impl Arena {
    /// The wall on `side`.
    pub fn wall(&self, side: Side) -> (wall: Aabb)
        ensures
            wall == match side {
                Side::Left => self.left,
                Side::Right => self.right,
                Side::Bottom => self.bottom,
                Side::Top => self.top,
            },
            wall@ == self@.wall(side),
    {
        match side {
            Side::Left => self.left,
            Side::Right => self.right,
            Side::Bottom => self.bottom,
            Side::Top => self.top,
        }
    }

    /// Whether a body of the given half-width fits between the side walls.
    pub fn admits(&self, half_width: u32) -> (fits: bool)
        ensures
            fits == self@.admits(half_width as int),
    {
        self.left.right() + half_width as i64 <= self.right.left() - half_width as i64
    }

    /// The least and the greatest centre between which a body of the given
    /// half-width stays clear of both side walls.
    pub fn center_range(&self, half_width: u32) -> (range: (i32, i32))
        requires
            self@.admits(half_width as int),
        ensures
            range.0 == self@.least_center(half_width as int),
            range.1 == self@.greatest_center(half_width as int),
    {
        let least: i64 = self.left.right() + half_width as i64;
        let greatest: i64 = self.right.left() - half_width as i64;
        (least as i32, greatest as i32)
    }
}

} // verus!
