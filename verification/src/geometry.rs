//! Axis-aligned boxes on an integer grid: extents, overlap and penetration.
//!
//! Coordinates are fixed-point world units held in `i32`. Every intermediate
//! quantity (an edge, a depth) is computed in `i64`, where it cannot overflow.
use vstd::prelude::*;

verus! {

/// One of the two axes of the plane.
#[derive(Clone, Copy, Debug, PartialEq, Eq, Structural)]
pub enum Axis {
    Horizontal,
    Vertical,
}

/// A point or a displacement, as mathematical integers.
pub struct Vec2View {
    pub x: int,
    pub y: int,
}

impl Vec2View {
    /// The vector with the component along `axis` negated.
    pub open spec fn reflect(self, axis: Axis) -> Vec2View {
        match axis {
            Axis::Horizontal => Vec2View { x: -self.x, y: self.y },
            Axis::Vertical => Vec2View { x: self.x, y: -self.y },
        }
    }

    /// The square of the Euclidean length.
    pub open spec fn norm_squared(self) -> int {
        self.x * self.x + self.y * self.y
    }

    /// Both components fit the machine representation.
    pub open spec fn representable(self) -> bool {
        &&& i32::MIN <= self.x <= i32::MAX
        &&& i32::MIN <= self.y <= i32::MAX
    }
}

/// A point or a displacement in fixed-point world units.
#[derive(Clone, Copy, Debug, PartialEq, Eq, Structural)]
pub struct Vec2 {
    pub x: i32,
    pub y: i32,
}

impl View for Vec2 {
    type V = Vec2View;

    open spec fn view(&self) -> Vec2View {
        Vec2View { x: self.x as int, y: self.y as int }
    }
}

impl Vec2 {
    /// Negating the component along `axis` stays within `i32`.
    pub open spec fn can_reflect(self, axis: Axis) -> bool {
        match axis {
            Axis::Horizontal => self.x > i32::MIN,
            Axis::Vertical => self.y > i32::MIN,
        }
    }

    /// Negating either component stays within `i32`.
    pub open spec fn reflectable(self) -> bool {
        self.can_reflect(Axis::Horizontal) && self.can_reflect(Axis::Vertical)
    }

    pub fn new(x: i32, y: i32) -> (v: Vec2)
        ensures
            v.x == x,
            v.y == y,
    {
        Vec2 { x, y }
    }

    /// Negates the component along `axis`.
    pub fn reflect(self, axis: Axis) -> (r: Vec2)
        requires
            self.can_reflect(axis),
        ensures
            r@ == self@.reflect(axis),
            r.can_reflect(axis),
            r.reflectable() == self.reflectable(),
    {
        match axis {
            Axis::Horizontal => Vec2 { x: -self.x, y: self.y },
            Axis::Vertical => Vec2 { x: self.x, y: -self.y },
        }
    }
}

/// Reflection negates one component and so keeps the length.
pub proof fn lemma_reflect_keeps_norm(v: Vec2View, axis: Axis)
    ensures
        v.reflect(axis).norm_squared() == v.norm_squared(),
{
    assert((-v.x) * (-v.x) == v.x * v.x) by (nonlinear_arith);
    assert((-v.y) * (-v.y) == v.y * v.y) by (nonlinear_arith);
}

/// An axis-aligned box, as mathematical integers: a centre and half-extents.
pub struct AabbView {
    pub center: Vec2View,
    pub half_width: int,
    pub half_height: int,
}

/// The distance between two coordinates.
pub open spec fn distance(a: int, b: int) -> int {
    if a < b {
        b - a
    } else {
        a - b
    }
}

/// The magnitude of a signed depth.
pub open spec fn magnitude(v: int) -> int {
    if v < 0 {
        -v
    } else {
        v
    }
}

/// The axis along which a penetration is deeper; the vertical one on a tie.
pub open spec fn deeper_axis(p: Vec2View) -> Axis {
    if magnitude(p.x) > magnitude(p.y) {
        Axis::Horizontal
    } else {
        Axis::Vertical
    }
}

impl AabbView {
    pub open spec fn left(self) -> int {
        self.center.x - self.half_width
    }

    pub open spec fn right(self) -> int {
        self.center.x + self.half_width
    }

    pub open spec fn bottom(self) -> int {
        self.center.y - self.half_height
    }

    pub open spec fn top(self) -> int {
        self.center.y + self.half_height
    }

    /// The interiors of the two boxes meet. Boxes that only touch along an
    /// edge or at a corner do not overlap.
    pub open spec fn overlaps(self, other: AabbView) -> bool {
        &&& self.left() < other.right()
        &&& other.left() < self.right()
        &&& self.bottom() < other.top()
        &&& other.bottom() < self.top()
    }

    /// How far the two boxes reach into each other along the horizontal axis:
    /// positive when their horizontal extents overlap, zero when they touch,
    /// negative by the width of the gap otherwise.
    pub open spec fn depth_x(self, other: AabbView) -> int {
        self.half_width + other.half_width - distance(self.center.x, other.center.x)
    }

    /// How far the two boxes reach into each other along the vertical axis.
    pub open spec fn depth_y(self, other: AabbView) -> int {
        self.half_height + other.half_height - distance(self.center.y, other.center.y)
    }

    /// The depths along both axes, each signed by the side of `other` on which
    /// the centre of `self` lies: negative to the left of it or below it.
    /// Moving `self` by one of the components separates the boxes along that
    /// axis.
    pub open spec fn separation(self, other: AabbView) -> Vec2View {
        Vec2View {
            x: if self.center.x < other.center.x {
                -self.depth_x(other)
            } else {
                self.depth_x(other)
            },
            y: if self.center.y < other.center.y {
                -self.depth_y(other)
            } else {
                self.depth_y(other)
            },
        }
    }

    /// The separation of two overlapping boxes, and nothing for two that do
    /// not overlap.
    pub open spec fn penetration(self, other: AabbView) -> Option<Vec2View> {
        if self.overlaps(other) {
            Some(self.separation(other))
        } else {
            None
        }
    }
}

/// Two boxes overlap exactly when they reach into each other along both axes.
pub proof fn lemma_overlap_is_positive_depth(a: AabbView, b: AabbView)
    ensures
        a.overlaps(b) <==> a.depth_x(b) > 0 && a.depth_y(b) > 0,
{
}

/// Overlap and depth do not depend on the order of the two boxes.
pub proof fn lemma_overlap_symmetric(a: AabbView, b: AabbView)
    ensures
        a.overlaps(b) == b.overlaps(a),
        a.depth_x(b) == b.depth_x(a),
        a.depth_y(b) == b.depth_y(a),
{
}

/// The components of a penetration have the depths as their magnitudes, and
/// both are positive.
pub proof fn lemma_penetration_magnitude(a: AabbView, b: AabbView)
    requires
        a.overlaps(b),
    ensures
        magnitude(a.separation(b).x) == a.depth_x(b),
        magnitude(a.separation(b).y) == a.depth_y(b),
        a.depth_x(b) > 0,
        a.depth_y(b) > 0,
{
}

/// An axis-aligned box: a centre and non-negative half-extents.
#[derive(Clone, Copy, Debug, PartialEq, Eq, Structural)]
pub struct Aabb {
    pub center: Vec2,
    pub half_width: u32,
    pub half_height: u32,
}

impl View for Aabb {
    type V = AabbView;

    open spec fn view(&self) -> AabbView {
        AabbView {
            center: self.center@,
            half_width: self.half_width as int,
            half_height: self.half_height as int,
        }
    }
}

/// A signed penetration, one depth per axis.
#[derive(Clone, Copy, Debug, PartialEq, Eq, Structural)]
pub struct Penetration {
    pub x: i64,
    pub y: i64,
}

impl View for Penetration {
    type V = Vec2View;

    open spec fn view(&self) -> Vec2View {
        Vec2View { x: self.x as int, y: self.y as int }
    }
}

/// The magnitude of `v`, which for the least `i64` does not fit an `i64`.
fn magnitude_of(v: i64) -> (m: u64)
    ensures
        m == magnitude(v as int),
{
    if v >= 0 {
        v as u64
    } else {
        let below: i64 = -(v + 1);
        below as u64 + 1
    }
}

impl Penetration {
    /// The axis of the deeper penetration, the vertical one on a tie: the
    /// axis along which a body that penetrates so far is reflected.
    pub fn axis(&self) -> (axis: Axis)
        ensures
            axis == deeper_axis(self@),
    {
        if magnitude_of(self.x) > magnitude_of(self.y) {
            Axis::Horizontal
        } else {
            Axis::Vertical
        }
    }
}

impl Aabb {
    pub fn new(center: Vec2, half_width: u32, half_height: u32) -> (b: Aabb)
        ensures
            b.center == center,
            b.half_width == half_width,
            b.half_height == half_height,
    {
        Aabb { center, half_width, half_height }
    }

    pub fn left(&self) -> (e: i64)
        ensures
            e == self@.left(),
    {
        self.center.x as i64 - self.half_width as i64
    }

    pub fn right(&self) -> (e: i64)
        ensures
            e == self@.right(),
    {
        self.center.x as i64 + self.half_width as i64
    }

    pub fn bottom(&self) -> (e: i64)
        ensures
            e == self@.bottom(),
    {
        self.center.y as i64 - self.half_height as i64
    }

    pub fn top(&self) -> (e: i64)
        ensures
            e == self@.top(),
    {
        self.center.y as i64 + self.half_height as i64
    }

    /// Whether the interiors of the two boxes meet.
    pub fn overlaps(&self, other: &Aabb) -> (hit: bool)
        ensures
            hit == self@.overlaps(other@),
    {
        self.left() < other.right() && other.left() < self.right() && self.bottom() < other.top()
            && other.bottom() < self.top()
    }

    /// The depths along both axes, each signed by the side of `other` on
    /// which the centre of `self` lies.
    pub fn separation(&self, other: &Aabb) -> (d: Penetration)
        ensures
            d@ == self@.separation(other@),
    {
        let reach_x: i64 = self.half_width as i64 + other.half_width as i64;
        let reach_y: i64 = self.half_height as i64 + other.half_height as i64;
        let dx: i64 = self.center.x as i64 - other.center.x as i64;
        let dy: i64 = self.center.y as i64 - other.center.y as i64;
        let x: i64 = if dx < 0 {
            -(reach_x + dx)
        } else {
            reach_x - dx
        };
        let y: i64 = if dy < 0 {
            -(reach_y + dy)
        } else {
            reach_y - dy
        };
        Penetration { x, y }
    }

    /// The signed penetration of two boxes that overlap, and nothing for two
    /// that do not.
    pub fn penetration(&self, other: &Aabb) -> (p: Option<Penetration>)
        ensures
            p is Some <==> self@.overlaps(other@),
            p matches Some(d) ==> d@ == self@.separation(other@),
    {
        if self.overlaps(other) {
            Some(self.separation(other))
        } else {
            None
        }
    }
}

} // verus!
