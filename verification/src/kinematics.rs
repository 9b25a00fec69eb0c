//! Position integration over one fixed tick.
use vstd::prelude::*;
use crate::geometry::{Vec2, Vec2View};

verus! {

/// The position reached from `position` after moving with `velocity` for a
/// tick of length `dt`.
pub open spec fn advanced(position: Vec2View, velocity: Vec2View, dt: int) -> Vec2View {
    Vec2View { x: position.x + velocity.x * dt, y: position.y + velocity.y * dt }
}

/// A displacement over one tick lies within sixty-three bits on either side.
pub proof fn lemma_displacement_bounds(v: int, dt: int)
    by (nonlinear_arith)
    requires
        i32::MIN <= v <= i32::MAX,
        0 <= dt <= u32::MAX,
    ensures
        -0x7fff_ffff_8000_0000 <= v * dt <= 0x7fff_ffff_8000_0000,
{
}

/// One coordinate after one tick, exact and unbounded by the `i32` range.
pub fn advance_axis(position: i32, velocity: i32, dt: u32) -> (p: i64)
    ensures
        p == position + velocity * dt,
{
    proof {
        lemma_displacement_bounds(velocity as int, dt as int);
    }
    let step: i64 = (velocity as i64) * (dt as i64);
    position as i64 + step
}

/// Whether a coordinate fits a position.
fn fits(p: i64) -> (b: bool)
    ensures
        b == (i32::MIN <= p <= i32::MAX),
{
    -0x8000_0000i64 <= p && p <= 0x7fff_ffffi64
}

/// Moves `position` by `velocity` for a tick of length `dt`.
pub fn advance(position: Vec2, velocity: Vec2, dt: u32) -> (p: Vec2)
    requires
        advanced(position@, velocity@, dt as int).representable(),
    ensures
        p@ == advanced(position@, velocity@, dt as int),
{
    let x: i64 = advance_axis(position.x, velocity.x, dt);
    let y: i64 = advance_axis(position.y, velocity.y, dt);
    Vec2 { x: x as i32, y: y as i32 }
}

/// Moves `position` by `velocity` for a tick of length `dt`, where the
/// position reached can be represented, and says so where it cannot.
pub fn checked_advance(position: Vec2, velocity: Vec2, dt: u32) -> (p: Option<Vec2>)
    ensures
        p is Some <==> advanced(position@, velocity@, dt as int).representable(),
        p matches Some(q) ==> q@ == advanced(position@, velocity@, dt as int),
{
    let x: i64 = advance_axis(position.x, velocity.x, dt);
    let y: i64 = advance_axis(position.y, velocity.y, dt);
    if fits(x) && fits(y) {
        Some(Vec2 { x: x as i32, y: y as i32 })
    } else {
        None
    }
}

/// With no time passing nothing moves.
pub proof fn lemma_advance_zero(position: Vec2View, velocity: Vec2View)
    ensures
        advanced(position, velocity, 0) == position,
{
    assert(velocity.x * 0 == 0) by (nonlinear_arith);
    assert(velocity.y * 0 == 0) by (nonlinear_arith);
}

/// Two ticks in a row move as far as one tick of their joint length.
pub proof fn lemma_advance_composes(position: Vec2View, velocity: Vec2View, a: int, b: int)
    ensures
        advanced(advanced(position, velocity, a), velocity, b) == advanced(
            position,
            velocity,
            a + b,
        ),
{
    assert(velocity.x * a + velocity.x * b == velocity.x * (a + b)) by (nonlinear_arith);
    assert(velocity.y * a + velocity.y * b == velocity.y * (a + b)) by (nonlinear_arith);
}

} // verus!
