//! Collision resolution: what the ball meets in one tick, and what follows.
//!
//! The ball is tested where the tick's motion has brought it: against the
//! walls in the order left, right, bottom, top, then against the paddle,
//! then against the live bricks in the order of their places. Each wall and
//! the paddle turn the ball back once where they overlap it. Of the bricks
//! only the first that overlaps the ball is resolved: it is destroyed and
//! turns the ball back along the axis of the deeper penetration.
use vstd::prelude::*;
use crate::arena::{Arena, ArenaView, Side};
use crate::ball::{lemma_ball_keeps_speed, Ball, BallView};
use crate::brick::{
    bricks_view, destroy, destroyed_at, destroyed_count, find_first_hit, first_hit,
    lemma_counts, lemma_destroyed_at, lemma_first_hit, live_count, live_set, Brick, BrickView,
};
use crate::event::{event_if, lemma_tally_concat, lemma_tally_event_if, tally, CollisionEvent};
use crate::geometry::{deeper_axis, lemma_penetration_magnitude, Aabb, AabbView, Axis};

verus! {

/// The ball overlaps the wall on `side`.
pub open spec fn meets_wall(ball: BallView, arena: ArenaView, side: Side) -> bool {
    ball.bounds().overlaps(arena.wall(side))
}

/// The ball after the test against the wall on `side`.
pub open spec fn after_wall(ball: BallView, arena: ArenaView, side: Side) -> BallView {
    ball.bounced_if(meets_wall(ball, arena, side), side.axis())
}

/// The ball after the tests against the four walls.
pub open spec fn after_walls(ball: BallView, arena: ArenaView) -> BallView {
    let after_left = after_wall(ball, arena, Side::Left);
    let after_right = after_wall(after_left, arena, Side::Right);
    let after_bottom = after_wall(after_right, arena, Side::Bottom);
    after_wall(after_bottom, arena, Side::Top)
}

/// The event of the wall on `side`, where the ball overlaps it.
pub open spec fn wall_event(ball: BallView, arena: ArenaView, side: Side) -> Seq<CollisionEvent> {
    event_if(meets_wall(ball, arena, side), CollisionEvent::Wall(side))
}

/// The events of the walls that the ball overlaps, in the order of the
/// tests.
pub open spec fn wall_events(ball: BallView, arena: ArenaView) -> Seq<CollisionEvent> {
    wall_event(ball, arena, Side::Left) + wall_event(ball, arena, Side::Right) + wall_event(
        ball,
        arena,
        Side::Bottom,
    ) + wall_event(ball, arena, Side::Top)
}

/// The ball after the test against the paddle, which turns it back
/// vertically.
pub open spec fn after_paddle(ball: BallView, paddle: AabbView) -> BallView {
    ball.bounced_if(ball.bounds().overlaps(paddle), Axis::Vertical)
}

/// The event of the paddle, where the ball overlaps it.
pub open spec fn paddle_events(ball: BallView, paddle: AabbView) -> Seq<CollisionEvent> {
    event_if(ball.bounds().overlaps(paddle), CollisionEvent::Paddle)
}

/// The axis along which a brick turns the ball back: the one along which
/// the ball has gone deeper into the brick, the vertical one on a tie.
pub open spec fn brick_axis(ball: BallView, brick: BrickView) -> Axis {
    deeper_axis(ball.bounds().separation(brick.body))
}

/// The ball after the test against the bricks.
pub open spec fn after_bricks(ball: BallView, bricks: Seq<BrickView>) -> BallView {
    match first_hit(ball.bounds(), bricks) {
        Some(i) => ball.bounced(brick_axis(ball, bricks[i])),
        None => ball,
    }
}

/// The bricks after the test against the ball.
pub open spec fn bricks_after(ball: BallView, bricks: Seq<BrickView>) -> Seq<BrickView> {
    match first_hit(ball.bounds(), bricks) {
        Some(i) => destroyed_at(bricks, i),
        None => bricks,
    }
}

/// The event of the brick that the ball destroys, where there is one.
pub open spec fn brick_events(ball: BallView, bricks: Seq<BrickView>) -> Seq<CollisionEvent> {
    match first_hit(ball.bounds(), bricks) {
        Some(i) => seq![CollisionEvent::BrickDestroyed(i as usize)],
        None => Seq::empty(),
    }
}

/// What collision resolution leaves: the ball, the bricks, and the events
/// in the order in which they arose.
pub struct Outcome {
    pub ball: BallView,
    pub bricks: Seq<BrickView>,
    pub events: Seq<CollisionEvent>,
}

/// Collision resolution for one tick.
pub open spec fn resolved(
    ball: BallView,
    arena: ArenaView,
    paddle: AabbView,
    bricks: Seq<BrickView>,
) -> Outcome {
    Outcome {
        ball: after_bricks(after_paddle(after_walls(ball, arena), paddle), bricks),
        bricks: bricks_after(ball, bricks),
        events: wall_events(ball, arena) + paddle_events(ball, paddle) + brick_events(
            ball,
            bricks,
        ),
    }
}

/// Tests the ball against the wall on `side`.
pub fn resolve_wall(ball: &mut Ball, arena: &Arena, side: Side, events: &mut Vec<CollisionEvent>)
    requires
        old(ball).velocity.can_reflect(side.axis()),
    ensures
        final(ball)@ == after_wall(old(ball)@, arena@, side),
        final(ball).velocity.can_reflect(side.axis()),
        final(ball).velocity.reflectable() == old(ball).velocity.reflectable(),
        final(events)@ == old(events)@ + wall_event(old(ball)@, arena@, side),
{
    let wall = arena.wall(side);
    if ball.bounds().overlaps(&wall) {
        ball.bounce(side.axis());
        events.push(CollisionEvent::Wall(side));
        assert(events@ =~= old(events)@ + wall_event(old(ball)@, arena@, side));
    } else {
        assert(events@ =~= old(events)@ + wall_event(old(ball)@, arena@, side));
    }
}

/// Tests the ball against the four walls.
pub fn resolve_walls(ball: &mut Ball, arena: &Arena, events: &mut Vec<CollisionEvent>)
    requires
        old(ball).velocity.reflectable(),
    ensures
        final(ball)@ == after_walls(old(ball)@, arena@),
        final(ball).velocity.reflectable(),
        final(events)@ == old(events)@ + wall_events(old(ball)@, arena@),
{
    resolve_wall(ball, arena, Side::Left, events);
    resolve_wall(ball, arena, Side::Right, events);
    resolve_wall(ball, arena, Side::Bottom, events);
    resolve_wall(ball, arena, Side::Top, events);
    assert(events@ =~= old(events)@ + wall_events(old(ball)@, arena@));
}

/// Tests the ball against the paddle.
pub fn resolve_paddle(ball: &mut Ball, paddle: &Aabb, events: &mut Vec<CollisionEvent>)
    requires
        old(ball).velocity.can_reflect(Axis::Vertical),
    ensures
        final(ball)@ == after_paddle(old(ball)@, paddle@),
        final(ball).velocity.can_reflect(Axis::Vertical),
        final(ball).velocity.reflectable() == old(ball).velocity.reflectable(),
        final(events)@ == old(events)@ + paddle_events(old(ball)@, paddle@),
{
    if ball.bounds().overlaps(paddle) {
        ball.bounce(Axis::Vertical);
        events.push(CollisionEvent::Paddle);
        assert(events@ =~= old(events)@ + paddle_events(old(ball)@, paddle@));
    } else {
        assert(events@ =~= old(events)@ + paddle_events(old(ball)@, paddle@));
    }
}

/// Tests the ball against the bricks, and resolves the first that it hits.
pub fn resolve_bricks(ball: &mut Ball, bricks: &mut Vec<Brick>, events: &mut Vec<CollisionEvent>)
    requires
        old(ball).velocity.reflectable(),
    ensures
        final(ball)@ == after_bricks(old(ball)@, bricks_view(old(bricks)@)),
        final(ball).velocity.reflectable(),
        bricks_view(final(bricks)@) == bricks_after(old(ball)@, bricks_view(old(bricks)@)),
        final(bricks).len() == old(bricks).len(),
        final(events)@ == old(events)@ + brick_events(old(ball)@, bricks_view(old(bricks)@)),
{
    let bounds = ball.bounds();
    match find_first_hit(&bounds, bricks) {
        Some(i) => {
            proof {
                lemma_first_hit(bounds@, bricks_view(bricks@));
            }
            let axis = bounds.separation(&bricks[i].body).axis();
            destroy(bricks, i);
            ball.bounce(axis);
            events.push(CollisionEvent::BrickDestroyed(i));
            assert(events@ =~= old(events)@ + brick_events(
                old(ball)@,
                bricks_view(old(bricks)@),
            ));
        },
        None => {
            assert(events@ =~= old(events)@ + brick_events(
                old(ball)@,
                bricks_view(old(bricks)@),
            ));
        },
    }
}

/// Resolves the collisions of one tick and hands back their events.
pub fn resolve(ball: &mut Ball, arena: &Arena, paddle: &Aabb, bricks: &mut Vec<Brick>) -> (events:
    Vec<CollisionEvent>)
    requires
        old(ball).velocity.reflectable(),
    ensures
        final(ball)@ == resolved(old(ball)@, arena@, paddle@, bricks_view(old(bricks)@)).ball,
        bricks_view(final(bricks)@) == resolved(
            old(ball)@,
            arena@,
            paddle@,
            bricks_view(old(bricks)@),
        ).bricks,
        events@ == resolved(old(ball)@, arena@, paddle@, bricks_view(old(bricks)@)).events,
        final(ball).velocity.reflectable(),
        final(bricks).len() == old(bricks).len(),
{
    let mut events: Vec<CollisionEvent> = Vec::new();
    resolve_walls(ball, arena, &mut events);
    resolve_paddle(ball, paddle, &mut events);
    resolve_bricks(ball, bricks, &mut events);
    assert(events@ =~= resolved(old(ball)@, arena@, paddle@, bricks_view(old(bricks)@)).events);
    events
}

/// The walls negate the horizontal component of the ball's velocity where
/// the ball overlaps one side wall, and the vertical one where it overlaps
/// floor or ceiling; a ball that overlaps two walls that face each other is
/// turned back twice along their axis, which leaves that component as it
/// was.
pub proof fn lemma_walls_turn_ball(ball: BallView, arena: ArenaView)
    ensures
        after_walls(ball, arena).position == ball.position,
        after_walls(ball, arena).radius == ball.radius,
        after_walls(ball, arena).velocity.x == if meets_wall(ball, arena, Side::Left)
            != meets_wall(ball, arena, Side::Right) {
            -ball.velocity.x
        } else {
            ball.velocity.x
        },
        after_walls(ball, arena).velocity.y == if meets_wall(ball, arena, Side::Bottom)
            != meets_wall(ball, arena, Side::Top) {
            -ball.velocity.y
        } else {
            ball.velocity.y
        },
{
}

/// The first brick that the ball hits is destroyed, and no other brick
/// changes. It negates the horizontal component of the ball's velocity
/// where the ball has gone deeper into it horizontally than vertically, and
/// the vertical component otherwise. Where the ball hits no brick, ball and
/// bricks stay as they are.
pub proof fn lemma_bricks_turn_ball(ball: BallView, bricks: Seq<BrickView>)
    ensures
        match first_hit(ball.bounds(), bricks) {
            Some(i) => {
                let brick = bricks[i];
                let deeper_across = ball.bounds().depth_x(brick.body) > ball.bounds().depth_y(
                    brick.body,
                );
                &&& 0 <= i < bricks.len()
                &&& brick.hit_by(ball.bounds())
                &&& after_bricks(ball, bricks).velocity == if deeper_across {
                    ball.velocity.reflect(Axis::Horizontal)
                } else {
                    ball.velocity.reflect(Axis::Vertical)
                }
                &&& bricks_after(ball, bricks) == bricks.update(i, brick.destroyed())
            },
            None => after_bricks(ball, bricks) == ball && bricks_after(ball, bricks) == bricks,
        },
{
    lemma_first_hit(ball.bounds(), bricks);
    match first_hit(ball.bounds(), bricks) {
        Some(i) => {
            lemma_penetration_magnitude(ball.bounds(), bricks[i].body);
        },
        None => {},
    }
}

/// Collision resolution leaves the ball where it is, with the radius and
/// the speed that it had.
pub proof fn lemma_resolved_ball(
    ball: BallView,
    arena: ArenaView,
    paddle: AabbView,
    bricks: Seq<BrickView>,
)
    ensures
        resolved(ball, arena, paddle, bricks).ball.position == ball.position,
        resolved(ball, arena, paddle, bricks).ball.radius == ball.radius,
        resolved(ball, arena, paddle, bricks).ball.speed_squared() == ball.speed_squared(),
{
    let b1 = after_wall(ball, arena, Side::Left);
    let b2 = after_wall(b1, arena, Side::Right);
    let b3 = after_wall(b2, arena, Side::Bottom);
    let b4 = after_wall(b3, arena, Side::Top);
    let b5 = after_paddle(b4, paddle);
    let b6 = after_bricks(b5, bricks);
    lemma_ball_keeps_speed(ball, 0, meets_wall(ball, arena, Side::Left), Axis::Horizontal);
    lemma_ball_keeps_speed(b1, 0, meets_wall(b1, arena, Side::Right), Axis::Horizontal);
    lemma_ball_keeps_speed(b2, 0, meets_wall(b2, arena, Side::Bottom), Axis::Vertical);
    lemma_ball_keeps_speed(b3, 0, meets_wall(b3, arena, Side::Top), Axis::Vertical);
    lemma_ball_keeps_speed(b4, 0, b4.bounds().overlaps(paddle), Axis::Vertical);
    match first_hit(b5.bounds(), bricks) {
        Some(i) => {
            lemma_ball_keeps_speed(b5, 0, true, brick_axis(b5, bricks[i]));
        },
        None => {},
    }
    assert(b6 == resolved(ball, arena, paddle, bricks).ball);
}

/// Collision resolution destroys at most one brick, a live one that
/// overlaps the ball and before which no live brick does; every other brick
/// stays as it was. It tells of a destroyed brick exactly where it destroys
/// one.
pub proof fn lemma_resolved_bricks(
    ball: BallView,
    arena: ArenaView,
    paddle: AabbView,
    bricks: Seq<BrickView>,
)
    ensures
        ({
            let out = resolved(ball, arena, paddle, bricks);
            &&& out.bricks.len() == bricks.len()
            &&& live_set(out.bricks).subset_of(live_set(bricks))
            &&& live_count(out.bricks) <= live_count(bricks) <= live_count(out.bricks) + 1
            &&& live_count(out.bricks) + tally(out.events) == live_count(bricks)
            &&& destroyed_count(out.bricks) == destroyed_count(bricks) + tally(out.events)
            &&& forall|j: int|
                0 <= j < bricks.len() ==> (#[trigger] out.bricks[j]).body == bricks[j].body
        }),
{
    let out = resolved(ball, arena, paddle, bricks);
    let walls = wall_events(ball, arena);
    let pad = paddle_events(ball, paddle);
    let brk = brick_events(ball, bricks);
    lemma_tally_event_if(meets_wall(ball, arena, Side::Left), CollisionEvent::Wall(Side::Left));
    lemma_tally_event_if(meets_wall(ball, arena, Side::Right), CollisionEvent::Wall(Side::Right));
    lemma_tally_event_if(
        meets_wall(ball, arena, Side::Bottom),
        CollisionEvent::Wall(Side::Bottom),
    );
    lemma_tally_event_if(meets_wall(ball, arena, Side::Top), CollisionEvent::Wall(Side::Top));
    lemma_tally_event_if(ball.bounds().overlaps(paddle), CollisionEvent::Paddle);
    let w1 = wall_event(ball, arena, Side::Left);
    let w2 = wall_event(ball, arena, Side::Right);
    let w3 = wall_event(ball, arena, Side::Bottom);
    let w4 = wall_event(ball, arena, Side::Top);
    lemma_tally_concat(w1, w2);
    lemma_tally_concat(w1 + w2, w3);
    lemma_tally_concat(w1 + w2 + w3, w4);
    lemma_tally_concat(walls, pad);
    lemma_tally_concat(walls + pad, brk);
    lemma_first_hit(ball.bounds(), bricks);
    lemma_counts(bricks);
    match first_hit(ball.bounds(), bricks) {
        Some(i) => {
            lemma_destroyed_at(bricks, i);
            lemma_tally_event_if(true, CollisionEvent::BrickDestroyed(i as usize));
        },
        None => {
            lemma_tally_event_if(false, CollisionEvent::Paddle);
        },
    }
}

} // verus!
