//! The state of a running game, and the fixed tick that advances it.
//!
//! A tick runs its parts in one order: the paddle takes the velocity that
//! the input asks for; ball and paddle move; the ball's collisions are
//! resolved; the scoreboard takes note of the events.
use vstd::prelude::*;
use crate::arena::{Arena, ArenaView};
use crate::ball::{lemma_ball_keeps_speed, Ball, BallView};
use crate::brick::{
    bricks_view, count_live, destroyed_count, lemma_counts, live_count, live_set, Brick,
    BrickView,
};
use crate::collision::{
    lemma_resolved_ball, lemma_resolved_bricks, resolve, resolved, Outcome,
};
use crate::event::{tally, CollisionEvent};
use crate::geometry::Axis;
use crate::layout::{lemma_initial_score, lemma_initial_wf, Layout};
use crate::input::Direction;
use crate::paddle::{Paddle, PaddleView};
use crate::scoreboard::Scoreboard;

verus! {

/// The state of a game, as mathematical values.
pub struct WorldView {
    pub ball: BallView,
    pub paddle: PaddleView,
    pub arena: ArenaView,
    pub bricks: Seq<BrickView>,
    pub score: nat,
    pub input: Direction,
}

impl WorldView {
    /// The least centre that the paddle may take.
    pub open spec fn paddle_least(self) -> int {
        self.arena.least_center(self.paddle.body.half_width)
    }

    /// The greatest centre that the paddle may take.
    pub open spec fn paddle_greatest(self) -> int {
        self.arena.greatest_center(self.paddle.body.half_width)
    }

    /// The paddle lies between the side walls.
    pub open spec fn paddle_in_arena(self) -> bool {
        self.paddle_least() <= self.paddle.body.center.x <= self.paddle_greatest()
    }

    /// The score is the number of destroyed bricks.
    pub open spec fn score_is_exact(self) -> bool {
        self.score == destroyed_count(self.bricks)
    }

    /// What holds of every state of a game: the paddle is well formed and
    /// lies between the side walls, and the score is the number of destroyed
    /// bricks.
    pub open spec fn wf(self) -> bool {
        &&& self.paddle.wf()
        &&& self.paddle_in_arena()
        &&& self.score_is_exact()
    }

    /// The state with the input that the host has fed.
    pub open spec fn with_input(self, input: Direction) -> WorldView {
        WorldView { input, ..self }
    }

    /// The paddle after the tick: steered by the input, moved, and held
    /// between the side walls.
    pub open spec fn paddle_after(self, dt: int) -> PaddleView {
        self.paddle.steered(self.input).moved(dt, self.paddle_least(), self.paddle_greatest())
    }

    /// What collision resolution makes of the tick's motion.
    pub open spec fn outcome(self, dt: int) -> Outcome {
        resolved(self.ball.moved(dt), self.arena, self.paddle_after(dt).body, self.bricks)
    }

    /// The events of a tick of length `dt`.
    pub open spec fn events(self, dt: int) -> Seq<CollisionEvent> {
        self.outcome(dt).events
    }

    /// The state after a tick of length `dt`.
    pub open spec fn step(self, dt: int) -> WorldView {
        WorldView {
            ball: self.outcome(dt).ball,
            paddle: self.paddle_after(dt),
            bricks: self.outcome(dt).bricks,
            score: self.score + tally(self.events(dt)),
            ..self
        }
    }

    /// The state after one tick of length `dt` for each input of the list,
    /// each fed before its tick.
    pub open spec fn run(self, inputs: Seq<Direction>, dt: int) -> WorldView
        decreases inputs.len(),
    {
        if inputs.len() == 0 {
            self
        } else {
            self.run(inputs.drop_last(), dt).with_input(inputs.last()).step(dt)
        }
    }
}

/// The state of a game.
#[derive(Debug)]
pub struct World {
    pub ball: Ball,
    pub paddle: Paddle,
    pub arena: Arena,
    pub bricks: Vec<Brick>,
    pub scoreboard: Scoreboard,
    pub input: Direction,
}

impl View for World {
    type V = WorldView;

    open spec fn view(&self) -> WorldView {
        WorldView {
            ball: self.ball@,
            paddle: self.paddle@,
            arena: self.arena@,
            bricks: bricks_view(self.bricks@),
            score: self.scoreboard@,
            input: self.input,
        }
    }
}

impl World {
    /// The state in which a game starts from `layout`.
    pub fn new(layout: &Layout) -> (world: World)
        requires
            layout.is_valid(),
        ensures
            world@ == layout.initial(),
            world.wf(),
    {
        let mut bricks: Vec<Brick> = Vec::new();
        let mut i: usize = 0;
        while i < layout.bricks.len()
            invariant
                i <= layout.bricks.len(),
                bricks@.len() == i,
                forall|k: int|
                    0 <= k < i ==> #[trigger] bricks@[k] == (Brick {
                        body: layout.bricks@[k],
                        alive: true,
                    }),
            decreases layout.bricks.len() - i,
        {
            bricks.push(Brick::new(layout.bricks[i]));
            i += 1;
        }
        let world = World {
            ball: layout.ball,
            paddle: Paddle::new(layout.paddle, layout.paddle_speed),
            arena: layout.arena,
            bricks,
            scoreboard: Scoreboard::new(),
            input: Direction::Neither,
        };
        proof {
            assert(world@.bricks =~= layout.initial().bricks);
            lemma_initial_wf(*layout);
        }
        world
    }

    /// The state is one of a game, and the ball can be turned back.
    pub open spec fn wf(&self) -> bool {
        &&& self@.wf()
        &&& self.ball.velocity.reflectable()
    }

    /// The position that the ball reaches in a tick of length `dt` can be
    /// represented.
    pub open spec fn spec_can_step(&self, dt: u32) -> bool {
        self@.ball.moved(dt as int).position.representable()
    }

    /// Whether the position that the ball reaches in a tick of length `dt`
    /// can be represented, which is what `step` asks.
    #[verifier::when_used_as_spec(spec_can_step)]
    pub fn can_step(&self, dt: u32) -> (ok: bool)
        ensures
            ok == self.spec_can_step(dt),
    {
        crate::kinematics::checked_advance(self.ball.position, self.ball.velocity, dt).is_some()
    }

    /// Whether the state is well formed, which is what `step` asks. Every
    /// state that `new` and `step` hand out is; a host that builds or alters
    /// a state by hand can test it here.
    pub fn is_well_formed(&self) -> (ok: bool)
        ensures
            ok == self.wf(),
    {
        proof {
            lemma_counts(self@.bricks);
        }
        let destroyed: usize = self.bricks.len() - count_live(&self.bricks);
        let x: i64 = self.paddle.body.center.x as i64;
        let half: i64 = self.paddle.body.half_width as i64;
        self.paddle.speed >= 0 && self.paddle.velocity.y == 0 && self.arena.left.right() + half
            <= x && x <= self.arena.right.left() - half && self.scoreboard.score()
            == destroyed as u64 && self.ball.velocity.x > i32::MIN && self.ball.velocity.y
            > i32::MIN
    }

    /// Feeds the input for the ticks to come.
    pub fn set_input(&mut self, input: Direction)
        ensures
            final(self)@ == old(self)@.with_input(input),
            final(self).ball == old(self).ball,
            final(self).wf() == old(self).wf(),
    {
        self.input = input;
    }

    /// Advances the game by one tick of length `dt` and hands back the
    /// events of the tick, in the order in which they arose. The tick keeps
    /// the speed of the ball, leaves the paddle between the side walls,
    /// destroys at most one brick and revives none, and leaves the score at
    /// the number of destroyed bricks.
    pub fn step(&mut self, dt: u32) -> (events: Vec<CollisionEvent>)
        requires
            old(self).wf(),
            old(self).can_step(dt),
        ensures
            final(self)@ == old(self)@.step(dt as int),
            events@ == old(self)@.events(dt as int),
            final(self).wf(),
            final(self)@.ball.speed_squared() == old(self)@.ball.speed_squared(),
            final(self).bricks.len() == old(self).bricks.len(),
            live_set(final(self)@.bricks).subset_of(live_set(old(self)@.bricks)),
            live_count(final(self)@.bricks) <= live_count(old(self)@.bricks) <= live_count(
                final(self)@.bricks,
            ) + 1,
    {
        proof {
            lemma_step_wf(self@, dt as int);
            lemma_step_keeps_speed(self@, dt as int);
            lemma_step_bricks(self@, dt as int);
            lemma_counts(self@.bricks);
            lemma_counts(self@.step(dt as int).bricks);
        }
        self.paddle.steer(self.input);
        let range = self.arena.center_range(self.paddle.body.half_width);
        self.paddle.advance(dt, range.0, range.1);
        self.ball.advance(dt);
        let events = resolve(&mut self.ball, &self.arena, &self.paddle.body, &mut self.bricks);
        self.scoreboard.record_all(&events);
        events
    }
}

/// A tick keeps a state well formed: the paddle stays between the side
/// walls whatever the input, and the score stays the number of destroyed
/// bricks.
pub proof fn lemma_step_wf(w: WorldView, dt: int)
    requires
        w.wf(),
    ensures
        w.step(dt).wf(),
        w.step(dt).paddle_least() == w.paddle_least(),
        w.step(dt).paddle_greatest() == w.paddle_greatest(),
{
    lemma_resolved_bricks(w.ball.moved(dt), w.arena, w.paddle_after(dt).body, w.bricks);
}

/// After a tick the paddle lies between the side walls, wherever it was
/// before and whatever the input, provided that it fits between them at
/// all. The tick does not move the walls.
pub proof fn lemma_step_paddle_in_arena(w: WorldView, dt: int)
    requires
        w.arena.admits(w.paddle.body.half_width),
    ensures
        w.step(dt).paddle_in_arena(),
        w.step(dt).paddle_least() == w.paddle_least(),
        w.step(dt).paddle_greatest() == w.paddle_greatest(),
        w.step(dt).paddle.body.center.y == w.paddle.body.center.y,
{
}

/// A tick leaves the walls, the input, the measures and the speed of the
/// paddle, the radius of the ball and the bodies of the bricks as they are.
pub proof fn lemma_step_frame(w: WorldView, dt: int)
    ensures
        w.step(dt).arena == w.arena,
        w.step(dt).input == w.input,
        w.step(dt).paddle.speed == w.paddle.speed,
        w.step(dt).paddle.body.half_width == w.paddle.body.half_width,
        w.step(dt).paddle.body.half_height == w.paddle.body.half_height,
        w.step(dt).paddle.body.center.y == w.paddle.body.center.y,
        w.step(dt).ball.radius == w.ball.radius,
        w.step(dt).ball.position == w.ball.moved(dt).position,
        w.step(dt).bricks.len() == w.bricks.len(),
        forall|j: int|
            0 <= j < w.bricks.len() ==> (#[trigger] w.step(dt).bricks[j]).body == w.bricks[j].body,
{
    lemma_resolved_ball(w.ball.moved(dt), w.arena, w.paddle_after(dt).body, w.bricks);
    lemma_resolved_bricks(w.ball.moved(dt), w.arena, w.paddle_after(dt).body, w.bricks);
}

/// A tick changes the direction of the ball at most: its speed stays.
pub proof fn lemma_step_keeps_speed(w: WorldView, dt: int)
    ensures
        w.step(dt).ball.speed_squared() == w.ball.speed_squared(),
        w.step(dt).ball.radius == w.ball.radius,
{
    lemma_ball_keeps_speed(w.ball, dt, false, Axis::Vertical);
    lemma_resolved_ball(w.ball.moved(dt), w.arena, w.paddle_after(dt).body, w.bricks);
}

/// A tick destroys at most one brick and revives none: every brick that is
/// live after the tick was live before it, and the number of live bricks
/// falls by one or stays. The score rises by what the number of live bricks
/// falls.
pub proof fn lemma_step_bricks(w: WorldView, dt: int)
    ensures
        w.step(dt).bricks.len() == w.bricks.len(),
        live_set(w.step(dt).bricks).subset_of(live_set(w.bricks)),
        live_count(w.step(dt).bricks) <= live_count(w.bricks) <= live_count(w.step(dt).bricks)
            + 1,
        w.step(dt).score + live_count(w.step(dt).bricks) == w.score + live_count(w.bricks),
        w.score <= w.step(dt).score <= w.score + 1,
{
    lemma_resolved_bricks(w.ball.moved(dt), w.arena, w.paddle_after(dt).body, w.bricks);
}

/// The score is the number of destroyed bricks after a tick where it was
/// before the tick.
pub proof fn lemma_step_score(w: WorldView, dt: int)
    requires
        w.score_is_exact(),
    ensures
        w.step(dt).score_is_exact(),
{
    lemma_resolved_bricks(w.ball.moved(dt), w.arena, w.paddle_after(dt).body, w.bricks);
}

/// The speed of the ball is the same after any number of ticks, whatever
/// the ball met in them.
pub proof fn lemma_run_keeps_speed(w: WorldView, inputs: Seq<Direction>, dt: int)
    ensures
        w.run(inputs, dt).ball.speed_squared() == w.ball.speed_squared(),
    decreases inputs.len(),
{
    if inputs.len() > 0 {
        lemma_run_keeps_speed(w, inputs.drop_last(), dt);
        lemma_step_keeps_speed(w.run(inputs.drop_last(), dt).with_input(inputs.last()), dt);
    }
}

/// After one tick or more the paddle lies between the side walls, whatever
/// the inputs were, provided that it fits between them at all.
pub proof fn lemma_run_paddle_in_arena(w: WorldView, inputs: Seq<Direction>, dt: int)
    requires
        w.arena.admits(w.paddle.body.half_width),
    ensures
        w.run(inputs, dt).paddle_least() == w.paddle_least(),
        w.run(inputs, dt).paddle_greatest() == w.paddle_greatest(),
        inputs.len() > 0 || w.paddle_in_arena() ==> w.run(inputs, dt).paddle_in_arena(),
    decreases inputs.len(),
{
    if inputs.len() > 0 {
        lemma_run_paddle_in_arena(w, inputs.drop_last(), dt);
        lemma_step_paddle_in_arena(w.run(inputs.drop_last(), dt).with_input(inputs.last()), dt);
    }
}

/// Over any number of ticks the number of live bricks does not rise, and
/// falls by no more than the number of ticks; no brick comes back to life;
/// the score does not fall.
pub proof fn lemma_run_bricks(w: WorldView, inputs: Seq<Direction>, dt: int)
    ensures
        w.run(inputs, dt).bricks.len() == w.bricks.len(),
        live_set(w.run(inputs, dt).bricks).subset_of(live_set(w.bricks)),
        live_count(w.run(inputs, dt).bricks) <= live_count(w.bricks) <= live_count(
            w.run(inputs, dt).bricks,
        ) + inputs.len(),
        w.score <= w.run(inputs, dt).score,
    decreases inputs.len(),
{
    if inputs.len() > 0 {
        lemma_run_bricks(w, inputs.drop_last(), dt);
        lemma_step_bricks(w.run(inputs.drop_last(), dt).with_input(inputs.last()), dt);
    }
}

/// In every state that ticks lead to from a state in which the score is the
/// number of destroyed bricks, the score is the number of destroyed bricks.
pub proof fn lemma_run_score(w: WorldView, inputs: Seq<Direction>, dt: int)
    requires
        w.score_is_exact(),
    ensures
        w.run(inputs, dt).score_is_exact(),
    decreases inputs.len(),
{
    if inputs.len() > 0 {
        lemma_run_score(w, inputs.drop_last(), dt);
        lemma_step_score(w.run(inputs.drop_last(), dt).with_input(inputs.last()), dt);
    }
}

/// In every state that ticks lead to from the start of a game, the score is
/// the number of destroyed bricks.
pub proof fn lemma_score_counts_destroyed(layout: Layout, inputs: Seq<Direction>, dt: int)
    ensures
        layout.initial().run(inputs, dt).score == destroyed_count(
            layout.initial().run(inputs, dt).bricks,
        ),
{
    lemma_initial_score(layout);
    lemma_run_score(layout.initial(), inputs, dt);
}

/// Ticks lead from well-formed states to well-formed states.
pub proof fn lemma_run_wf(w: WorldView, inputs: Seq<Direction>, dt: int)
    requires
        w.wf(),
    ensures
        w.run(inputs, dt).wf(),
    decreases inputs.len(),
{
    if inputs.len() > 0 {
        lemma_run_wf(w, inputs.drop_last(), dt);
        lemma_step_wf(w.run(inputs.drop_last(), dt).with_input(inputs.last()), dt);
    }
}

} // verus!
