//! What a game starts from: the walls, the paddle, the ball and the bricks.
use vstd::prelude::*;
use vstd::arithmetic::div_mod::{lemma_fundamental_div_mod_converse};
use crate::arena::Arena;
use crate::ball::Ball;
use crate::brick::{destroyed_count, destroyed_set, lemma_counts, live_count, BrickView};
use crate::geometry::{Aabb, AabbView, Vec2, Vec2View};
use crate::kinematics::advance_axis;
use crate::input::Direction;
use crate::paddle::PaddleView;
use crate::world::WorldView;

verus! {

/// The bodies that a game starts with. The bricks are tested in the order
/// of this list.
#[derive(Debug)]
pub struct Layout {
    pub arena: Arena,
    pub paddle: Aabb,
    pub paddle_speed: i32,
    pub ball: Ball,
    pub bricks: Vec<Aabb>,
}

impl Layout {
    /// A game can start from the layout: the speed of the paddle is no less
    /// than zero, the paddle lies between the side walls, and either
    /// component of the ball's velocity can be negated.
    pub open spec fn spec_is_valid(&self) -> bool {
        &&& 0 <= self.paddle_speed
        &&& self.arena@.least_center(self.paddle.half_width as int) <= self.paddle.center.x
            <= self.arena@.greatest_center(self.paddle.half_width as int)
        &&& self.ball.velocity.reflectable()
    }

    /// The state in which a game starts from the layout: the paddle at rest,
    /// every brick live, the score zero, no input.
    pub open spec fn initial(&self) -> WorldView {
        WorldView {
            ball: self.ball@,
            paddle: PaddleView {
                body: self.paddle@,
                velocity: Vec2View { x: 0, y: 0 },
                speed: self.paddle_speed as int,
            },
            arena: self.arena@,
            bricks: Seq::new(
                self.bricks@.len(),
                |i: int| BrickView { body: self.bricks@[i]@, alive: true },
            ),
            score: 0,
            input: Direction::Neither,
        }
    }

    /// Whether a game can start from the layout.
    #[verifier::when_used_as_spec(spec_is_valid)]
    pub fn is_valid(&self) -> (valid: bool)
        ensures
            valid == self.spec_is_valid(),
    {
        let x: i64 = self.paddle.center.x as i64;
        let half: i64 = self.paddle.half_width as i64;
        self.paddle_speed >= 0 && self.arena.left.right() + half <= x && x
            <= self.arena.right.left() - half && self.ball.velocity.x > i32::MIN
            && self.ball.velocity.y > i32::MIN
    }
}

/// At the start of a game no brick is destroyed and the score is zero.
pub proof fn lemma_initial_score(layout: Layout)
    ensures
        destroyed_count(layout.initial().bricks) == 0,
        live_count(layout.initial().bricks) == layout.bricks@.len(),
        layout.initial().score_is_exact(),
{
    assert(destroyed_set(layout.initial().bricks) =~= Set::<int>::empty());
    lemma_counts(layout.initial().bricks);
}

/// The state in which a game starts from a valid layout is well formed.
pub proof fn lemma_initial_wf(layout: Layout)
    requires
        layout.is_valid(),
    ensures
        layout.initial().wf(),
{
    lemma_initial_score(layout);
}

/// The centre of the brick at place `k` of a grid of `columns` columns that
/// is filled row by row: `first` for the first brick, and from there one
/// `pitch` further for each column and each row.
pub open spec fn grid_center(first: Vec2View, pitch: Vec2View, columns: int, k: int) -> Vec2View {
    Vec2View { x: first.x + pitch.x * (k % columns), y: first.y + pitch.y * (k / columns) }
}

/// The brick at place `k` of a grid.
pub open spec fn grid_brick(
    first: Vec2View,
    half_width: int,
    half_height: int,
    pitch: Vec2View,
    columns: int,
    k: int,
) -> AabbView {
    AabbView { center: grid_center(first, pitch, columns, k), half_width, half_height }
}

/// The place of the brick in row `row` and column `column` is
/// `row * columns + column`.
pub proof fn lemma_grid_place(columns: int, row: int, column: int)
    requires
        0 <= column < columns,
        0 <= row,
    ensures
        0 <= row * columns + column,
        (row * columns + column) % columns == column,
        (row * columns + column) / columns == row,
{
    assert(0 <= row * columns) by (nonlinear_arith)
        requires
            0 <= row,
            0 < columns,
    ;
    lemma_fundamental_div_mod_converse(row * columns + column, columns, row, column);
}

/// The bricks of a grid of `rows` rows and `columns` columns, row by row,
/// or nothing where the centre of one of them cannot be represented.
pub fn brick_grid(
    first: Vec2,
    half_width: u32,
    half_height: u32,
    pitch: Vec2,
    columns: u16,
    rows: u16,
) -> (grid: Option<Vec<Aabb>>)
    ensures
        match grid {
            Some(bricks) => {
                &&& bricks@.len() == rows * columns
                &&& forall|k: int|
                    0 <= k < bricks@.len() ==> (#[trigger] bricks@[k])@ == grid_brick(
                        first@,
                        half_width as int,
                        half_height as int,
                        pitch@,
                        columns as int,
                        k,
                    )
            },
            None => exists|k: int|
                0 <= k < rows * columns && !(#[trigger] grid_center(
                    first@,
                    pitch@,
                    columns as int,
                    k,
                )).representable(),
        },
{
    let mut bricks: Vec<Aabb> = Vec::new();
    let mut row: u16 = 0;
    while row < rows
        invariant
            row <= rows,
            bricks@.len() == row * columns,
            forall|k: int|
                0 <= k < bricks@.len() ==> (#[trigger] bricks@[k])@ == grid_brick(
                    first@,
                    half_width as int,
                    half_height as int,
                    pitch@,
                    columns as int,
                    k,
                ),
        decreases rows - row,
    {
        let y: i64 = advance_axis(first.y, pitch.y, row as u32);
        let mut column: u16 = 0;
        while column < columns
            invariant
                row < rows,
                column <= columns,
                y == first.y + pitch.y * row,
                bricks@.len() == row * columns + column,
                forall|k: int|
                    0 <= k < bricks@.len() ==> (#[trigger] bricks@[k])@ == grid_brick(
                        first@,
                        half_width as int,
                        half_height as int,
                        pitch@,
                        columns as int,
                        k,
                    ),
            decreases columns - column,
        {
            let x: i64 = advance_axis(first.x, pitch.x, column as u32);
            let ghost k = row * columns + column;
            proof {
                lemma_grid_place(columns as int, row as int, column as int);
                assert(k < rows * columns) by (nonlinear_arith)
                    requires
                        k == row * columns + column,
                        0 <= column < columns,
                        0 <= row < rows,
                ;
            }
            if x < -0x8000_0000i64 || x > 0x7fff_ffffi64 || y < -0x8000_0000i64 || y
                > 0x7fff_ffffi64 {
                assert(!grid_center(first@, pitch@, columns as int, k).representable());
                return None;
            }
            bricks.push(
                Aabb { center: Vec2 { x: x as i32, y: y as i32 }, half_width, half_height },
            );
            column += 1;
        }
        proof {
            assert(row * columns + columns == (row + 1) * columns) by (nonlinear_arith);
        }
        row += 1;
    }
    Some(bricks)
}

} // verus!
