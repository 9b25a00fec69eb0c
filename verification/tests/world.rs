use breakout::arena::{Arena, Side};
use breakout::ball::Ball;
use breakout::brick::count_live;
use breakout::event::CollisionEvent;
use breakout::geometry::{Aabb, Vec2};
use breakout::layout::Layout;
use breakout::input::Direction;
use breakout::world::World;

fn boxed(x: i32, y: i32, half_width: u32, half_height: u32) -> Aabb {
    Aabb::new(Vec2::new(x, y), half_width, half_height)
}

fn arena() -> Arena {
    Arena {
        left: boxed(-100, 0, 10, 110),
        right: boxed(100, 0, 10, 110),
        bottom: boxed(0, -100, 110, 10),
        top: boxed(0, 100, 110, 10),
    }
}

fn layout(ball: Ball, bricks: Vec<Aabb>) -> Layout {
    Layout { arena: arena(), paddle: boxed(0, -70, 15, 3), paddle_speed: 4, ball, bricks }
}

fn ball(x: i32, y: i32, vx: i32, vy: i32) -> Ball {
    Ball::new(Vec2::new(x, y), Vec2::new(vx, vy), 2)
}

fn start(ball: Ball, bricks: Vec<Aabb>) -> World {
    let layout = layout(ball, bricks);
    assert!(layout.is_valid());
    World::new(&layout)
}

fn tick(world: &mut World, dt: u32) -> Vec<CollisionEvent> {
    assert!(world.can_step(dt));
    world.step(dt)
}

fn speed_squared(world: &World) -> i64 {
    let v = world.ball.velocity;
    (v.x as i64) * (v.x as i64) + (v.y as i64) * (v.y as i64)
}

fn destroyed(world: &World) -> u64 {
    world.bricks.iter().filter(|b| !b.alive).count() as u64
}

#[test]
fn a_game_starts_with_all_bricks_live_and_no_score() {
    let w = start(ball(0, 0, 1, 1), vec![boxed(0, 50, 10, 3), boxed(30, 50, 10, 3)]);
    assert_eq!(w.ball, ball(0, 0, 1, 1));
    assert_eq!(w.paddle.body, boxed(0, -70, 15, 3));
    assert_eq!(w.paddle.velocity, Vec2::new(0, 0));
    assert_eq!(w.paddle.speed, 4);
    assert_eq!(w.arena, arena());
    assert_eq!(w.bricks.len(), 2);
    assert!(w.bricks[0].alive && w.bricks[1].alive);
    assert_eq!(w.bricks[0].body, boxed(0, 50, 10, 3));
    assert_eq!(w.bricks[1].body, boxed(30, 50, 10, 3));
    assert_eq!(w.scoreboard.score(), 0);
    assert_eq!(w.input, Direction::Neither);
}

#[test]
fn a_tick_in_free_space_only_moves_the_ball() {
    let mut w = start(ball(0, 0, 3, -4), vec![boxed(0, 50, 10, 3)]);
    let events = tick(&mut w, 2);
    assert!(events.is_empty());
    assert_eq!(w.ball, ball(6, -8, 3, -4));
    assert_eq!(w.paddle.body, boxed(0, -70, 15, 3));
    assert_eq!(w.scoreboard.score(), 0);
    assert!(w.bricks[0].alive);
}

#[test]
fn the_ball_turns_back_in_the_tick_in_which_it_first_overlaps_the_bottom_wall() {
    let layout = Layout {
        arena: Arena {
            left: boxed(-30, 0, 1, 40),
            right: boxed(30, 0, 1, 40),
            bottom: boxed(0, -10, 31, 1),
            top: boxed(0, 40, 31, 1),
        },
        paddle: boxed(20, -7, 3, 1),
        paddle_speed: 1,
        ball: Ball::new(Vec2::new(0, 0), Vec2::new(0, -5), 1),
        bricks: Vec::new(),
    };
    assert!(layout.is_valid());
    let mut w = World::new(&layout);
    let events = tick(&mut w, 1);
    assert!(events.is_empty());
    assert_eq!(w.ball.position, Vec2::new(0, -5));
    assert_eq!(w.ball.velocity, Vec2::new(0, -5));
    let events = tick(&mut w, 1);
    assert_eq!(events, vec![CollisionEvent::Wall(Side::Bottom)]);
    assert_eq!(w.ball.position, Vec2::new(0, -10));
    assert_eq!(w.ball.velocity, Vec2::new(0, 5));
    let events = tick(&mut w, 1);
    assert!(events.is_empty());
    assert_eq!(w.ball.position, Vec2::new(0, -5));
    assert_eq!(w.ball.velocity, Vec2::new(0, 5));
}

#[test]
fn a_brick_hit_deeper_horizontally_is_destroyed_and_scores_one() {
    let mut w = start(ball(2, 44, 1, 2), vec![boxed(0, 50, 10, 3), boxed(40, 50, 10, 3)]);
    let events = tick(&mut w, 1);
    assert_eq!(events, vec![CollisionEvent::BrickDestroyed(0)]);
    assert_eq!(w.ball.position, Vec2::new(3, 46));
    assert_eq!(w.ball.velocity, Vec2::new(-1, 2));
    assert!(!w.bricks[0].alive);
    assert!(w.bricks[1].alive);
    assert_eq!(count_live(&w.bricks), 1);
    assert_eq!(w.scoreboard.score(), 1);
}

#[test]
fn of_two_bricks_that_overlap_the_ball_only_the_first_is_resolved() {
    let mut w = start(ball(2, 46, 1, 2), vec![boxed(12, 50, 10, 3), boxed(-8, 50, 10, 3)]);
    let events = tick(&mut w, 0);
    assert_eq!(events, vec![CollisionEvent::BrickDestroyed(0)]);
    assert!(!w.bricks[0].alive);
    assert!(w.bricks[1].alive);
    assert_eq!(w.scoreboard.score(), 1);
    assert_eq!(w.ball.velocity, Vec2::new(-1, 2));
    let events = tick(&mut w, 0);
    assert_eq!(events, vec![CollisionEvent::BrickDestroyed(1)]);
    assert!(!w.bricks[0].alive);
    assert!(!w.bricks[1].alive);
    assert_eq!(w.scoreboard.score(), 2);
    let events = tick(&mut w, 0);
    assert!(events.is_empty());
    assert_eq!(w.scoreboard.score(), 2);
}

#[test]
fn the_order_of_the_list_decides_not_the_depth() {
    let mut w = start(ball(0, 48, 1, 2), vec![boxed(11, 50, 10, 3), boxed(0, 50, 10, 3)]);
    let events = tick(&mut w, 0);
    assert_eq!(events, vec![CollisionEvent::BrickDestroyed(0)]);
    assert_eq!(w.ball.velocity, Vec2::new(1, -2));
}

#[test]
fn a_paddle_at_the_left_bound_stays_there_and_keeps_its_velocity() {
    let l = Layout {
        arena: arena(),
        paddle: boxed(-75, -70, 15, 3),
        paddle_speed: 4,
        ball: ball(0, 0, 0, 0),
        bricks: Vec::new(),
    };
    assert!(l.is_valid());
    let mut w = World::new(&l);
    w.set_input(Direction::Left);
    for _ in 0..25 {
        tick(&mut w, 3);
        assert_eq!(w.paddle.body.center, Vec2::new(-75, -70));
        assert_eq!(w.paddle.velocity, Vec2::new(-4, 0));
    }
}

#[test]
fn the_paddle_follows_the_input() {
    let mut w = start(ball(0, 0, 0, 0), Vec::new());
    w.set_input(Direction::Right);
    tick(&mut w, 2);
    assert_eq!(w.paddle.body.center, Vec2::new(8, -70));
    assert_eq!(w.paddle.velocity, Vec2::new(4, 0));
    w.set_input(Direction::Neither);
    tick(&mut w, 2);
    assert_eq!(w.paddle.body.center, Vec2::new(8, -70));
    assert_eq!(w.paddle.velocity, Vec2::new(0, 0));
    w.set_input(Direction::Left);
    tick(&mut w, 5);
    assert_eq!(w.paddle.body.center, Vec2::new(-12, -70));
    assert_eq!(w.paddle.velocity, Vec2::new(-4, 0));
}

#[test]
fn the_input_holds_until_the_host_feeds_another() {
    let mut w = start(ball(0, 0, 0, 0), Vec::new());
    w.set_input(Direction::Right);
    tick(&mut w, 1);
    tick(&mut w, 1);
    tick(&mut w, 1);
    assert_eq!(w.paddle.body.center.x, 12);
}

#[test]
fn the_paddle_never_leaves_the_arena() {
    let mut w = start(ball(0, 0, 0, 0), Vec::new());
    let inputs = [Direction::Left, Direction::Left, Direction::Right, Direction::Neither];
    for round in 0..200 {
        w.set_input(inputs[(round / 7) % 4]);
        tick(&mut w, 9);
        assert!(-75 <= w.paddle.body.center.x && w.paddle.body.center.x <= 75);
        assert_eq!(w.paddle.body.center.y, -70);
    }
    w.set_input(Direction::Right);
    tick(&mut w, u32::MAX);
    assert_eq!(w.paddle.body.center.x, 75);
}

#[test]
fn the_ball_meets_the_paddle_where_the_paddle_is_after_its_move() {
    let mut w = start(ball(21, -66, 0, 0), Vec::new());
    w.set_input(Direction::Right);
    let events = tick(&mut w, 1);
    assert!(events.is_empty());
    let events = tick(&mut w, 1);
    assert_eq!(events, vec![CollisionEvent::Paddle]);
    assert_eq!(w.paddle.body.center.x, 8);
}

#[test]
fn a_long_game_keeps_speed_score_and_bricks_in_step() {
    let mut bricks = Vec::new();
    for row in 0..4 {
        for column in 0..7 {
            bricks.push(boxed(-72 + 24 * column, 40 + 10 * row, 10, 3));
        }
    }
    let mut w = start(ball(0, -40, 3, 4), bricks);
    let speed = speed_squared(&w);
    assert_eq!(speed, 25);
    let mut live = count_live(&w.bricks);
    assert_eq!(live, 28);
    let mut told = 0;
    for round in 0..4000 {
        let input = match (round / 13) % 3 {
            0 => Direction::Left,
            1 => Direction::Right,
            _ => Direction::Neither,
        };
        w.set_input(input);
        let was_alive: Vec<bool> = w.bricks.iter().map(|b| b.alive).collect();
        let events = tick(&mut w, 1);
        let destroyed_now = events.iter().filter(|e| e.destroys_brick()).count();
        told += destroyed_now as u64;
        assert!(destroyed_now <= 1);
        assert_eq!(speed_squared(&w), speed);
        let now = count_live(&w.bricks);
        assert_eq!(now + destroyed_now, live);
        live = now;
        for (i, brick) in w.bricks.iter().enumerate() {
            assert!(was_alive[i] || !brick.alive);
        }
        assert_eq!(w.scoreboard.score(), destroyed(&w));
        assert_eq!(w.scoreboard.score(), told);
        assert!(-75 <= w.paddle.body.center.x && w.paddle.body.center.x <= 75);
    }
    assert!(told > 0);
}

#[test]
fn a_tick_that_would_leave_the_range_is_told_beforehand() {
    let w = start(ball(0, 0, i32::MAX, 0), Vec::new());
    assert!(w.can_step(1));
    assert!(!w.can_step(2));
    let w = start(ball(0, 0, 0, -i32::MAX), Vec::new());
    assert!(w.can_step(1));
    assert!(!w.can_step(2));
    assert!(w.can_step(0));
}

#[test]
fn the_states_of_a_game_are_well_formed() {
    let mut w = start(ball(2, 44, 1, 2), vec![boxed(0, 50, 10, 3)]);
    assert!(w.is_well_formed());
    tick(&mut w, 1);
    assert!(w.is_well_formed());
    assert_eq!(w.scoreboard.score(), 1);
}

#[test]
fn a_state_altered_by_hand_is_found_out() {
    let mut w = start(ball(2, 44, 1, 2), vec![boxed(0, 50, 10, 3)]);
    w.scoreboard.score = 1;
    assert!(!w.is_well_formed());
    w.scoreboard.score = 0;
    w.bricks[0].alive = false;
    assert!(!w.is_well_formed());
    w.bricks[0].alive = true;
    assert!(w.is_well_formed());
    w.paddle.body.center.x = 76;
    assert!(!w.is_well_formed());
    w.paddle.body.center.x = -76;
    assert!(!w.is_well_formed());
    w.paddle.body.center.x = 75;
    assert!(w.is_well_formed());
    w.paddle.speed = -1;
    assert!(!w.is_well_formed());
    w.paddle.speed = 0;
    w.paddle.velocity.y = 1;
    assert!(!w.is_well_formed());
    w.paddle.velocity.y = 0;
    w.ball.velocity.x = i32::MIN;
    assert!(!w.is_well_formed());
}

#[test]
fn a_wall_and_a_brick_met_in_one_tick_are_both_resolved() {
    let mut w = start(ball(86, 46, 3, 4), vec![boxed(80, 50, 10, 3)]);
    let events = tick(&mut w, 1);
    assert_eq!(
        events,
        vec![CollisionEvent::Wall(Side::Right), CollisionEvent::BrickDestroyed(0)]
    );
    assert_eq!(w.ball.position, Vec2::new(89, 50));
    assert_eq!(w.ball.velocity, Vec2::new(-3, -4));
    assert_eq!(w.scoreboard.score(), 1);
}
