use breakout::arena::Arena;
use breakout::ball::Ball;
use breakout::geometry::{Aabb, Vec2};
use breakout::layout::{brick_grid, Layout};

fn boxed(x: i32, y: i32, half_width: u32, half_height: u32) -> Aabb {
    Aabb::new(Vec2::new(x, y), half_width, half_height)
}

fn layout_with(paddle: Aabb, paddle_speed: i32, velocity: Vec2) -> Layout {
    Layout {
        arena: Arena {
            left: boxed(-100, 0, 10, 110),
            right: boxed(100, 0, 10, 110),
            bottom: boxed(0, -100, 110, 10),
            top: boxed(0, 100, 110, 10),
        },
        paddle,
        paddle_speed,
        ball: Ball::new(Vec2::new(0, 0), velocity, 2),
        bricks: Vec::new(),
    }
}

#[test]
fn a_paddle_between_the_walls_makes_a_valid_layout() {
    assert!(layout_with(boxed(0, -70, 15, 3), 4, Vec2::new(3, -4)).is_valid());
    assert!(layout_with(boxed(-75, -70, 15, 3), 0, Vec2::new(0, 0)).is_valid());
    let fastest = Vec2::new(i32::MAX, -i32::MAX);
    assert!(layout_with(boxed(75, -70, 15, 3), i32::MAX, fastest).is_valid());
}

#[test]
fn a_paddle_that_reaches_into_a_wall_makes_no_valid_layout() {
    assert!(!layout_with(boxed(-76, -70, 15, 3), 4, Vec2::new(3, -4)).is_valid());
    assert!(!layout_with(boxed(76, -70, 15, 3), 4, Vec2::new(3, -4)).is_valid());
    assert!(!layout_with(boxed(0, -70, 91, 3), 4, Vec2::new(3, -4)).is_valid());
}

#[test]
fn a_paddle_speed_below_zero_makes_no_valid_layout() {
    assert!(!layout_with(boxed(0, -70, 15, 3), -1, Vec2::new(3, -4)).is_valid());
}

#[test]
fn a_velocity_that_cannot_be_negated_makes_no_valid_layout() {
    assert!(!layout_with(boxed(0, -70, 15, 3), 4, Vec2::new(i32::MIN, 0)).is_valid());
    assert!(!layout_with(boxed(0, -70, 15, 3), 4, Vec2::new(0, i32::MIN)).is_valid());
}

#[test]
fn a_grid_is_filled_row_by_row() {
    let grid = brick_grid(Vec2::new(-20, 50), 9, 3, Vec2::new(20, -10), 3, 2);
    assert_eq!(
        grid,
        Some(vec![
            boxed(-20, 50, 9, 3),
            boxed(0, 50, 9, 3),
            boxed(20, 50, 9, 3),
            boxed(-20, 40, 9, 3),
            boxed(0, 40, 9, 3),
            boxed(20, 40, 9, 3),
        ])
    );
}

#[test]
fn a_grid_without_rows_or_columns_is_empty() {
    assert_eq!(brick_grid(Vec2::new(0, 0), 1, 1, Vec2::new(5, 5), 0, 4), Some(Vec::new()));
    assert_eq!(brick_grid(Vec2::new(0, 0), 1, 1, Vec2::new(5, 5), 4, 0), Some(Vec::new()));
    assert_eq!(
        brick_grid(Vec2::new(i32::MAX, 0), 1, 1, Vec2::new(i32::MAX, 5), 0, 4),
        Some(Vec::new())
    );
}

#[test]
fn a_grid_may_reach_the_ends_of_the_range() {
    let grid = brick_grid(Vec2::new(i32::MAX - 10, i32::MIN + 6), 1, 1, Vec2::new(5, -3), 3, 3);
    let bricks = grid.unwrap();
    assert_eq!(bricks.len(), 9);
    assert_eq!(bricks[8], boxed(i32::MAX, i32::MIN, 1, 1));
}

#[test]
fn a_grid_that_leaves_the_range_is_refused() {
    assert_eq!(brick_grid(Vec2::new(i32::MAX - 10, 0), 1, 1, Vec2::new(5, 5), 4, 1), None);
    assert_eq!(brick_grid(Vec2::new(0, i32::MIN + 6), 1, 1, Vec2::new(5, -3), 1, 4), None);
}
