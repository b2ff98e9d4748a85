//! Dimensions of the play field and the geometry the systems share.
//!
//! Lengths are fixed-point integers: one arena unit is `UNIT` steps, so a
//! position is exact to a millionth of a unit. Time is counted in
//! microseconds, and a velocity is given in arena units per second, which is
//! the same as steps per microsecond: a displacement is `velocity * dt`.
use vstd::prelude::*;

verus! {

/// Coordinate steps in one arena unit.
pub const UNIT: i64 = 1_000_000;

/// Microseconds in one second.
pub const SECOND: u64 = 1_000_000;

pub const ARENA_HEIGHT: i64 = 90 * UNIT;

pub const ARENA_WIDTH: i64 = 160 * UNIT;

pub const PADDLE_HEIGHT: i64 = 16 * UNIT;

pub const PADDLE_WIDTH: i64 = 4 * UNIT;

/// Paddle speed at full axis deflection, in units per second.
pub const PADDLE_VELOCITY: i64 = 75;

/// Horizontal speed of a freshly spawned ball, in units per second.
pub const BALL_VELOCITY_X: i64 = 75;

/// Vertical speed of a freshly spawned ball, in units per second.
pub const BALL_VELOCITY_Y: i64 = 50;

pub const BALL_RADIUS: i64 = 2 * UNIT;

/// Delay between the start of a match and the ball's appearance.
pub const BALL_SPAWN_DELAY: u64 = SECOND;

/// The highest score a player can reach.
pub const MAX_SCORE: i32 = 999;

/// Full deflection of an input axis: axis values lie in `[-AXIS_RANGE, AXIS_RANGE]`.
pub const AXIS_RANGE: i32 = 1000;

/// The closed rectangle `[left, right] x [bottom, top]` holds the point `(x, y)`.
pub open spec fn in_rect(x: int, y: int, left: int, bottom: int, right: int, top: int) -> bool {
    left <= x <= right && bottom <= y <= top
}

/// A point is in a box when its coordinates are no larger than the top right
/// corner and no smaller than the bottom left one; every edge belongs to the box.
pub fn point_in_rect(x: i128, y: i128, left: i128, bottom: i128, right: i128, top: i128) -> (r: bool)
    ensures
        r == in_rect(x as int, y as int, left as int, bottom as int, right as int, top as int),
{
    x >= left && x <= right && y >= bottom && y <= top
}

/// `point_in_rect` holds on every edge and corner of a rectangle, and fails for
/// a point beyond any single one of its bounds.
pub proof fn lemma_rect_edges_inclusive(left: int, bottom: int, right: int, top: int)
    requires
        left <= right,
        bottom <= top,
    ensures
        forall|x: int| left <= x <= right ==> #[trigger] in_rect(x, bottom, left, bottom, right, top)
            && in_rect(x, top, left, bottom, right, top),
        forall|y: int| bottom <= y <= top ==> #[trigger] in_rect(left, y, left, bottom, right, top)
            && in_rect(right, y, left, bottom, right, top),
        forall|x: int, y: int| x < left || x > right || y < bottom || y > top ==> !#[trigger] in_rect(
            x,
            y,
            left,
            bottom,
            right,
            top,
        ),
{
}

} // verus!
