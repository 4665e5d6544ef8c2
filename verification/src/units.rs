//! Units of measure and the constants of the game.
//!
//! * A length or coordinate is an `i64` number of ticks; one screen unit is
//!   [`TICKS_PER_UNIT`] ticks.
//! * A time step is a `u32` number of microseconds.
//! * A velocity component is an `i64` number of thousandths; [`ONE`] stands
//!   for a component of magnitude one.
//!
//! With these choices a body moving at `v` thousandths with a speed of `s`
//! screen units per second travels exactly `v * dt * s` ticks in `dt`
//! microseconds.

use vstd::prelude::*;

verus! {

/// Ticks in one screen unit.
pub const TICKS_PER_UNIT: i64 = 1_000_000_000;

/// The velocity component of magnitude one, in thousandths.
pub const ONE: i64 = 1000;

/// Paddle speed in screen units per second.
pub const PLAYER_SPEED: i64 = 700;

/// Ball speed in screen units per second.
pub const BALL_SPEED: i64 = 400;

/// Width of the paddle in ticks (150 screen units).
pub const PLAYER_WIDTH: i64 = 150_000_000_000;

/// Height of the paddle in ticks (40 screen units).
pub const PLAYER_HEIGHT: i64 = 40_000_000_000;

/// Distance in ticks from the bottom of the screen to the top of the paddle
/// (100 screen units).
pub const PLAYER_LIFT: i64 = 100_000_000_000;

/// Width of a block in ticks (100 screen units).
pub const BLOCK_WIDTH: i64 = 100_000_000_000;

/// Height of a block in ticks (30 screen units).
pub const BLOCK_HEIGHT: i64 = 30_000_000_000;

/// Side of the square ball in ticks (30 screen units).
pub const BALL_SIZE: i64 = 30_000_000_000;

/// Gap in ticks between neighbouring blocks of the opening grid (5 screen
/// units).
pub const BLOCK_PADDING: i64 = 5_000_000_000;

/// Blocks in a row of the opening grid.
pub const GRID_COLUMNS: i64 = 6;

/// Rows of the opening grid.
pub const GRID_ROWS: i64 = 6;

/// Distance in ticks from the top of the screen to the opening grid (50
/// screen units).
pub const GRID_TOP: i64 = 50_000_000_000;

/// Hits a new block takes before it is destroyed.
pub const BLOCK_LIVES: i32 = 3;

/// Points scored for a destroying hit.
pub const BLOCK_SCORE: u64 = 10;

/// Lives a session starts with.
pub const START_LIVES: i64 = 3;

/// Largest magnitude of a coordinate, and largest size, that the geometry
/// accepts: 2^60 ticks. Sums and differences of a few such values fit in an
/// `i64`.
pub const EXTENT: i64 = 0x1000_0000_0000_0000;

/// Largest width and height of a screen, and largest coordinate and size of
/// a paddle or block in a session: 2^50 ticks, about a million screen units.
pub const FIELD: i64 = 0x4_0000_0000_0000;

/// Twice [`FIELD`]: no paddle or block in a session reaches further from the
/// origin.
pub const REACH: i64 = 0x8_0000_0000_0000;

/// The farthest a ball travels along one axis in one frame: at velocity
/// [`ONE`] for the longest time step, `u32::MAX` microseconds.
pub const BALL_TRAVEL_MAX: i64 = 1_717_986_918_000_000;

/// Most balls a session holds.
pub const BALLS_MAX: usize = 0x7fff_ffff;

/// Sign of an integer: -1, 0 or 1. Zero has sign zero.
pub open spec fn sign(v: int) -> int {
    if v > 0 {
        1
    } else if v < 0 {
        -1
    } else {
        0
    }
}

/// Magnitude of an integer.
pub open spec fn magnitude(v: int) -> int {
    if v < 0 {
        -v
    } else {
        v
    }
}

/// Ticks travelled in `dt` microseconds by a body whose velocity component is
/// `v` thousandths and whose speed is `speed` screen units per second.
pub open spec fn travel(v: int, dt: int, speed: int) -> int {
    v * dt * speed
}

/// A velocity component no larger in magnitude than [`ONE`].
pub open spec fn unitish(v: int) -> bool {
    -ONE <= v <= ONE
}

/// Travel is bounded by the travel at full velocity, which grows with the
/// time step.
pub proof fn lemma_travel_bound(v: int, dt: int, speed: int)
    requires
        unitish(v),
        0 <= dt,
        0 <= speed,
    ensures
        -(ONE * dt * speed) <= travel(v, dt, speed) <= ONE * dt * speed,
        -(ONE * dt) <= v * dt <= ONE * dt,
        v >= 0 ==> travel(v, dt, speed) >= 0,
        v <= 0 ==> travel(v, dt, speed) <= 0,
{
    assert(v >= 0 ==> v * dt * speed >= 0) by (nonlinear_arith)
        requires
            0 <= dt,
            0 <= speed,
    ;
    assert(v <= 0 ==> v * dt * speed <= 0) by (nonlinear_arith)
        requires
            0 <= dt,
            0 <= speed,
    ;
    assert(-(ONE * dt) <= v * dt <= ONE * dt) by (nonlinear_arith)
        requires
            -ONE <= v <= ONE,
            0 <= dt,
    ;
    assert(-(ONE * dt * speed) <= v * dt * speed <= ONE * dt * speed) by (nonlinear_arith)
        requires
            -(ONE * dt) <= v * dt <= ONE * dt,
            0 <= speed,
    ;
}

/// Sign of a coordinate difference or velocity component.
pub fn signum(v: i64) -> (s: i64)
    ensures
        s == sign(v as int),
{
    if v > 0 {
        1
    } else if v < 0 {
        -1
    } else {
        0
    }
}

/// Magnitude of a velocity component.
pub fn abs(v: i64) -> (m: i64)
    requires
        v > i64::MIN,
    ensures
        m == magnitude(v as int),
{
    if v < 0 {
        -v
    } else {
        v
    }
}

} // verus!
