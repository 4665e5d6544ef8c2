//! The ball.

use vstd::prelude::*;
use crate::units::{
    lemma_travel_bound, travel, BALL_SIZE, BALL_SPEED, BALL_TRAVEL_MAX, FIELD, ONE, REACH,
};
use crate::geometry::{Rect, RectView, Vector, VectorView};
use crate::random::random_between;

verus! {

/// The velocity a ball is launched with: the direction `(tilt, ONE)`,
/// rescaled to length [`ONE`]. It leads towards growing `y`, down the
/// screen.
pub open spec fn launch_velocity(tilt: int) -> VectorView {
    VectorView { x: tilt, y: ONE as int }.normalized()
}

/// The model of a [`Ball`].
pub struct BallView {
    pub rect: RectView,
    pub vel: VectorView,
}

impl BallView {
    /// A ball of the standard size at `(x, y)`, launched with the given tilt.
    pub open spec fn launched(x: int, y: int, tilt: int) -> BallView {
        BallView {
            rect: RectView { x, y, w: BALL_SIZE as int, h: BALL_SIZE as int },
            vel: launch_velocity(tilt),
        }
    }

    /// The ball after one frame of `dt` microseconds on a screen
    /// `screen_width` wide.
    ///
    /// The position moves by the velocity at ball speed. Then the screen
    /// edges turn the velocity: past the right edge the horizontal component
    /// becomes minus [`ONE`]; left of the left edge it becomes [`ONE`], which
    /// prevails if both apply; above the top edge the vertical component
    /// becomes [`ONE`]. The bottom edge turns nothing.
    pub open spec fn advanced(self, dt: int, screen_width: int) -> BallView {
        let x = self.rect.x + travel(self.vel.x, dt, BALL_SPEED as int);
        let y = self.rect.y + travel(self.vel.y, dt, BALL_SPEED as int);
        BallView {
            rect: RectView { x, y, w: self.rect.w, h: self.rect.h },
            vel: VectorView {
                x: if x < 0 {
                    ONE as int
                } else if x > screen_width - self.rect.w {
                    -ONE
                } else {
                    self.vel.x
                },
                y: if y < 0 {
                    ONE as int
                } else {
                    self.vel.y
                },
            },
        }
    }

    /// The rectangle within the range of the geometry and the velocity no
    /// larger than [`ONE`] in either component.
    pub open spec fn in_range(self) -> bool {
        self.rect.bounded() && self.vel.unitish()
    }

    /// What holds of a ball of a session in the middle of a frame.
    ///
    /// The ball is no larger than [`FIELD`] and no faster than [`ONE`]. It
    /// is at most one frame's travel beyond [`REACH`], and where it is
    /// beyond [`REACH`] to the left, to the right or above, it is not moving
    /// further out.
    pub open spec fn in_flight(self) -> bool {
        &&& self.vel.unitish()
        &&& 0 <= self.rect.w <= FIELD
        &&& 0 <= self.rect.h <= FIELD
        &&& -(REACH + BALL_TRAVEL_MAX) <= self.rect.x <= REACH + BALL_TRAVEL_MAX
        &&& -(REACH + BALL_TRAVEL_MAX) <= self.rect.y <= REACH + BALL_TRAVEL_MAX
        &&& self.vel.x > 0 ==> self.rect.x <= REACH
        &&& self.vel.x < 0 ==> self.rect.x >= -REACH
        &&& self.vel.y < 0 ==> self.rect.y >= -REACH
    }

    /// What holds of a ball of a session between frames: it is in flight
    /// and not below the largest screen.
    pub open spec fn settled(self) -> bool {
        self.in_flight() && self.rect.y <= FIELD
    }
}

/// A settled ball is in flight after it has advanced by one frame on a
/// screen no wider than [`FIELD`].
pub proof fn lemma_advanced_in_flight(b: BallView, dt: int, screen_width: int)
    requires
        b.settled(),
        0 <= dt <= u32::MAX,
        0 <= screen_width <= FIELD,
    ensures
        b.advanced(dt, screen_width).in_flight(),
{
    lemma_travel_bound(b.vel.x, dt, BALL_SPEED as int);
    lemma_travel_bound(b.vel.y, dt, BALL_SPEED as int);
    assert(ONE * dt * BALL_SPEED <= BALL_TRAVEL_MAX) by (nonlinear_arith)
        requires
            0 <= dt <= u32::MAX,
    ;
}

/// A rectangle that moves with a velocity.
#[derive(Clone, Copy, Debug, PartialEq, Eq, Structural)]
pub struct Ball {
    pub rect: Rect,
    /// Velocity in thousandths; the speed comes from
    /// [`BALL_SPEED`](crate::units::BALL_SPEED).
    pub vel: Vector,
}

impl View for Ball {
    type V = BallView;

    open spec fn view(&self) -> BallView {
        BallView { rect: self.rect@, vel: self.vel@ }
    }
}

impl Ball {
    /// See [`BallView::in_range`].
    pub open spec fn in_range(&self) -> bool {
        self@.in_range()
    }

    /// Whether the ball satisfies [`BallView::settled`].
    pub fn is_settled(&self) -> (b: bool)
        ensures
            b == self@.settled(),
    {
        -ONE <= self.vel.x && self.vel.x <= ONE && -ONE <= self.vel.y && self.vel.y <= ONE && 0
            <= self.rect.w && self.rect.w <= FIELD && 0 <= self.rect.h && self.rect.h <= FIELD
            && -(REACH + BALL_TRAVEL_MAX) <= self.rect.x && self.rect.x <= REACH
            + BALL_TRAVEL_MAX && -(REACH + BALL_TRAVEL_MAX) <= self.rect.y && self.rect.y
            <= FIELD && (self.vel.x <= 0 || self.rect.x <= REACH) && (self.vel.x >= 0
            || self.rect.x >= -REACH) && (self.vel.y >= 0 || self.rect.y >= -REACH)
    }

    /// Whether the ball is in the range that [`Ball::update`] accepts.
    pub fn is_in_range(&self) -> (b: bool)
        ensures
            b == self.in_range(),
    {
        self.rect.is_bounded() && -ONE <= self.vel.x && self.vel.x <= ONE && -ONE <= self.vel.y
            && self.vel.y <= ONE
    }

    /// A ball of the standard size with its top-left corner at `pos`,
    /// launched down the screen with a tilt drawn at random between minus
    /// [`ONE`] and [`ONE`].
    pub fn new(pos: Vector) -> (b: Ball)
        ensures
            exists|tilt: int|
                -ONE <= tilt <= ONE && b@ == #[trigger] BallView::launched(
                    pos.x as int,
                    pos.y as int,
                    tilt,
                ),
            b.vel@.unitish(),
    {
        let tilt: i32 = random_between(-(ONE as i32), ONE as i32);
        Ball::launched(pos, tilt as i64)
    }

    /// A ball of the standard size with its top-left corner at `pos`,
    /// launched down the screen with the given tilt: towards
    /// `(tilt, ONE)`.
    pub fn launched(pos: Vector, tilt: i64) -> (b: Ball)
        requires
            -ONE <= tilt <= ONE,
        ensures
            b@ == BallView::launched(pos.x as int, pos.y as int, tilt as int),
            b.vel@.unitish(),
    {
        Ball {
            rect: Rect::new(pos.x, pos.y, BALL_SIZE, BALL_SIZE),
            vel: Vector::new(tilt, ONE).normalize(),
        }
    }

    /// Moves the ball for one frame of `dt` microseconds and turns it at the
    /// left, right and top edges of a screen `screen_width` wide.
    ///
    /// The position always advances by exactly the velocity times the time
    /// step times the ball speed; the edges change the velocity only.
    pub fn update(&mut self, dt: u32, screen_width: i64)
        requires
            old(self).in_range(),
        ensures
            final(self)@ == old(self)@.advanced(dt as int, screen_width as int),
            final(self).rect.x == old(self).rect.x + travel(
                old(self).vel.x as int,
                dt as int,
                BALL_SPEED as int,
            ),
            final(self).rect.y == old(self).rect.y + travel(
                old(self).vel.y as int,
                dt as int,
                BALL_SPEED as int,
            ),
            final(self).rect.w == old(self).rect.w,
            final(self).rect.h == old(self).rect.h,
            final(self).rect.x < 0 ==> final(self).vel.x == ONE,
            final(self).rect.x >= 0 && final(self).rect.x + final(self).rect.w > screen_width
                ==> final(self).vel.x == -ONE,
            0 <= final(self).rect.x && final(self).rect.x + final(self).rect.w <= screen_width
                ==> final(self).vel.x == old(self).vel.x,
            final(self).rect.y < 0 ==> final(self).vel.y == ONE,
            final(self).rect.y >= 0 ==> final(self).vel.y == old(self).vel.y,
            final(self).vel@.unitish(),
    {
        proof {
            lemma_travel_bound(self.vel.x as int, dt as int, BALL_SPEED as int);
            lemma_travel_bound(self.vel.y as int, dt as int, BALL_SPEED as int);
        }
        self.rect.x = self.rect.x + self.vel.x * (dt as i64) * BALL_SPEED;
        self.rect.y = self.rect.y + self.vel.y * (dt as i64) * BALL_SPEED;
        if self.rect.x + self.rect.w > screen_width {
            self.vel.x = -ONE;
        }
        if self.rect.x < 0 {
            self.vel.x = ONE;
        }
        if self.rect.y < 0 {
            self.vel.y = ONE;
        }
    }
}

} // verus!
