//! The paddle.

use vstd::prelude::*;
use crate::units::{
    lemma_travel_bound, travel, FIELD, ONE, PLAYER_HEIGHT, PLAYER_LIFT, PLAYER_SPEED,
    PLAYER_WIDTH,
};
use crate::geometry::{Rect, RectView};

verus! {

/// What the player asks of the paddle in one frame.
#[derive(Clone, Copy, Debug, PartialEq, Eq, Structural)]
pub struct Input {
    /// Move left.
    pub left: bool,
    /// Move right.
    pub right: bool,
}

impl Input {
    /// The horizontal velocity asked for, in thousandths: [`ONE`] to the
    /// right, minus [`ONE`] to the left, zero for neither or both.
    pub open spec fn direction(self) -> int {
        (if self.right {
            ONE as int
        } else {
            0
        }) - (if self.left {
            ONE as int
        } else {
            0
        })
    }
}

/// A width or height that a screen can have: between zero and [`FIELD`].
pub open spec fn screen_ok(extent: int) -> bool {
    0 <= extent <= FIELD
}

/// The paddle `r` after one frame of `dt` microseconds on a screen
/// `screen_width` wide: moved by the input at paddle speed, then brought
/// back to the left edge if it has passed it, else to the right edge if it
/// has passed that one.
pub open spec fn moved(r: RectView, input: Input, dt: int, screen_width: int) -> RectView {
    let x = r.x + travel(input.direction(), dt, PLAYER_SPEED as int);
    RectView {
        x: if x < 0 {
            0
        } else if x > screen_width - r.w {
            screen_width - r.w
        } else {
            x
        },
        y: r.y,
        w: r.w,
        h: r.h,
    }
}

/// The paddle as first placed: centred horizontally, its top
/// [`PLAYER_LIFT`] above the bottom of the screen.
pub open spec fn placed(screen_width: int, screen_height: int) -> RectView {
    RectView {
        x: screen_width / 2 - PLAYER_WIDTH / 2,
        y: screen_height - PLAYER_LIFT,
        w: PLAYER_WIDTH as int,
        h: PLAYER_HEIGHT as int,
    }
}

/// The paddle: a rectangle that moves horizontally along the bottom of the
/// screen and never leaves it.
#[derive(Clone, Copy, Debug, PartialEq, Eq, Structural)]
pub struct Player {
    pub rect: Rect,
}

impl View for Player {
    type V = RectView;

    open spec fn view(&self) -> RectView {
        self.rect@
    }
}

impl Player {
    /// A paddle of the standard size on a screen of the given dimensions.
    pub fn new(screen_width: i64, screen_height: i64) -> (p: Player)
        requires
            screen_ok(screen_width as int),
            screen_ok(screen_height as int),
        ensures
            p@ == placed(screen_width as int, screen_height as int),
            p.rect.bounded(),
            p@.on_field(),
    {
        Player {
            rect: Rect::new(
                screen_width / 2 - PLAYER_WIDTH / 2,
                screen_height - PLAYER_LIFT,
                PLAYER_WIDTH,
                PLAYER_HEIGHT,
            ),
        }
    }

    /// Moves the paddle for one frame of `dt` microseconds and keeps it on a
    /// screen `screen_width` wide.
    ///
    /// On a screen at least as wide as the paddle, the paddle ends within
    /// `[0, screen_width - width]` whatever the input and the time step.
    pub fn update(&mut self, input: Input, dt: u32, screen_width: i64)
        requires
            old(self).rect.bounded(),
            screen_ok(screen_width as int),
        ensures
            final(self)@ == moved(old(self)@, input, dt as int, screen_width as int),
            final(self).rect.bounded(),
            old(self)@.on_field() ==> final(self)@.on_field(),
            screen_width >= old(self).rect.w ==> 0 <= final(self).rect.x <= screen_width
                - final(self).rect.w,
    {
        let mut x_move: i64 = 0;
        if input.left {
            x_move = x_move - ONE;
        }
        if input.right {
            x_move = x_move + ONE;
        }
        proof {
            lemma_travel_bound(x_move as int, dt as int, PLAYER_SPEED as int);
        }
        let step: i64 = x_move * (dt as i64) * PLAYER_SPEED;
        self.rect.x = self.rect.x + step;
        if self.rect.x < 0 {
            self.rect.x = 0;
        } else if self.rect.x > screen_width - self.rect.w {
            self.rect.x = screen_width - self.rect.w;
        }
    }
}

/// On a screen at least as wide as the paddle, the paddle lies within the
/// screen after every frame, wherever it was before and whatever the input
/// and the time step.
pub proof fn lemma_moved_stays_on_screen(r: RectView, input: Input, dt: int, screen_width: int)
    requires
        r.w <= screen_width,
    ensures
        0 <= moved(r, input, dt, screen_width).x <= screen_width - moved(
            r,
            input,
            dt,
            screen_width,
        ).w,
        moved(r, input, dt, screen_width).y == r.y,
        moved(r, input, dt, screen_width).w == r.w,
        moved(r, input, dt, screen_width).h == r.h,
{
}

} // verus!
