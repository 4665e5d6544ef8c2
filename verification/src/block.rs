//! Destructible blocks.

use vstd::prelude::*;
use crate::units::{BLOCK_HEIGHT, BLOCK_LIVES, BLOCK_WIDTH};
use crate::geometry::{Rect, RectView, Vector};

verus! {

/// How worn a block looks; the host picks a colour for each tier.
#[derive(Clone, Copy, Debug, PartialEq, Eq, Structural)]
pub enum Tier {
    /// Three hits left.
    Intact,
    /// Two hits left.
    Damaged,
    /// Any other number of hits left.
    Critical,
}

/// The model of a [`Block`].
pub struct BlockView {
    pub rect: RectView,
    pub lives: int,
}

impl BlockView {
    /// A block with no hits left is destroyed.
    pub open spec fn is_destroyed(self) -> bool {
        self.lives <= 0
    }

    /// The block after one more hit.
    pub open spec fn hit(self) -> BlockView {
        BlockView { rect: self.rect, lives: self.lives - 1 }
    }

    /// The block after `n` hits.
    pub open spec fn hit_times(self, n: nat) -> BlockView
        decreases n,
    {
        if n == 0 {
            self
        } else {
            self.hit_times((n - 1) as nat).hit()
        }
    }

    /// The tier is a function of the hits left alone.
    pub open spec fn visual_tier(self) -> Tier {
        if self.lives == 3 {
            Tier::Intact
        } else if self.lives == 2 {
            Tier::Damaged
        } else {
            Tier::Critical
        }
    }

    /// A new block at `(x, y)`.
    pub open spec fn fresh(x: int, y: int) -> BlockView {
        BlockView {
            rect: RectView { x, y, w: BLOCK_WIDTH as int, h: BLOCK_HEIGHT as int },
            lives: BLOCK_LIVES as int,
        }
    }
}

/// A static rectangle that takes a fixed number of hits.
#[derive(Clone, Copy, Debug, PartialEq, Eq, Structural)]
pub struct Block {
    pub rect: Rect,
    /// Hits left; the block is destroyed once this is zero or less.
    pub lives: i32,
}

impl View for Block {
    type V = BlockView;

    open spec fn view(&self) -> BlockView {
        BlockView { rect: self.rect@, lives: self.lives as int }
    }
}

impl Block {
    /// A block of the standard size with its top-left corner at `pos` and
    /// all its hits left.
    pub fn new(pos: Vector) -> (b: Block)
        ensures
            b@ == BlockView::fresh(pos.x as int, pos.y as int),
            !b@.is_destroyed(),
    {
        Block { rect: Rect::new(pos.x, pos.y, BLOCK_WIDTH, BLOCK_HEIGHT), lives: BLOCK_LIVES }
    }

    /// Takes one hit off the block and says whether that destroyed it.
    pub fn apply_hit(&mut self) -> (destroyed: bool)
        requires
            old(self).lives > i32::MIN,
        ensures
            final(self)@ == old(self)@.hit(),
            final(self).lives == old(self).lives - 1,
            final(self).rect == old(self).rect,
            destroyed == final(self)@.is_destroyed(),
    {
        self.lives = self.lives - 1;
        self.lives <= 0
    }

    /// Whether the block has no hits left.
    pub fn is_destroyed(&self) -> (d: bool)
        ensures
            d == self@.is_destroyed(),
            d == (self.lives <= 0),
    {
        self.lives <= 0
    }

    /// The tier to draw the block in.
    pub fn visual_tier(&self) -> (t: Tier)
        ensures
            t == self@.visual_tier(),
    {
        if self.lives == 3 {
            Tier::Intact
        } else if self.lives == 2 {
            Tier::Damaged
        } else {
            Tier::Critical
        }
    }
}

/// Hits only ever take lives away, one at a time, and leave the rectangle
/// alone.
pub proof fn lemma_hit_times(b: BlockView, n: nat)
    ensures
        b.hit_times(n).lives == b.lives - n,
        b.hit_times(n).rect == b.rect,
    decreases n,
{
    if n > 0 {
        lemma_hit_times(b, (n - 1) as nat);
    }
}

/// A new block survives its first two hits and is destroyed by the third:
/// after `n` hits it is destroyed exactly when `n` is at least three.
pub proof fn lemma_fresh_block_takes_three_hits(x: int, y: int, n: nat)
    ensures
        BlockView::fresh(x, y).hit_times(n).is_destroyed() <==> n >= 3,
{
    lemma_hit_times(BlockView::fresh(x, y), n);
}

} // verus!
