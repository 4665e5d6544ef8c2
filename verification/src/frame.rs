//! One frame of play, as mathematics.
//!
//! The functions here say what a frame does to the state of a session, over
//! unbounded integers and sequences. The executable session in
//! [`crate::session`] is proved to compute exactly this.

use vstd::prelude::*;
use crate::units::{
    BALLS_MAX, BLOCK_HEIGHT, BLOCK_LIVES, BLOCK_PADDING, BLOCK_SCORE, BLOCK_WIDTH, GRID_COLUMNS,
    GRID_ROWS, GRID_TOP, START_LIVES,
};
use crate::geometry::RectView;
use crate::collision::resolve;
use crate::block::BlockView;
use crate::ball::{lemma_advanced_in_flight, BallView};
use crate::player::{moved, placed, screen_ok, Input};

verus! {

/// The ball `ball` after meeting the static rectangle `r`: resolved against
/// it, whether or not they touch.
pub open spec fn deflected(ball: BallView, r: RectView) -> BallView {
    BallView { rect: resolve(ball.rect, ball.vel, r).rect, vel: resolve(ball.rect, ball.vel, r).vel }
}

/// A ball and a block after they have met, and the points this gave.
pub struct Strike {
    pub ball: BallView,
    pub block: BlockView,
    pub gain: int,
}

/// One ball meets one block. If they overlap, the ball is deflected and the
/// block takes a hit; if the block is destroyed after that hit, the hit
/// gives [`BLOCK_SCORE`] points. If they do not overlap nothing changes.
pub open spec fn struck(ball: BallView, block: BlockView) -> Strike {
    if ball.rect.overlaps(block.rect) {
        Strike {
            ball: deflected(ball, block.rect),
            block: block.hit(),
            gain: if block.hit().is_destroyed() {
                BLOCK_SCORE as int
            } else {
                0
            },
        }
    } else {
        Strike { ball, block, gain: 0 }
    }
}

/// A ball and the blocks after the ball has met some of them, and the points
/// this gave.
pub struct Sweep {
    pub ball: BallView,
    pub blocks: Seq<BlockView>,
    pub gain: int,
}

/// One ball meets the first `n` blocks, one after the other.
pub open spec fn swept(ball: BallView, blocks: Seq<BlockView>, n: nat) -> Sweep
    decreases n,
{
    if n == 0 {
        Sweep { ball, blocks, gain: 0 }
    } else {
        let before = swept(ball, blocks, (n - 1) as nat);
        let s = struck(before.ball, before.blocks[n - 1]);
        Sweep {
            ball: s.ball,
            blocks: before.blocks.update(n - 1, s.block),
            gain: before.gain + s.gain,
        }
    }
}

/// The balls and the blocks after some of the balls have played, and the
/// points this gave.
pub struct Volley {
    pub balls: Seq<BallView>,
    pub blocks: Seq<BlockView>,
    pub gain: int,
}

/// The first `n` balls play, one after the other: each meets the paddle and
/// then every block.
pub open spec fn volleyed(
    balls: Seq<BallView>,
    player: RectView,
    blocks: Seq<BlockView>,
    n: nat,
) -> Volley
    decreases n,
{
    if n == 0 {
        Volley { balls, blocks, gain: 0 }
    } else {
        let before = volleyed(balls, player, blocks, (n - 1) as nat);
        let s = swept(deflected(before.balls[n - 1], player), before.blocks, before.blocks.len());
        Volley {
            balls: before.balls.update(n - 1, s.ball),
            blocks: s.blocks,
            gain: before.gain + s.gain,
        }
    }
}

/// Moves a ball by one frame.
pub open spec fn advancing(dt: int, screen_width: int) -> spec_fn(BallView) -> BallView {
    |b: BallView| b.advanced(dt, screen_width)
}

/// A ball stays in play while its top is not below the bottom of the
/// screen.
pub open spec fn on_screen(screen_height: int) -> spec_fn(BallView) -> bool {
    |b: BallView| b.rect.y <= screen_height
}

/// A block stays in play while it is not destroyed.
pub open spec fn standing() -> spec_fn(BlockView) -> bool {
    |b: BlockView| !b.is_destroyed()
}

/// The model of a [`Session`](crate::session::Session).
pub struct SessionView {
    pub score: int,
    pub lives: int,
    pub player: RectView,
    pub balls: Seq<BallView>,
    pub blocks: Seq<BlockView>,
}

/// Every block lies on the field.
pub open spec fn blocks_on_field(blocks: Seq<BlockView>) -> bool {
    forall|j: int| 0 <= j < blocks.len() ==> (#[trigger] blocks[j]).rect.on_field()
}

/// Every ball is in flight.
pub open spec fn balls_in_flight(balls: Seq<BallView>) -> bool {
    forall|i: int| 0 <= i < balls.len() ==> (#[trigger] balls[i]).in_flight()
}

/// Every ball is settled.
pub open spec fn balls_settled(balls: Seq<BallView>) -> bool {
    forall|i: int| 0 <= i < balls.len() ==> (#[trigger] balls[i]).settled()
}

/// The blocks `after` are the blocks `before`, each in its place and with
/// its rectangle, after each has taken at most `hits` hits.
pub open spec fn worn(before: Seq<BlockView>, after: Seq<BlockView>, hits: int) -> bool {
    &&& after.len() == before.len()
    &&& forall|j: int|
        0 <= j < before.len() ==> (#[trigger] after[j]).rect == before[j].rect && before[j].lives
            - hits <= after[j].lives <= before[j].lives
}

/// How many of the first `n` blocks are destroyed.
pub open spec fn destroyed_among(blocks: Seq<BlockView>, n: nat) -> nat
    decreases n,
{
    if n == 0 {
        0
    } else {
        destroyed_among(blocks, (n - 1) as nat) + if blocks[n - 1].is_destroyed() {
            1nat
        } else {
            0nat
        }
    }
}

/// The `i`-th block of the opening grid on a screen `screen_width` wide.
///
/// The grid is centred horizontally and filled row by row; neighbouring
/// blocks are [`BLOCK_PADDING`] apart.
pub open spec fn grid_block(screen_width: int, i: int) -> BlockView {
    BlockView::fresh(
        (screen_width - GRID_COLUMNS * (BLOCK_WIDTH + BLOCK_PADDING)) / 2 + (i % (
        GRID_COLUMNS as int)) * (BLOCK_WIDTH + BLOCK_PADDING),
        GRID_TOP + (i / (GRID_COLUMNS as int)) * (BLOCK_HEIGHT + BLOCK_PADDING),
    )
}

/// The opening grid on a screen `screen_width` wide.
pub open spec fn grid(screen_width: int) -> Seq<BlockView> {
    Seq::new((GRID_COLUMNS * GRID_ROWS) as nat, |i: int| grid_block(screen_width, i))
}

impl SessionView {
    /// A session at its start on a screen of the given size: no points,
    /// [`START_LIVES`] lives, the paddle in its place, the opening grid, and
    /// one ball at the middle of the screen launched with the given tilt.
    pub open spec fn started(screen_width: int, screen_height: int, tilt: int) -> SessionView {
        SessionView {
            score: 0,
            lives: START_LIVES as int,
            player: placed(screen_width, screen_height),
            balls: seq![BallView::launched(screen_width / 2, screen_height / 2, tilt)],
            blocks: grid(screen_width),
        }
    }

    /// The session after one frame of `dt` microseconds on a screen of the
    /// given size, in this order:
    ///
    /// 1. the paddle moves as the input asks;
    /// 2. every ball advances and turns at the screen edges;
    /// 3. every ball in turn meets the paddle and then every block; a hit
    ///    after which the block is destroyed scores;
    /// 4. balls whose top is below the bottom of the screen leave; if there
    ///    was exactly one ball and none is left, a life is lost;
    /// 5. destroyed blocks leave.
    pub open spec fn after_frame(
        self,
        input: Input,
        dt: int,
        screen_width: int,
        screen_height: int,
    ) -> SessionView {
        let played = self.played(input, dt, screen_width);
        let balls = played.balls.filter(on_screen(screen_height));
        SessionView {
            score: self.score + played.gain,
            lives: if self.balls.len() == 1 && balls.len() == 0 {
                self.lives - 1
            } else {
                self.lives
            },
            player: moved(self.player, input, dt, screen_width),
            balls,
            blocks: played.blocks.filter(standing()),
        }
    }

    /// The balls and blocks of the session as they are in the middle of a
    /// frame, when all have moved and met and none has left yet, and the
    /// points given: the first three steps of [`SessionView::after_frame`].
    pub open spec fn played(self, input: Input, dt: int, screen_width: int) -> Volley {
        let flown = self.balls.map_values(advancing(dt, screen_width));
        volleyed(flown, moved(self.player, input, dt, screen_width), self.blocks, flown.len())
    }

    /// What holds of a session between frames.
    ///
    /// * The paddle and the blocks lie on the field.
    /// * Every block has between one and [`BLOCK_LIVES`] hits left.
    /// * Every ball is settled, and there are at most [`BALLS_MAX`] of them.
    /// * The score is not negative, and leaves room for every ball to
    ///   destroy every block once more.
    /// * While a ball is in play the lives can still be counted down.
    pub open spec fn valid(self) -> bool {
        &&& self.player.on_field()
        &&& blocks_on_field(self.blocks)
        &&& forall|j: int|
            0 <= j < self.blocks.len() ==> 1 <= (#[trigger] self.blocks[j]).lives <= BLOCK_LIVES
        &&& balls_settled(self.balls)
        &&& self.balls.len() <= BALLS_MAX
        &&& 0 <= self.score
        &&& self.score + BLOCK_SCORE * self.balls.len() * self.blocks.len() <= u64::MAX
        &&& self.balls.len() > 0 ==> self.lives > i64::MIN
    }
}

/// The opening grid holds [`GRID_COLUMNS`] times [`GRID_ROWS`] blocks, all
/// on the field and with all their lives.
pub proof fn lemma_grid(screen_width: int)
    requires
        screen_ok(screen_width),
    ensures
        grid(screen_width).len() == GRID_COLUMNS * GRID_ROWS,
        blocks_on_field(grid(screen_width)),
        forall|j: int|
            0 <= j < grid(screen_width).len() ==> (#[trigger] grid(screen_width)[j]).lives
                == BLOCK_LIVES,
{
    assert forall|j: int| 0 <= j < grid(screen_width).len() implies (#[trigger] grid(
        screen_width,
    )[j]).rect.on_field() by {
        let column = j % (GRID_COLUMNS as int);
        let row = j / (GRID_COLUMNS as int);
        assert(0 <= column * (BLOCK_WIDTH + BLOCK_PADDING) <= 5 * (BLOCK_WIDTH + BLOCK_PADDING))
            by (nonlinear_arith)
            requires
                0 <= column <= 5,
        ;
        assert(0 <= row * (BLOCK_HEIGHT + BLOCK_PADDING) <= 5 * (BLOCK_HEIGHT + BLOCK_PADDING))
            by (nonlinear_arith)
            requires
                0 <= row <= 5,
        ;
    }
}

/// Meeting a paddle or block on the field keeps a ball in flight.
pub proof fn lemma_deflected_in_flight(ball: BallView, r: RectView)
    requires
        ball.in_flight(),
        r.on_field(),
    ensures
        deflected(ball, r).in_flight(),
{
}

/// What a strike can do: the ball stays in flight, the block keeps its
/// rectangle and loses at most one life, and points are given only for a
/// block that is destroyed afterwards.
pub proof fn lemma_struck(ball: BallView, block: BlockView)
    requires
        ball.in_flight(),
        block.rect.on_field(),
    ensures
        struck(ball, block).ball.in_flight(),
        struck(ball, block).block.rect == block.rect,
        block.lives - 1 <= struck(ball, block).block.lives <= block.lives,
        struck(ball, block).gain == 0 || struck(ball, block).gain == BLOCK_SCORE,
        struck(ball, block).gain > 0 ==> struck(ball, block).block.is_destroyed(),
{
    lemma_deflected_in_flight(ball, block.rect);
}

/// Blocks that have lost lives, or none, count at least as many destroyed
/// blocks as before; and no more than there are blocks.
pub proof fn lemma_destroyed_grows(before: Seq<BlockView>, after: Seq<BlockView>, n: nat)
    requires
        n <= before.len(),
        before.len() == after.len(),
        forall|j: int| 0 <= j < n ==> (#[trigger] after[j]).lives <= before[j].lives,
    ensures
        destroyed_among(before, n) <= destroyed_among(after, n) <= n,
    decreases n,
{
    if n > 0 {
        lemma_destroyed_grows(before, after, (n - 1) as nat);
        assert(after[n - 1].lives <= before[n - 1].lives);
    }
}

/// Blocks that agree on the first `n` places count the same number of
/// destroyed blocks there.
pub proof fn lemma_destroyed_same(a: Seq<BlockView>, b: Seq<BlockView>, n: nat)
    requires
        n <= a.len(),
        n <= b.len(),
        forall|j: int| 0 <= j < n ==> #[trigger] a[j] == b[j],
    ensures
        destroyed_among(a, n) == destroyed_among(b, n),
    decreases n,
{
    if n > 0 {
        lemma_destroyed_same(a, b, (n - 1) as nat);
        assert(a[n - 1] == b[n - 1]);
    }
}

/// The blocks that stand and the blocks that are destroyed are all the
/// blocks.
pub proof fn lemma_standing_len(blocks: Seq<BlockView>, n: nat)
    requires
        n <= blocks.len(),
    ensures
        blocks.take(n as int).filter(standing()).len() + destroyed_among(blocks, n) == n,
    decreases n,
{
    if n == 0 {
        assert(blocks.take(0).len() == 0);
        blocks.take(0).lemma_filter_len(standing());
    } else {
        lemma_standing_len(blocks, (n - 1) as nat);
        let shorter = blocks.take(n - 1);
        assert(blocks.take(n as int) =~= shorter.push(blocks[n - 1]));
        shorter.lemma_filter_len_push(standing(), blocks[n - 1]);
    }
}

/// What a sweep over the first `n` blocks can do: the ball stays in flight,
/// every block keeps its place and rectangle and loses at most one life,
/// the blocks from the `n`-th on are untouched, and the points given are at
/// most [`BLOCK_SCORE`] for each of the first `n` blocks that is destroyed
/// afterwards.
pub proof fn lemma_swept(ball: BallView, blocks: Seq<BlockView>, n: nat)
    requires
        ball.in_flight(),
        blocks_on_field(blocks),
        n <= blocks.len(),
    ensures
        swept(ball, blocks, n).ball.in_flight(),
        worn(blocks, swept(ball, blocks, n).blocks, 1),
        forall|j: int|
            n <= j < blocks.len() ==> #[trigger] swept(ball, blocks, n).blocks[j] == blocks[j],
        0 <= swept(ball, blocks, n).gain <= BLOCK_SCORE * destroyed_among(
            swept(ball, blocks, n).blocks,
            n,
        ),
    decreases n,
{
    if n > 0 {
        let before = swept(ball, blocks, (n - 1) as nat);
        let after = swept(ball, blocks, n);
        lemma_swept(ball, blocks, (n - 1) as nat);
        assert(before.blocks[n - 1] == blocks[n - 1]);
        assert(blocks[n - 1].rect.on_field());
        lemma_struck(before.ball, blocks[n - 1]);
        assert forall|j: int| 0 <= j < blocks.len() implies (#[trigger] after.blocks[j]).rect
            == blocks[j].rect && blocks[j].lives - 1 <= after.blocks[j].lives
            <= blocks[j].lives by {
            if j != n - 1 {
                assert(after.blocks[j] == before.blocks[j]);
            }
        }
        assert forall|j: int| n <= j < blocks.len() implies #[trigger] after.blocks[j]
            == blocks[j] by {
            assert(after.blocks[j] == before.blocks[j]);
        }
        lemma_destroyed_same(after.blocks, before.blocks, (n - 1) as nat);
    }
}

/// What the play of the first `n` balls can do: every ball stays in flight,
/// the balls from the `n`-th on are untouched, every block keeps its place
/// and rectangle and loses at most `n` lives, and the points given are at
/// most [`BLOCK_SCORE`] for each ball that has played and each block that is
/// destroyed afterwards.
pub proof fn lemma_volleyed(
    balls: Seq<BallView>,
    player: RectView,
    blocks: Seq<BlockView>,
    n: nat,
)
    requires
        balls_in_flight(balls),
        player.on_field(),
        blocks_on_field(blocks),
        n <= balls.len(),
    ensures
        volleyed(balls, player, blocks, n).balls.len() == balls.len(),
        balls_in_flight(volleyed(balls, player, blocks, n).balls),
        forall|i: int|
            n <= i < balls.len() ==> #[trigger] volleyed(balls, player, blocks, n).balls[i]
                == balls[i],
        worn(blocks, volleyed(balls, player, blocks, n).blocks, n as int),
        0 <= volleyed(balls, player, blocks, n).gain <= BLOCK_SCORE * n * destroyed_among(
            volleyed(balls, player, blocks, n).blocks,
            blocks.len(),
        ),
        destroyed_among(volleyed(balls, player, blocks, n).blocks, blocks.len()) <= blocks.len(),
    decreases n,
{
    let after = volleyed(balls, player, blocks, n);
    if n == 0 {
        lemma_destroyed_grows(blocks, blocks, blocks.len());
    } else {
        let before = volleyed(balls, player, blocks, (n - 1) as nat);
        lemma_volleyed(balls, player, blocks, (n - 1) as nat);
        assert(before.balls[n - 1] == balls[n - 1]);
        assert(balls[n - 1].in_flight());
        let turned = deflected(before.balls[n - 1], player);
        lemma_deflected_in_flight(before.balls[n - 1], player);
        assert(blocks_on_field(before.blocks)) by {
            assert forall|j: int| 0 <= j < before.blocks.len() implies (
            #[trigger] before.blocks[j]).rect.on_field() by {
                assert(blocks[j].rect.on_field());
            }
        }
        let s = swept(turned, before.blocks, before.blocks.len());
        lemma_swept(turned, before.blocks, before.blocks.len());
        assert(after.blocks == s.blocks);
        assert forall|i: int| 0 <= i < after.balls.len() implies (
        #[trigger] after.balls[i]).in_flight() by {
            if i != n - 1 {
                assert(after.balls[i] == before.balls[i]);
                assert(before.balls[i].in_flight());
            }
        }
        assert forall|i: int| n <= i < balls.len() implies #[trigger] after.balls[i]
            == balls[i] by {
            assert(after.balls[i] == before.balls[i]);
        }
        assert forall|j: int| 0 <= j < blocks.len() implies (#[trigger] after.blocks[j]).rect
            == blocks[j].rect && blocks[j].lives - n <= after.blocks[j].lives
            <= blocks[j].lives by {
            assert(s.blocks[j].rect == before.blocks[j].rect);
            assert(before.blocks[j].rect == blocks[j].rect);
        }
        lemma_destroyed_grows(before.blocks, s.blocks, blocks.len());
        let d_before = destroyed_among(before.blocks, blocks.len());
        let d_after = destroyed_among(s.blocks, blocks.len());
        assert(BLOCK_SCORE * (n - 1) * d_before + BLOCK_SCORE * d_after <= BLOCK_SCORE * n
            * d_after) by (nonlinear_arith)
            requires
                0 <= d_before <= d_after,
                n >= 1,
        ;
    }
}

/// A frame keeps a valid session valid, whatever the input, for every time
/// step and every screen no larger than the field.
pub proof fn lemma_after_frame_valid(
    s: SessionView,
    input: Input,
    dt: int,
    screen_width: int,
    screen_height: int,
)
    requires
        s.valid(),
        0 <= dt <= u32::MAX,
        screen_ok(screen_width),
        screen_ok(screen_height),
    ensures
        s.after_frame(input, dt, screen_width, screen_height).valid(),
{
    let after = s.after_frame(input, dt, screen_width, screen_height);
    let player = moved(s.player, input, dt, screen_width);
    let flown = s.balls.map_values(advancing(dt, screen_width));
    assert(balls_in_flight(flown)) by {
        assert forall|i: int| 0 <= i < flown.len() implies (#[trigger] flown[i]).in_flight() by {
            assert(s.balls[i].settled());
            lemma_advanced_in_flight(s.balls[i], dt, screen_width);
        }
    }
    let played = volleyed(flown, player, s.blocks, flown.len());
    lemma_volleyed(flown, player, s.blocks, flown.len());
    played.balls.lemma_filter_len(on_screen(screen_height));
    assert forall|i: int| 0 <= i < after.balls.len() implies (
    #[trigger] after.balls[i]).settled() by {
        let b = after.balls[i];
        played.balls.lemma_filter_pred(on_screen(screen_height), i);
        assert(on_screen(screen_height)(b));
        played.balls.lemma_filter_contains_rev(on_screen(screen_height), b);
        let k = choose|k: int| 0 <= k < played.balls.len() && played.balls[k] == b;
        assert(played.balls[k].in_flight());
    }
    assert forall|j: int| 0 <= j < after.blocks.len() implies (
    #[trigger] after.blocks[j]).rect.on_field() && 1 <= after.blocks[j].lives
        <= BLOCK_LIVES by {
        let b = after.blocks[j];
        played.blocks.lemma_filter_pred(standing(), j);
        assert(standing()(b));
        played.blocks.lemma_filter_contains_rev(standing(), b);
        let k = choose|k: int| 0 <= k < played.blocks.len() && played.blocks[k] == b;
        assert(played.blocks[k].rect == s.blocks[k].rect);
        assert(s.blocks[k].rect.on_field());
    }
    let total = s.blocks.len();
    let down = destroyed_among(played.blocks, total);
    lemma_standing_len(played.blocks, total);
    assert(played.blocks.take(total as int) =~= played.blocks);
    assert(after.blocks.len() == total - down);
    assert(after.score + BLOCK_SCORE * after.balls.len() * after.blocks.len() <= s.score
        + BLOCK_SCORE * s.balls.len() * s.blocks.len()) by (nonlinear_arith)
        requires
            after.score == s.score + played.gain,
            played.gain <= BLOCK_SCORE * s.balls.len() * down,
            after.blocks.len() == s.blocks.len() - down,
            0 <= after.balls.len() <= s.balls.len(),
            0 <= down <= s.blocks.len(),
    ;
}

/// A meeting gives points exactly when it is a hit on a block with at most
/// one life left, and then it gives [`BLOCK_SCORE`]. The block takes the hit
/// exactly when the two overlap.
pub proof fn lemma_strike_scores(ball: BallView, block: BlockView)
    ensures
        struck(ball, block).gain == if ball.rect.overlaps(block.rect) && block.lives <= 1 {
            BLOCK_SCORE as int
        } else {
            0
        },
        struck(ball, block).block == if ball.rect.overlaps(block.rect) {
            block.hit()
        } else {
            block
        },
{
}

/// What a hit does to a block and to the score does not depend on the ball
/// that made it.
pub proof fn lemma_score_whichever_ball(first: BallView, second: BallView, block: BlockView)
    requires
        first.rect.overlaps(block.rect),
        second.rect.overlaps(block.rect),
    ensures
        struck(first, block).gain == struck(second, block).gain,
        struck(first, block).block == struck(second, block).block,
{
}

/// The play of the balls changes neither the number of balls nor the number
/// of blocks.
pub proof fn lemma_volleyed_len(
    balls: Seq<BallView>,
    player: RectView,
    blocks: Seq<BlockView>,
    n: nat,
)
    requires
        n <= balls.len(),
    ensures
        volleyed(balls, player, blocks, n).balls.len() == balls.len(),
        volleyed(balls, player, blocks, n).blocks.len() == blocks.len(),
    decreases n,
{
    if n > 0 {
        let before = volleyed(balls, player, blocks, (n - 1) as nat);
        lemma_volleyed_len(balls, player, blocks, (n - 1) as nat);
        lemma_swept_len(
            deflected(before.balls[n - 1], player),
            before.blocks,
            before.blocks.len(),
        );
    }
}

/// A sweep does not change the number of blocks.
pub proof fn lemma_swept_len(ball: BallView, blocks: Seq<BlockView>, n: nat)
    requires
        n <= blocks.len(),
    ensures
        swept(ball, blocks, n).blocks.len() == blocks.len(),
    decreases n,
{
    if n > 0 {
        lemma_swept_len(ball, blocks, (n - 1) as nat);
    }
}

/// The score of a frame: the points of the play are added, and nothing
/// else.
pub proof fn lemma_frame_score(
    s: SessionView,
    input: Input,
    dt: int,
    screen_width: int,
    screen_height: int,
)
    ensures
        s.after_frame(input, dt, screen_width, screen_height).score == s.score + s.played(
            input,
            dt,
            screen_width,
        ).gain,
{
}

/// With one ball and one block, a frame scores exactly what the one meeting
/// of the two gives: [`BLOCK_SCORE`] if the ball, once it has advanced and
/// met the paddle, hits the block and the block had at most one life left,
/// else nothing.
pub proof fn lemma_frame_score_one_on_one(
    s: SessionView,
    input: Input,
    dt: int,
    screen_width: int,
    screen_height: int,
)
    requires
        s.balls.len() == 1,
        s.blocks.len() == 1,
    ensures
        s.after_frame(input, dt, screen_width, screen_height).score == s.score + struck(
            deflected(
                s.balls[0].advanced(dt, screen_width),
                moved(s.player, input, dt, screen_width),
            ),
            s.blocks[0],
        ).gain,
{
    let player = moved(s.player, input, dt, screen_width);
    let flown = s.balls.map_values(advancing(dt, screen_width));
    let turned = deflected(flown[0], player);
    assert(volleyed(flown, player, s.blocks, 0).balls == flown);
    assert(volleyed(flown, player, s.blocks, 1).gain == swept(turned, s.blocks, 1).gain) by {
        reveal_with_fuel(volleyed, 2);
    }
    assert(swept(turned, s.blocks, 1).gain == struck(turned, s.blocks[0]).gain) by {
        reveal_with_fuel(swept, 2);
    }
}

/// The lives of a frame: a life is lost exactly when the session had one
/// ball and that ball, as it ends the play, has its top below the bottom of
/// the screen. No other frame changes the lives.
pub proof fn lemma_frame_lives(
    s: SessionView,
    input: Input,
    dt: int,
    screen_width: int,
    screen_height: int,
)
    ensures
        s.after_frame(input, dt, screen_width, screen_height).lives == if s.balls.len() == 1
            && s.played(input, dt, screen_width).balls[0].rect.y > screen_height {
            s.lives - 1
        } else {
            s.lives
        },
        s.after_frame(input, dt, screen_width, screen_height).balls.len() <= s.balls.len(),
{
    let played = s.played(input, dt, screen_width);
    let flown = s.balls.map_values(advancing(dt, screen_width));
    lemma_volleyed_len(flown, moved(s.player, input, dt, screen_width), s.blocks, flown.len());
    played.balls.lemma_filter_len(on_screen(screen_height));
    if s.balls.len() == 1 {
        lemma_filter_one(played.balls, screen_height);
    }
}

/// Of a single ball, the one whose top is not below the bottom of the screen
/// stays and the other leaves.
pub proof fn lemma_filter_one(balls: Seq<BallView>, screen_height: int)
    requires
        balls.len() == 1,
    ensures
        balls.filter(on_screen(screen_height)) == if balls[0].rect.y <= screen_height {
            balls
        } else {
            Seq::<BallView>::empty()
        },
{
    let none = Seq::<BallView>::empty();
    none.lemma_filter_len(on_screen(screen_height));
    assert(none.filter(on_screen(screen_height)) =~= none);
    none.lemma_filter_push(balls[0], on_screen(screen_height));
    assert(balls =~= none.push(balls[0]));
}

/// A session with two balls or more, or with none, loses no life in a
/// frame, however many balls leave.
pub proof fn lemma_lives_kept_with_other_balls(
    s: SessionView,
    input: Input,
    dt: int,
    screen_width: int,
    screen_height: int,
)
    requires
        s.balls.len() != 1,
    ensures
        s.after_frame(input, dt, screen_width, screen_height).lives == s.lives,
{
}

/// A session with one ball loses exactly one life in the frame in which
/// that ball leaves, and is then without balls; in a frame in which the ball
/// stays, the lives stay too.
pub proof fn lemma_last_ball(
    s: SessionView,
    input: Input,
    dt: int,
    screen_width: int,
    screen_height: int,
)
    requires
        s.balls.len() == 1,
    ensures
        s.played(input, dt, screen_width).balls.len() == 1,
        s.played(input, dt, screen_width).balls[0].rect.y > screen_height ==> s.after_frame(
            input,
            dt,
            screen_width,
            screen_height,
        ).lives == s.lives - 1 && s.after_frame(
            input,
            dt,
            screen_width,
            screen_height,
        ).balls.len() == 0,
        s.played(input, dt, screen_width).balls[0].rect.y <= screen_height ==> s.after_frame(
            input,
            dt,
            screen_width,
            screen_height,
        ).lives == s.lives && s.after_frame(input, dt, screen_width, screen_height).balls
            == s.played(input, dt, screen_width).balls,
{
    let played = s.played(input, dt, screen_width);
    let flown = s.balls.map_values(advancing(dt, screen_width));
    lemma_volleyed_len(flown, moved(s.player, input, dt, screen_width), s.blocks, flown.len());
    lemma_filter_one(played.balls, screen_height);
}

} // verus!
