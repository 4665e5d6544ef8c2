//! The session: score, lives, paddle, balls and blocks, and the frame that
//! drives them.

use vstd::prelude::*;
use crate::units::{
    BALLS_MAX, BLOCK_HEIGHT, BLOCK_LIVES, BLOCK_PADDING, BLOCK_SCORE, BLOCK_WIDTH, GRID_COLUMNS,
    GRID_ROWS, GRID_TOP, ONE, START_LIVES,
};
use crate::geometry::Vector;
use crate::collision::resolve_collision;
use crate::block::{Block, BlockView};
use crate::ball::{lemma_advanced_in_flight, Ball, BallView};
use crate::player::{screen_ok, Input, Player};
use crate::frame::{
    advancing, balls_in_flight, blocks_on_field, destroyed_among, grid, grid_block,
    lemma_after_frame_valid, lemma_destroyed_grows, lemma_grid, lemma_swept, lemma_volleyed,
    on_screen, standing, struck, swept, volleyed, SessionView, Strike, Sweep, Volley,
};
use crate::random::random_between;

verus! {

/// The models of the balls, in order.
pub open spec fn ball_views(balls: Seq<Ball>) -> Seq<BallView> {
    Seq::new(balls.len(), |i: int| balls[i]@)
}

/// The models of the blocks, in order.
pub open spec fn block_views(blocks: Seq<Block>) -> Seq<BlockView> {
    Seq::new(blocks.len(), |j: int| blocks[j]@)
}

/// One ball meets one block: if they overlap the ball is deflected and the
/// block takes a hit. Returns the points given: [`BLOCK_SCORE`] if the block
/// is destroyed after the hit, else none.
pub fn strike(ball: &mut Ball, block: &mut Block) -> (gain: u64)
    requires
        old(ball).rect.bounded(),
        old(ball).vel.x > i64::MIN,
        old(ball).vel.y > i64::MIN,
        old(block).rect.bounded(),
        old(block).lives > i32::MIN,
    ensures
        (Strike { ball: final(ball)@, block: final(block)@, gain: gain as int }) == struck(
            old(ball)@,
            old(block)@,
        ),
{
    if resolve_collision(&mut ball.rect, &mut ball.vel, &block.rect) {
        if block.apply_hit() {
            return BLOCK_SCORE;
        }
    }
    0
}

/// One ball meets every block in turn. Returns the points given.
pub fn sweep(ball: &mut Ball, blocks: &mut Vec<Block>) -> (gain: u64)
    requires
        old(ball)@.in_flight(),
        blocks_on_field(block_views(old(blocks)@)),
        forall|j: int| 0 <= j < old(blocks).len() ==> (#[trigger] old(blocks)[j]).lives > i32::MIN,
        BLOCK_SCORE * old(blocks).len() <= u64::MAX,
    ensures
        (Sweep { ball: final(ball)@, blocks: block_views(final(blocks)@), gain: gain as int })
            == swept(old(ball)@, block_views(old(blocks)@), old(blocks).len() as nat),
        final(blocks).len() == old(blocks).len(),
{
    let ghost ball0 = ball@;
    let ghost blocks0 = blocks@;
    let ghost views0 = block_views(blocks@);
    let n: usize = blocks.len();
    let mut gain: u64 = 0;
    let mut j: usize = 0;
    while j < n
        invariant
            j <= n,
            n == blocks.len(),
            n == blocks0.len(),
            views0 == block_views(blocks0),
            ball0.in_flight(),
            blocks_on_field(views0),
            forall|k: int| 0 <= k < n ==> (#[trigger] blocks0[k]).lives > i32::MIN,
            BLOCK_SCORE * n <= u64::MAX,
            forall|k: int| j <= k < n ==> #[trigger] blocks[k] == blocks0[k],
            (Sweep { ball: ball@, blocks: block_views(blocks@), gain: gain as int }) == swept(
                ball0,
                views0,
                j as nat,
            ),
        decreases n - j,
    {
        let ghost before = swept(ball0, views0, j as nat);
        proof {
            lemma_swept(ball0, views0, j as nat);
            lemma_destroyed_grows(before.blocks, before.blocks, j as nat);
            assert(blocks[j as int] == blocks0[j as int]);
            assert(views0[j as int].rect.on_field());
            assert(before.blocks[j as int] == blocks[j as int]@);
        }
        let mut block: Block = blocks[j];
        let g: u64 = strike(ball, &mut block);
        blocks.set(j, block);
        gain = gain + g;
        proof {
            assert(block_views(blocks@) =~= before.blocks.update(j as int, block@));
        }
        j = j + 1;
    }
    gain
}

/// Every ball in turn meets the paddle and then every block. Returns the
/// points given.
pub fn volley(balls: &mut Vec<Ball>, player: &Player, blocks: &mut Vec<Block>) -> (gain: u64)
    requires
        balls_in_flight(ball_views(old(balls)@)),
        player@.on_field(),
        blocks_on_field(block_views(old(blocks)@)),
        forall|j: int|
            0 <= j < old(blocks).len() ==> (#[trigger] old(blocks)[j]).lives > i32::MIN + old(
                balls,
            ).len(),
        BLOCK_SCORE * old(balls).len() * old(blocks).len() <= u64::MAX,
    ensures
        (Volley {
            balls: ball_views(final(balls)@),
            blocks: block_views(final(blocks)@),
            gain: gain as int,
        }) == volleyed(
            ball_views(old(balls)@),
            player@,
            block_views(old(blocks)@),
            old(balls).len() as nat,
        ),
        final(balls).len() == old(balls).len(),
        final(blocks).len() == old(blocks).len(),
{
    let ghost balls0 = ball_views(balls@);
    let ghost blocks0 = block_views(blocks@);
    let n: usize = balls.len();
    let total: usize = blocks.len();
    let mut gain: u64 = 0;
    let mut i: usize = 0;
    while i < n
        invariant
            i <= n,
            n == balls.len(),
            n == balls0.len(),
            total == blocks.len(),
            total == blocks0.len(),
            balls_in_flight(balls0),
            player@.on_field(),
            blocks_on_field(blocks0),
            forall|j: int| 0 <= j < total ==> (#[trigger] blocks0[j]).lives > i32::MIN + n,
            BLOCK_SCORE * n * total <= u64::MAX,
            (Volley { balls: ball_views(balls@), blocks: block_views(blocks@), gain: gain as int })
                == volleyed(balls0, player@, blocks0, i as nat),
        decreases n - i,
    {
        let ghost before = volleyed(balls0, player@, blocks0, i as nat);
        proof {
            lemma_volleyed(balls0, player@, blocks0, i as nat);
            assert(before.balls[i as int] == balls0[i as int]);
            assert(balls0[i as int].in_flight());
            assert forall|j: int| 0 <= j < total implies (#[trigger] blocks[j]).lives
                > i32::MIN by {
                assert(before.blocks[j] == blocks[j]@);
                assert(blocks0[j].lives > i32::MIN + n);
            }
            assert(blocks_on_field(before.blocks)) by {
                assert forall|j: int| 0 <= j < before.blocks.len() implies (
                #[trigger] before.blocks[j]).rect.on_field() by {
                    assert(blocks0[j].rect.on_field());
                }
            }
            assert(BLOCK_SCORE * total <= BLOCK_SCORE * n * total && before.gain + BLOCK_SCORE
                * total <= BLOCK_SCORE * n * total) by (nonlinear_arith)
                requires
                    0 <= i < n,
                    0 <= total,
                    0 <= destroyed_among(before.blocks, total as nat) <= total,
                    before.gain <= BLOCK_SCORE * i * destroyed_among(
                        before.blocks,
                        total as nat,
                    ),
            ;
        }
        let mut ball: Ball = balls[i];
        resolve_collision(&mut ball.rect, &mut ball.vel, &player.rect);
        let ghost turned = ball@;
        let g: u64 = sweep(&mut ball, blocks);
        balls.set(i, ball);
        proof {
            lemma_swept(turned, before.blocks, total as nat);
            lemma_destroyed_grows(block_views(blocks@), block_views(blocks@), total as nat);
            assert(ball_views(balls@) =~= before.balls.update(i as int, ball@));
        }
        gain = gain + g;
        i = i + 1;
    }
    gain
}

/// Every ball advances by one frame of `dt` microseconds and turns at the
/// edges of a screen `screen_width` wide.
pub fn advance_balls(balls: &mut Vec<Ball>, dt: u32, screen_width: i64)
    requires
        forall|i: int| 0 <= i < old(balls).len() ==> (#[trigger] old(balls)[i]).in_range(),
    ensures
        ball_views(final(balls)@) == ball_views(old(balls)@).map_values(
            advancing(dt as int, screen_width as int),
        ),
        final(balls).len() == old(balls).len(),
{
    let ghost balls0 = balls@;
    let n: usize = balls.len();
    let mut i: usize = 0;
    while i < n
        invariant
            i <= n,
            n == balls.len(),
            n == balls0.len(),
            forall|k: int| 0 <= k < n ==> (#[trigger] balls0[k]).in_range(),
            forall|k: int| i <= k < n ==> #[trigger] balls[k] == balls0[k],
            forall|k: int|
                0 <= k < i ==> (#[trigger] balls[k])@ == balls0[k]@.advanced(
                    dt as int,
                    screen_width as int,
                ),
        decreases n - i,
    {
        let mut ball: Ball = balls[i];
        assert(ball == balls0[i as int]);
        ball.update(dt, screen_width);
        balls.set(i, ball);
        i = i + 1;
    }
    assert(ball_views(balls@) =~= ball_views(balls0).map_values(
        advancing(dt as int, screen_width as int),
    ));
}

/// Removes the balls whose top is below the bottom of a screen
/// `screen_height` high; the others stay in their order.
pub fn remove_fallen(balls: &mut Vec<Ball>, screen_height: i64)
    ensures
        ball_views(final(balls)@) == ball_views(old(balls)@).filter(
            on_screen(screen_height as int),
        ),
{
    let ghost balls0 = balls@;
    let n: usize = balls.len();
    let mut kept: Vec<Ball> = Vec::new();
    let mut i: usize = 0;
    assert(balls0.take(0) =~= Seq::<Ball>::empty());
    assert(ball_views(balls0.take(0)) =~= Seq::<BallView>::empty());
    assert(ball_views(kept@) =~= Seq::<BallView>::empty());
    proof {
        Seq::<BallView>::empty().lemma_filter_len(on_screen(screen_height as int));
    }
    while i < n
        invariant
            i <= n,
            n == balls.len(),
            balls@ == balls0,
            ball_views(kept@) =~= ball_views(balls0.take(i as int)).filter(
                on_screen(screen_height as int),
            ),
        decreases n - i,
    {
        let ball: Ball = balls[i];
        proof {
            let shorter = ball_views(balls0.take(i as int));
            assert(ball_views(balls0.take(i + 1)) =~= shorter.push(ball@));
            shorter.lemma_filter_push(ball@, on_screen(screen_height as int));
            assert(ball_views(kept@.push(ball)) =~= ball_views(kept@).push(ball@));
        }
        if ball.rect.y <= screen_height {
            kept.push(ball);
        }
        i = i + 1;
    }
    assert(balls0.take(n as int) =~= balls0);
    *balls = kept;
}

/// Removes the destroyed blocks; the others stay in their order.
pub fn remove_destroyed(blocks: &mut Vec<Block>)
    ensures
        block_views(final(blocks)@) == block_views(old(blocks)@).filter(standing()),
{
    let ghost blocks0 = blocks@;
    let n: usize = blocks.len();
    let mut kept: Vec<Block> = Vec::new();
    let mut j: usize = 0;
    assert(blocks0.take(0) =~= Seq::<Block>::empty());
    assert(block_views(blocks0.take(0)) =~= Seq::<BlockView>::empty());
    assert(block_views(kept@) =~= Seq::<BlockView>::empty());
    proof {
        Seq::<BlockView>::empty().lemma_filter_len(standing());
    }
    while j < n
        invariant
            j <= n,
            n == blocks.len(),
            blocks@ == blocks0,
            block_views(kept@) =~= block_views(blocks0.take(j as int)).filter(standing()),
        decreases n - j,
    {
        let block: Block = blocks[j];
        proof {
            let shorter = block_views(blocks0.take(j as int));
            assert(block_views(blocks0.take(j + 1)) =~= shorter.push(block@));
            shorter.lemma_filter_push(block@, standing());
            assert(block_views(kept@.push(block)) =~= block_views(kept@).push(block@));
        }
        if !block.is_destroyed() {
            kept.push(block);
        }
        j = j + 1;
    }
    assert(blocks0.take(n as int) =~= blocks0);
    *blocks = kept;
}

/// The opening grid of blocks on a screen `screen_width` wide.
pub fn block_grid(screen_width: i64) -> (blocks: Vec<Block>)
    requires
        screen_ok(screen_width as int),
    ensures
        block_views(blocks@) == grid(screen_width as int),
{
    let pitch_x: i64 = BLOCK_WIDTH + BLOCK_PADDING;
    let pitch_y: i64 = BLOCK_HEIGHT + BLOCK_PADDING;
    let left: i64 = screen_width / 2 - GRID_COLUMNS * pitch_x / 2;
    let count: i64 = GRID_COLUMNS * GRID_ROWS;
    let mut blocks: Vec<Block> = Vec::new();
    let mut i: i64 = 0;
    while i < count
        invariant
            0 <= i <= count,
            count == GRID_COLUMNS * GRID_ROWS,
            pitch_x == BLOCK_WIDTH + BLOCK_PADDING,
            pitch_y == BLOCK_HEIGHT + BLOCK_PADDING,
            screen_ok(screen_width as int),
            left == (screen_width - GRID_COLUMNS * (BLOCK_WIDTH + BLOCK_PADDING)) / 2,
            blocks.len() == i,
            forall|k: int| 0 <= k < i ==> (#[trigger] blocks[k])@ == grid_block(screen_width as int, k),
        decreases count - i,
    {
        let column: i64 = i % GRID_COLUMNS;
        let row: i64 = i / GRID_COLUMNS;
        assert(0 <= column * pitch_x <= 5 * pitch_x) by (nonlinear_arith)
            requires
                0 <= column <= 5,
                0 <= pitch_x,
        ;
        assert(0 <= row * pitch_y <= 5 * pitch_y) by (nonlinear_arith)
            requires
                0 <= row <= 5,
                0 <= pitch_y,
        ;
        blocks.push(Block::new(Vector::new(left + column * pitch_x, GRID_TOP + row * pitch_y)));
        i = i + 1;
    }
    assert(block_views(blocks@) =~= grid(screen_width as int));
    blocks
}

/// The state of one play-through.
pub struct Session {
    /// Points scored so far.
    pub score: u64,
    /// Lives left. Nothing happens when they run out; the count goes on.
    pub lives: i64,
    pub player: Player,
    /// The balls in play.
    pub balls: Vec<Ball>,
    /// The blocks in play.
    pub blocks: Vec<Block>,
}

impl View for Session {
    type V = SessionView;

    open spec fn view(&self) -> SessionView {
        SessionView {
            score: self.score as int,
            lives: self.lives as int,
            player: self.player@,
            balls: ball_views(self.balls@),
            blocks: block_views(self.blocks@),
        }
    }
}

impl Session {
    /// See [`SessionView::valid`].
    pub open spec fn valid(&self) -> bool {
        self@.valid()
    }

    /// A session at its start on a screen of the given size, its one ball
    /// launched with a tilt drawn at random between minus [`ONE`] and
    /// [`ONE`].
    pub fn new(screen_width: i64, screen_height: i64) -> (s: Session)
        requires
            screen_ok(screen_width as int),
            screen_ok(screen_height as int),
        ensures
            exists|tilt: int|
                -ONE <= tilt <= ONE && s@ == #[trigger] SessionView::started(
                    screen_width as int,
                    screen_height as int,
                    tilt,
                ),
            s.valid(),
    {
        let tilt: i32 = random_between(-(ONE as i32), ONE as i32);
        Session::start(screen_width, screen_height, tilt as i64)
    }

    /// A session at its start on a screen of the given size, its one ball
    /// launched with the given tilt.
    pub fn start(screen_width: i64, screen_height: i64, tilt: i64) -> (s: Session)
        requires
            screen_ok(screen_width as int),
            screen_ok(screen_height as int),
            -ONE <= tilt <= ONE,
        ensures
            s@ == SessionView::started(screen_width as int, screen_height as int, tilt as int),
            s.valid(),
    {
        let player: Player = Player::new(screen_width, screen_height);
        let blocks: Vec<Block> = block_grid(screen_width);
        let mut balls: Vec<Ball> = Vec::new();
        balls.push(Ball::launched(Vector::new(screen_width / 2, screen_height / 2), tilt));
        let s = Session { score: 0, lives: START_LIVES, player, balls, blocks };
        proof {
            assert(s@.balls =~= SessionView::started(
                screen_width as int,
                screen_height as int,
                tilt as int,
            ).balls);
            assert(s@.balls[0].settled());
            lemma_grid(screen_width as int);
            assert(s@.balls.len() == 1);
            assert(s@.blocks.len() == 36);
            assert(BLOCK_SCORE * s@.balls.len() * s@.blocks.len() == 360) by (nonlinear_arith)
                requires
                    s@.balls.len() == 1,
                    s@.blocks.len() == 36,
                    BLOCK_SCORE == 10,
            ;
        }
        s
    }

    /// Whether the session is valid.
    pub fn is_valid(&self) -> (ok: bool)
        ensures
            ok == self.valid(),
    {
        if !self.player.rect.is_on_field() || self.balls.len() > BALLS_MAX {
            return false;
        }
        let total: usize = self.blocks.len();
        let mut j: usize = 0;
        while j < total
            invariant
                j <= total,
                total == self.blocks.len(),
                forall|k: int|
                    0 <= k < j ==> (#[trigger] self@.blocks[k]).rect.on_field() && 1
                        <= self@.blocks[k].lives <= BLOCK_LIVES,
            decreases total - j,
        {
            let block: &Block = &self.blocks[j];
            assert(self@.blocks[j as int] == block@);
            if !block.rect.is_on_field() || block.lives < 1 || block.lives > BLOCK_LIVES {
                return false;
            }
            j = j + 1;
        }
        let count: usize = self.balls.len();
        let mut i: usize = 0;
        while i < count
            invariant
                i <= count,
                count == self.balls.len(),
                forall|k: int| 0 <= k < i ==> (#[trigger] self@.balls[k]).settled(),
            decreases count - i,
        {
            let ball: &Ball = &self.balls[i];
            assert(self@.balls[i as int] == ball@);
            if !ball.is_settled() {
                return false;
            }
            i = i + 1;
        }
        assert(BLOCK_SCORE * count * total <= 10 * 0x7fff_ffff * 0xffff_ffff_ffff_ffff)
            by (nonlinear_arith)
            requires
                0 <= count <= 0x7fff_ffff,
                0 <= total <= 0xffff_ffff_ffff_ffff,
                BLOCK_SCORE == 10,
        ;
        assert(BLOCK_SCORE * count <= 10 * 0x7fff_ffff) by (nonlinear_arith)
            requires
                0 <= count <= 0x7fff_ffff,
                BLOCK_SCORE == 10,
        ;
        let room: u128 = (BLOCK_SCORE as u128) * (count as u128) * (total as u128);
        if self.score as u128 + room > u64::MAX as u128 {
            return false;
        }
        !(count > 0 && self.lives == i64::MIN)
    }

    /// Plays one frame of `dt` microseconds on a screen of the given size.
    ///
    /// The session afterwards is exactly what [`SessionView::after_frame`]
    /// says, and it is valid again.
    pub fn step(&mut self, input: Input, dt: u32, screen_width: i64, screen_height: i64)
        requires
            old(self).valid(),
            screen_ok(screen_width as int),
            screen_ok(screen_height as int),
        ensures
            final(self)@ == old(self)@.after_frame(
                input,
                dt as int,
                screen_width as int,
                screen_height as int,
            ),
            final(self).valid(),
    {
        let ghost start = self@;
        proof {
            lemma_after_frame_valid(
                start,
                input,
                dt as int,
                screen_width as int,
                screen_height as int,
            );
            assert forall|i: int| 0 <= i < self.balls.len() implies (
            #[trigger] self.balls[i]).in_range() by {
                assert(start.balls[i].settled());
            }
        }
        let count: usize = self.balls.len();
        self.player.update(input, dt, screen_width);
        advance_balls(&mut self.balls, dt, screen_width);
        proof {
            let flown = ball_views(self.balls@);
            assert forall|i: int| 0 <= i < flown.len() implies (#[trigger] flown[i]).in_flight() by {
                assert(start.balls[i].settled());
                lemma_advanced_in_flight(start.balls[i], dt as int, screen_width as int);
            }
            assert forall|j: int| 0 <= j < self.blocks.len() implies (
            #[trigger] self.blocks[j]).lives > i32::MIN + self.balls.len() by {
                assert(1 <= start.blocks[j].lives);
            }
            assert(blocks_on_field(block_views(self.blocks@)));
            lemma_volleyed(flown, self.player@, start.blocks, flown.len());
            assert(BLOCK_SCORE * flown.len() * destroyed_among(
                volleyed(flown, self.player@, start.blocks, flown.len()).blocks,
                start.blocks.len(),
            ) <= BLOCK_SCORE * flown.len() * start.blocks.len()) by (nonlinear_arith)
                requires
                    0 <= flown.len(),
                    0 <= destroyed_among(
                        volleyed(flown, self.player@, start.blocks, flown.len()).blocks,
                        start.blocks.len(),
                    ) <= start.blocks.len(),
            ;
        }
        let gain: u64 = volley(&mut self.balls, &self.player, &mut self.blocks);
        self.score = self.score + gain;
        remove_fallen(&mut self.balls, screen_height);
        if count == 1 && self.balls.len() == 0 {
            self.lives = self.lives - 1;
        }
        remove_destroyed(&mut self.blocks);
    }
}

} // verus!
