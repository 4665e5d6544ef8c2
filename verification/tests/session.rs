use breakout::ball::Ball;
use breakout::block::Block;
use breakout::geometry::{Rect, Vector};
use breakout::player::{Input, Player};
use breakout::session::{
    advance_balls, block_grid, remove_destroyed, remove_fallen, strike, sweep, volley, Session,
};
use breakout::units::{FIELD, TICKS_PER_UNIT};

const U: i64 = TICKS_PER_UNIT;
const W: i64 = 800 * U;
const H: i64 = 600 * U;
const IDLE: Input = Input { left: false, right: false };

fn ball_at(x: i64, y: i64, vx: i64, vy: i64) -> Ball {
    Ball { rect: Rect::new(x, y, 30 * U, 30 * U), vel: Vector::new(vx, vy) }
}

fn session_with(balls: Vec<Ball>, blocks: Vec<Block>) -> Session {
    Session { score: 0, lives: 3, player: Player::new(W, H), balls, blocks }
}

#[test]
fn grid_has_six_rows_of_six_blocks() {
    let blocks = block_grid(W);
    assert_eq!(blocks.len(), 36);
    assert_eq!(blocks[0].rect, Rect::new(85 * U, 50 * U, 100 * U, 30 * U));
    assert_eq!(blocks[1].rect, Rect::new(190 * U, 50 * U, 100 * U, 30 * U));
    assert_eq!(blocks[5].rect, Rect::new(610 * U, 50 * U, 100 * U, 30 * U));
    assert_eq!(blocks[6].rect, Rect::new(85 * U, 85 * U, 100 * U, 30 * U));
    assert_eq!(blocks[35].rect, Rect::new(610 * U, 225 * U, 100 * U, 30 * U));
    for b in blocks.iter() {
        assert_eq!(b.lives, 3);
    }
}

#[test]
fn grid_on_a_narrow_screen_starts_left_of_it() {
    let blocks = block_grid(101);
    assert_eq!(blocks[0].rect.x, 50 - 315 * U);
    let blocks = block_grid(0);
    assert_eq!(blocks[0].rect.x, -315 * U);
}

#[test]
fn session_starts_with_one_ball_and_the_grid() {
    let s = Session::start(W, H, 0);
    assert_eq!(s.score, 0);
    assert_eq!(s.lives, 3);
    assert_eq!(s.player, Player::new(W, H));
    assert_eq!(s.blocks, block_grid(W));
    assert_eq!(s.balls, vec![ball_at(400 * U, 300 * U, 0, 1000)]);
    assert!(s.is_valid());
}

#[test]
fn session_new_starts_like_start_with_some_tilt() {
    let s = Session::new(W, H);
    assert_eq!(s.score, 0);
    assert_eq!(s.lives, 3);
    assert_eq!(s.blocks.len(), 36);
    assert_eq!(s.balls.len(), 1);
    assert_eq!(s.balls[0].rect, Rect::new(400 * U, 300 * U, 30 * U, 30 * U));
    assert!(s.balls[0].vel.y >= 707);
    assert!(s.is_valid());
    let mut tilt: i64 = -1000;
    let mut found = false;
    while tilt <= 1000 {
        if Session::start(W, H, tilt).balls == s.balls {
            found = true;
        }
        tilt += 1;
    }
    assert!(found);
}

#[test]
fn session_on_the_largest_screen_is_valid() {
    assert!(Session::start(FIELD, FIELD, 1000).is_valid());
    assert!(Session::start(0, 0, -1000).is_valid());
}

#[test]
fn strike_without_overlap_gives_nothing() {
    let mut ball = ball_at(0, 0, 0, 1000);
    let mut block = Block::new(Vector::new(200 * U, 200 * U));
    assert_eq!(strike(&mut ball, &mut block), 0);
    assert_eq!(ball, ball_at(0, 0, 0, 1000));
    assert_eq!(block, Block::new(Vector::new(200 * U, 200 * U)));
}

#[test]
fn strike_on_a_fresh_block_takes_a_life_and_gives_nothing() {
    let mut ball = ball_at(235 * U, 172 * U, 0, 1000);
    let mut block = Block::new(Vector::new(200 * U, 200 * U));
    assert_eq!(strike(&mut ball, &mut block), 0);
    assert_eq!(ball, ball_at(235 * U, 170 * U, 0, -1000));
    assert_eq!(block.lives, 2);
}

#[test]
fn strike_on_the_last_life_gives_ten_points() {
    let mut ball = ball_at(235 * U, 172 * U, 0, 1000);
    let mut block = Block::new(Vector::new(200 * U, 200 * U));
    block.lives = 1;
    assert_eq!(strike(&mut ball, &mut block), 10);
    assert_eq!(block.lives, 0);
}

#[test]
fn strike_gives_ten_points_whichever_ball_destroys() {
    let mut from_above = ball_at(235 * U, 172 * U, 300, 900);
    let mut from_the_left = ball_at(172 * U, 200 * U, 1000, 0);
    let mut first = Block::new(Vector::new(200 * U, 200 * U));
    let mut second = Block::new(Vector::new(200 * U, 200 * U));
    first.lives = 1;
    second.lives = 1;
    assert_eq!(strike(&mut from_above, &mut first), 10);
    assert_eq!(strike(&mut from_the_left, &mut second), 10);
    assert_eq!(first, second);
}

#[test]
fn sweep_hits_every_block_the_ball_overlaps() {
    // Two blocks side by side; the ball sits on the gap and reaches into both.
    let mut blocks = vec![
        Block::new(Vector::new(100 * U, 200 * U)),
        Block::new(Vector::new(205 * U, 200 * U)),
        Block::new(Vector::new(500 * U, 200 * U)),
    ];
    blocks[1].lives = 1;
    let mut ball = ball_at(190 * U, 172 * U, 0, 1000);
    // Against the first block the shared area is 10 wide and 2 high: pushed up by 2.
    // The ball then no longer reaches the second block.
    assert_eq!(sweep(&mut ball, &mut blocks), 0);
    assert_eq!(ball, ball_at(190 * U, 170 * U, 0, -1000));
    assert_eq!(blocks[0].lives, 2);
    assert_eq!(blocks[1].lives, 1);
    assert_eq!(blocks[2].lives, 3);
}

#[test]
fn sweep_sums_the_points_of_its_strikes() {
    // The ball lies inside both blocks, which lie on top of each other.
    let mut blocks = vec![
        Block { rect: Rect::new(0, 0, 100 * U, 100 * U), lives: 1 },
        Block { rect: Rect::new(0, 0, 100 * U, 100 * U), lives: 1 },
        Block { rect: Rect::new(0, 0, 100 * U, 100 * U), lives: 2 },
    ];
    let mut ball = Ball { rect: Rect::new(45 * U, 50 * U, 10 * U, 5 * U), vel: Vector::new(0, 1000) };
    assert_eq!(sweep(&mut ball, &mut blocks), 20);
    assert_eq!(blocks[0].lives, 0);
    assert_eq!(blocks[1].lives, 0);
    assert_eq!(blocks[2].lives, 1);
}

#[test]
fn volley_lets_every_ball_meet_paddle_and_blocks() {
    let player = Player::new(W, H);
    let mut blocks = vec![Block::new(Vector::new(200 * U, 200 * U))];
    blocks[0].lives = 2;
    let mut balls = vec![
        // Rests on the paddle, two units deep.
        ball_at(385 * U, 472 * U, 0, 1000),
        // Both reach into the block from above.
        ball_at(210 * U, 172 * U, 0, 1000),
        ball_at(260 * U, 171 * U, 0, 1000),
    ];
    assert_eq!(volley(&mut balls, &player, &mut blocks), 10);
    assert_eq!(balls[0], ball_at(385 * U, 470 * U, 0, -1000));
    assert_eq!(balls[1], ball_at(210 * U, 170 * U, 0, -1000));
    assert_eq!(balls[2], ball_at(260 * U, 170 * U, 0, -1000));
    assert_eq!(blocks[0].lives, 0);
}

#[test]
fn advance_balls_moves_every_ball() {
    let mut balls = vec![ball_at(0, 0, 1000, 1000), ball_at(100 * U, 100 * U, -500, 0)];
    advance_balls(&mut balls, 1000, W);
    assert_eq!(balls[0], ball_at(400_000_000, 400_000_000, 1000, 1000));
    assert_eq!(balls[1], ball_at(100 * U - 200_000_000, 100 * U, -500, 0));
}

#[test]
fn remove_fallen_keeps_balls_down_to_the_bottom_edge() {
    let mut balls = vec![
        ball_at(1, H + 1, 0, 1000),
        ball_at(2, H, 0, 1000),
        ball_at(3, H - 1, 0, 1000),
        ball_at(4, 2 * H, 0, 1000),
        ball_at(5, -H, 0, 1000),
    ];
    remove_fallen(&mut balls, H);
    assert_eq!(balls, vec![ball_at(2, H, 0, 1000), ball_at(3, H - 1, 0, 1000), ball_at(5, -H, 0, 1000)]);
}

#[test]
fn remove_destroyed_keeps_blocks_with_lives() {
    let at = |x: i64, lives: i32| Block { rect: Rect::new(x, 0, 100 * U, 30 * U), lives };
    let mut blocks = vec![at(1, 0), at(2, 1), at(3, -2), at(4, 3), at(5, 0)];
    remove_destroyed(&mut blocks);
    assert_eq!(blocks, vec![at(2, 1), at(4, 3)]);
}

#[test]
fn three_hits_from_above_destroy_the_block_and_score_once() {
    let mut s = session_with(
        vec![ball_at(385 * U, 72 * U, 0, 1000)],
        vec![Block::new(Vector::new(350 * U, 100 * U))],
    );
    assert!(s.is_valid());

    s.step(IDLE, 0, W, H);
    assert_eq!(s.blocks.len(), 1);
    assert_eq!(s.blocks[0].lives, 2);
    assert_eq!(s.score, 0);
    assert_eq!(s.balls, vec![ball_at(385 * U, 70 * U, 0, -1000)]);

    s.balls[0] = ball_at(385 * U, 72 * U, 0, 1000);
    s.step(IDLE, 0, W, H);
    assert_eq!(s.blocks.len(), 1);
    assert_eq!(s.blocks[0].lives, 1);
    assert_eq!(s.score, 0);

    s.balls[0] = ball_at(385 * U, 72 * U, 0, 1000);
    s.step(IDLE, 0, W, H);
    assert!(s.blocks.is_empty());
    assert_eq!(s.score, 10);
    assert_eq!(s.lives, 3);
    assert_eq!(s.balls.len(), 1);
    assert!(s.is_valid());
}

#[test]
fn last_ball_falling_costs_a_life() {
    let mut s = session_with(vec![ball_at(100 * U, 599 * U, 0, 1000)], block_grid(W));
    s.step(IDLE, 10_000, W, H);
    assert!(s.balls.is_empty());
    assert_eq!(s.lives, 2);
    assert_eq!(s.score, 0);
    assert_eq!(s.blocks.len(), 36);
    assert!(s.is_valid());
}

#[test]
fn no_more_lives_are_lost_without_balls() {
    let mut s = session_with(vec![ball_at(100 * U, 599 * U, 0, 1000)], block_grid(W));
    s.step(IDLE, 10_000, W, H);
    s.step(IDLE, 10_000, W, H);
    s.step(IDLE, 10_000, W, H);
    assert_eq!(s.lives, 2);
    assert!(s.balls.is_empty());
}

#[test]
fn ball_with_its_top_on_the_bottom_edge_stays() {
    let mut s = session_with(vec![ball_at(100 * U, H, 0, 1000)], Vec::new());
    s.step(IDLE, 0, W, H);
    assert_eq!(s.balls.len(), 1);
    assert_eq!(s.lives, 3);
    s.step(IDLE, 1, W, H);
    assert!(s.balls.is_empty());
    assert_eq!(s.lives, 2);
}

#[test]
fn one_of_two_balls_falling_costs_no_life() {
    let mut s = session_with(
        vec![ball_at(100 * U, 599 * U, 0, 1000), ball_at(600 * U, 300 * U, 0, -1000)],
        Vec::new(),
    );
    s.step(IDLE, 10_000, W, H);
    assert_eq!(s.balls, vec![ball_at(600 * U, 296 * U, 0, -1000)]);
    assert_eq!(s.lives, 3);
}

#[test]
fn two_balls_falling_together_cost_no_life() {
    let mut s = session_with(
        vec![ball_at(100 * U, 599 * U, 0, 1000), ball_at(600 * U, 599 * U, 0, 1000)],
        Vec::new(),
    );
    s.step(IDLE, 10_000, W, H);
    assert!(s.balls.is_empty());
    assert_eq!(s.lives, 3);
}

#[test]
fn lives_go_below_zero() {
    let mut s = session_with(vec![ball_at(100 * U, 599 * U, 0, 1000)], Vec::new());
    s.lives = 0;
    s.step(IDLE, 10_000, W, H);
    assert_eq!(s.lives, -1);
}

#[test]
fn two_balls_destroying_two_blocks_score_twenty() {
    let mut first = Block::new(Vector::new(100 * U, 200 * U));
    let mut second = Block::new(Vector::new(400 * U, 200 * U));
    first.lives = 1;
    second.lives = 1;
    let mut s = session_with(
        vec![ball_at(135 * U, 172 * U, 0, 1000), ball_at(435 * U, 228 * U, 0, -1000)],
        vec![first, second, Block::new(Vector::new(600 * U, 200 * U))],
    );
    s.score = 70;
    s.step(IDLE, 0, W, H);
    assert_eq!(s.score, 90);
    assert_eq!(s.blocks, vec![Block::new(Vector::new(600 * U, 200 * U))]);
    assert_eq!(s.balls, vec![ball_at(135 * U, 170 * U, 0, -1000), ball_at(435 * U, 230 * U, 0, 1000)]);
    assert_eq!(s.lives, 3);
}

#[test]
fn two_balls_on_one_block_in_one_frame_both_score() {
    let mut block = Block::new(Vector::new(100 * U, 200 * U));
    block.lives = 1;
    let mut s = session_with(
        vec![ball_at(110 * U, 172 * U, 0, 1000), ball_at(160 * U, 172 * U, 0, 1000)],
        vec![block],
    );
    s.step(IDLE, 0, W, H);
    assert_eq!(s.score, 20);
    assert!(s.blocks.is_empty());
}

#[test]
fn ball_bounces_off_the_paddle() {
    let mut s = session_with(vec![ball_at(385 * U, 469 * U, 0, 1000)], Vec::new());
    // 10 ms at full velocity: 4 units down, 3 units into the paddle.
    s.step(IDLE, 10_000, W, H);
    assert_eq!(s.balls, vec![ball_at(385 * U, 470 * U, 0, -1000)]);
    s.step(IDLE, 10_000, W, H);
    assert_eq!(s.balls, vec![ball_at(385 * U, 466 * U, 0, -1000)]);
}

#[test]
fn paddle_moves_before_the_balls_meet_it() {
    let mut s = session_with(vec![ball_at(480 * U, 490 * U, -600, 1000)], Vec::new());
    // The paddle spans 325..475; after 10 ms to the right it spans 332..482.
    // The ball has moved to 477.6; the two share 4.4 units of width and 24
    // of height, so the ball is pushed right and turned right.
    s.step(Input { left: false, right: true }, 10_000, W, H);
    assert_eq!(s.player.rect.x, 332 * U);
    assert_eq!(s.balls, vec![ball_at(482 * U, 494 * U, 600, 1000)]);
}

#[test]
fn session_stays_valid_over_a_long_game() {
    let mut s = Session::start(W, H, 371);
    let steps: [u32; 7] = [16_667, 16_666, 1, 33_333, 0, 250_000, 8_000];
    let mut frame: usize = 0;
    while frame < 5000 {
        if s.balls.is_empty() {
            s.balls.push(Ball::launched(Vector::new(W / 2, H / 2), (frame % 2001) as i64 - 1000));
        }
        let ball_x = s.balls[0].rect.x;
        let input = Input { left: ball_x < s.player.rect.x, right: ball_x > s.player.rect.x + 120 * U };
        let width = if frame % 500 == 499 { 640 * U } else { W };
        let before = s.score;
        s.step(input, steps[frame % steps.len()], width, H);
        assert!(s.is_valid());
        assert!(s.score >= before);
        assert_eq!((s.score - before) % 10, 0);
        assert!(0 <= s.player.rect.x && s.player.rect.x <= width - s.player.rect.w);
        for b in s.blocks.iter() {
            assert!(1 <= b.lives && b.lives <= 3);
        }
        for b in s.balls.iter() {
            assert!(b.rect.y <= H);
        }
        frame += 1;
    }
    assert!(s.blocks.len() <= 36);
}

#[test]
fn session_validity_checks() {
    let good = session_with(vec![ball_at(0, 0, 0, 1000)], block_grid(W));
    assert!(good.is_valid());

    let mut dead_block = session_with(Vec::new(), block_grid(W));
    dead_block.blocks[7].lives = 0;
    assert!(!dead_block.is_valid());

    let mut strong_block = session_with(Vec::new(), block_grid(W));
    strong_block.blocks[35].lives = 4;
    assert!(!strong_block.is_valid());

    let mut far_block = session_with(Vec::new(), block_grid(W));
    far_block.blocks[0].rect.x = FIELD + 1;
    assert!(!far_block.is_valid());

    let fast_ball = session_with(vec![ball_at(0, 0, 0, 1001)], Vec::new());
    assert!(!fast_ball.is_valid());

    let low_ball = session_with(vec![ball_at(0, FIELD + 1, 0, 1000)], Vec::new());
    assert!(!low_ball.is_valid());

    let mut far_paddle = session_with(Vec::new(), Vec::new());
    far_paddle.player.rect.y = -FIELD - 1;
    assert!(!far_paddle.is_valid());

    let mut full_score = session_with(vec![ball_at(0, 0, 0, 1000)], block_grid(W));
    full_score.score = u64::MAX - 359;
    assert!(!full_score.is_valid());
    full_score.score = u64::MAX - 360;
    assert!(full_score.is_valid());

    let mut no_lives = session_with(vec![ball_at(0, 0, 0, 1000)], Vec::new());
    no_lives.lives = i64::MIN;
    assert!(!no_lives.is_valid());
    no_lives.balls.clear();
    assert!(no_lives.is_valid());
}
