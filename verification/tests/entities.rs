use breakout::ball::Ball;
use breakout::block::{Block, Tier};
use breakout::geometry::{Rect, Vector};
use breakout::player::{Input, Player};
use breakout::units::{ONE, TICKS_PER_UNIT};

const U: i64 = TICKS_PER_UNIT;
const LEFT: Input = Input { left: true, right: false };
const RIGHT: Input = Input { left: false, right: true };
const NEITHER: Input = Input { left: false, right: false };
const BOTH: Input = Input { left: true, right: true };

#[test]
fn player_starts_centred_above_the_bottom() {
    let p = Player::new(800 * U, 600 * U);
    assert_eq!(p.rect, Rect::new(325 * U, 500 * U, 150 * U, 40 * U));
}

#[test]
fn player_on_an_empty_screen() {
    let p = Player::new(0, 0);
    assert_eq!(p.rect, Rect::new(-75 * U, -100 * U, 150 * U, 40 * U));
}

#[test]
fn player_moves_at_seven_hundred_units_per_second() {
    let mut p = Player::new(800 * U, 600 * U);
    p.update(RIGHT, 10_000, 800 * U);
    assert_eq!(p.rect.x, 332 * U);
    p.update(LEFT, 20_000, 800 * U);
    assert_eq!(p.rect.x, 318 * U);
    p.update(LEFT, 1, 800 * U);
    assert_eq!(p.rect.x, 318 * U - 700_000);
    assert_eq!(p.rect.y, 500 * U);
    assert_eq!(p.rect.w, 150 * U);
    assert_eq!(p.rect.h, 40 * U);
}

#[test]
fn player_stays_without_input_or_with_both_keys() {
    let mut p = Player::new(800 * U, 600 * U);
    p.update(NEITHER, 16_667, 800 * U);
    assert_eq!(p.rect.x, 325 * U);
    p.update(BOTH, 16_667, 800 * U);
    assert_eq!(p.rect.x, 325 * U);
    p.update(RIGHT, 0, 800 * U);
    assert_eq!(p.rect.x, 325 * U);
}

#[test]
fn player_stops_at_the_left_edge() {
    let mut p = Player::new(800 * U, 600 * U);
    p.update(LEFT, 1_000_000, 800 * U);
    assert_eq!(p.rect.x, 0);
    p.update(LEFT, 16_667, 800 * U);
    assert_eq!(p.rect.x, 0);
}

#[test]
fn player_stops_at_the_right_edge() {
    let mut p = Player::new(800 * U, 600 * U);
    p.update(RIGHT, 1_000_000, 800 * U);
    assert_eq!(p.rect.x, 650 * U);
    p.update(RIGHT, u32::MAX, 800 * U);
    assert_eq!(p.rect.x, 650 * U);
}

#[test]
fn player_follows_a_shrinking_screen() {
    let mut p = Player::new(800 * U, 600 * U);
    p.update(RIGHT, 1_000_000, 800 * U);
    p.update(NEITHER, 16_667, 400 * U);
    assert_eq!(p.rect.x, 250 * U);
}

#[test]
fn player_on_a_screen_narrower_than_itself() {
    let mut p = Player::new(800 * U, 600 * U);
    p.update(NEITHER, 16_667, 100 * U);
    assert_eq!(p.rect.x, -50 * U);
    p.update(NEITHER, 16_667, 100 * U);
    assert_eq!(p.rect.x, 0);
}

#[test]
fn player_stays_on_screen_for_any_inputs() {
    let inputs = [LEFT, RIGHT, RIGHT, BOTH, LEFT, LEFT, NEITHER, RIGHT];
    let steps: [u32; 5] = [0, 1, 16_667, 250_000, u32::MAX];
    let mut p = Player::new(800 * U, 600 * U);
    let mut n = 0;
    while n < 400 {
        let width = (300 + (n as i64 * 37) % 900) * U;
        p.update(inputs[n % inputs.len()], steps[n % steps.len()], width);
        assert!(0 <= p.rect.x && p.rect.x <= width - p.rect.w);
        n += 1;
    }
}

#[test]
fn block_is_destroyed_by_the_third_hit() {
    let mut b = Block::new(Vector::new(85 * U, 50 * U));
    assert_eq!(b.rect, Rect::new(85 * U, 50 * U, 100 * U, 30 * U));
    assert_eq!(b.lives, 3);
    assert!(!b.is_destroyed());
    assert!(!b.apply_hit());
    assert!(!b.is_destroyed());
    assert!(!b.apply_hit());
    assert!(!b.is_destroyed());
    assert!(b.apply_hit());
    assert!(b.is_destroyed());
    assert_eq!(b.lives, 0);
    assert_eq!(b.rect, Rect::new(85 * U, 50 * U, 100 * U, 30 * U));
}

#[test]
fn block_stays_destroyed_when_hit_again() {
    let mut b = Block::new(Vector::new(0, 0));
    b.lives = 0;
    assert!(b.apply_hit());
    assert_eq!(b.lives, -1);
    assert!(b.is_destroyed());
}

#[test]
fn block_tier_follows_the_lives() {
    let mut b = Block::new(Vector::new(0, 0));
    assert_eq!(b.visual_tier(), Tier::Intact);
    b.apply_hit();
    assert_eq!(b.visual_tier(), Tier::Damaged);
    b.apply_hit();
    assert_eq!(b.visual_tier(), Tier::Critical);
    b.apply_hit();
    assert_eq!(b.visual_tier(), Tier::Critical);
    b.lives = 7;
    assert_eq!(b.visual_tier(), Tier::Critical);
}

#[test]
fn ball_launched_straight_down() {
    let b = Ball::launched(Vector::new(400 * U, 300 * U), 0);
    assert_eq!(b.rect, Rect::new(400 * U, 300 * U, 30 * U, 30 * U));
    assert_eq!(b.vel, Vector::new(0, 1000));
}

#[test]
fn ball_launched_with_full_tilt() {
    assert_eq!(Ball::launched(Vector::new(0, 0), 1000).vel, Vector::new(707, 707));
    assert_eq!(Ball::launched(Vector::new(0, 0), -1000).vel, Vector::new(-707, 707));
}

#[test]
fn ball_launched_with_some_tilt() {
    // The length of (750, 1000) is 1250.
    assert_eq!(Ball::launched(Vector::new(0, 0), 750).vel, Vector::new(600, 800));
    assert_eq!(Ball::launched(Vector::new(0, 0), -750).vel, Vector::new(-600, 800));
}

#[test]
fn ball_new_launches_downwards_within_the_tilt_range() {
    let mut n = 0;
    while n < 200 {
        let b = Ball::new(Vector::new(400 * U, 300 * U));
        assert_eq!(b.rect, Rect::new(400 * U, 300 * U, 30 * U, 30 * U));
        assert!(-707 <= b.vel.x && b.vel.x <= 707);
        assert!(707 <= b.vel.y && b.vel.y <= ONE);
        assert!(b.is_in_range());
        n += 1;
    }
}

#[test]
fn ball_new_draws_different_tilts() {
    let first = Ball::new(Vector::new(0, 0)).vel;
    let mut different = false;
    let mut n = 0;
    while n < 200 {
        if Ball::new(Vector::new(0, 0)).vel != first {
            different = true;
        }
        n += 1;
    }
    assert!(different);
}

#[test]
fn ball_advances_by_velocity_times_step_times_speed() {
    let mut b = Ball { rect: Rect::new(400 * U, 300 * U, 30 * U, 30 * U), vel: Vector::new(600, -800) };
    b.update(10_000, 800 * U);
    assert_eq!(b.rect.x, 400 * U + 600 * 10_000 * 400);
    assert_eq!(b.rect.y, 300 * U - 800 * 10_000 * 400);
    assert_eq!(b.rect.x, 402_400_000_000);
    assert_eq!(b.rect.y, 296_800_000_000);
    assert_eq!(b.vel, Vector::new(600, -800));
    assert_eq!(b.rect.w, 30 * U);
    assert_eq!(b.rect.h, 30 * U);
}

#[test]
fn ball_at_full_velocity_covers_four_hundred_units_a_second() {
    let mut b = Ball::launched(Vector::new(0, 0), 0);
    b.update(1_000_000, 800 * U);
    assert_eq!(b.rect.y, 400 * U);
    assert_eq!(b.rect.x, 0);
}

#[test]
fn ball_does_not_move_in_no_time() {
    let mut b = Ball { rect: Rect::new(5 * U, 6 * U, 30 * U, 30 * U), vel: Vector::new(1000, 1000) };
    b.update(0, 800 * U);
    assert_eq!(b.rect, Rect::new(5 * U, 6 * U, 30 * U, 30 * U));
    assert_eq!(b.vel, Vector::new(1000, 1000));
}

#[test]
fn ball_turns_left_past_the_right_edge() {
    let mut b = Ball { rect: Rect::new(770 * U, 300 * U, 30 * U, 30 * U), vel: Vector::new(600, 800) };
    b.update(1, 800 * U);
    assert_eq!(b.rect.x, 770 * U + 240_000);
    assert_eq!(b.vel, Vector::new(-1000, 800));
}

#[test]
fn ball_keeps_going_with_its_right_edge_on_the_screen_edge() {
    let mut b = Ball { rect: Rect::new(770 * U, 300 * U, 30 * U, 30 * U), vel: Vector::new(600, 800) };
    b.update(0, 800 * U);
    assert_eq!(b.vel, Vector::new(600, 800));
}

#[test]
fn ball_turns_right_left_of_the_left_edge() {
    let mut b = Ball { rect: Rect::new(0, 300 * U, 30 * U, 30 * U), vel: Vector::new(-600, 800) };
    b.update(1, 800 * U);
    assert_eq!(b.rect.x, -240_000);
    assert_eq!(b.vel, Vector::new(1000, 800));
}

#[test]
fn ball_keeps_going_on_the_left_edge() {
    let mut b = Ball { rect: Rect::new(0, 300 * U, 30 * U, 30 * U), vel: Vector::new(-600, 800) };
    b.update(0, 800 * U);
    assert_eq!(b.vel, Vector::new(-600, 800));
}

#[test]
fn ball_turns_down_above_the_top_edge() {
    let mut b = Ball { rect: Rect::new(400 * U, 0, 30 * U, 30 * U), vel: Vector::new(600, -800) };
    b.update(1, 800 * U);
    assert_eq!(b.rect.y, -320_000);
    assert_eq!(b.vel, Vector::new(600, 1000));
}

#[test]
fn ball_turns_in_a_corner() {
    let mut b = Ball { rect: Rect::new(0, 0, 30 * U, 30 * U), vel: Vector::new(-600, -800) };
    b.update(1, 800 * U);
    assert_eq!(b.vel, Vector::new(1000, 1000));
}

#[test]
fn ball_falls_through_the_bottom() {
    let mut b = Ball { rect: Rect::new(400 * U, 590 * U, 30 * U, 30 * U), vel: Vector::new(0, 1000) };
    b.update(1_000_000, 800 * U);
    assert_eq!(b.rect.y, 990 * U);
    assert_eq!(b.vel, Vector::new(0, 1000));
}

#[test]
fn ball_left_of_a_screen_narrower_than_itself_turns_right() {
    let mut b = Ball { rect: Rect::new(-1, 0, 30 * U, 30 * U), vel: Vector::new(0, 1000) };
    b.update(0, 10 * U);
    assert_eq!(b.vel, Vector::new(1000, 1000));
}

#[test]
fn ball_range_checks() {
    let b = Ball { rect: Rect::new(0, 0, 30 * U, 30 * U), vel: Vector::new(1000, -1000) };
    assert!(b.is_in_range());
    assert!(b.is_settled());
    let fast = Ball { rect: Rect::new(0, 0, 30 * U, 30 * U), vel: Vector::new(1001, 0) };
    assert!(!fast.is_in_range());
    assert!(!fast.is_settled());
    let low = Ball { rect: Rect::new(0, 2_000_000 * U, 30 * U, 30 * U), vel: Vector::new(0, 1000) };
    assert!(low.is_in_range());
    assert!(!low.is_settled());
}
