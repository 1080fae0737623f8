use std::collections::HashMap;

use paddle_arena::fixed::{rounded_product, scaled_product, Heading, SCALE};
use paddle_arena::sim::{
    is_out_of_bounds, Ball, GameState, Player, ARENA_RADIUS, BALL_SPEED, OUT_MARGIN,
};

fn heading(angle: i64, cos: i64, sin: i64) -> Heading {
    Heading::from_parts(angle, cos, sin).expect("a unit heading")
}

fn quarter_turn() -> Heading {
    heading(1_570_796, 0, 1_000_000)
}

fn speed_sq(b: &Ball) -> i64 {
    b.vx * b.vx + b.vy * b.vy
}

fn dist_sq(b: &Ball) -> i128 {
    (b.x as i128) * (b.x as i128) + (b.y as i128) * (b.y as i128)
}

fn state_with_ball(ball: Ball) -> GameState {
    GameState { arena_radius: ARENA_RADIUS, ball, players: HashMap::new() }
}

#[test]
fn scaled_product_multiplies_fixed_point() {
    assert_eq!(scaled_product(5_000_000, 1_000_000), 5_000_000);
    assert_eq!(scaled_product(5_000_000, 500_000), 2_500_000);
    assert_eq!(scaled_product(3, 500_000), 1);
    assert_eq!(scaled_product(-3, 500_000), -1);
    assert_eq!(scaled_product(100_000, -707_107), -70_710);
}

#[test]
fn rounded_product_rounds_to_nearest() {
    assert_eq!(rounded_product(100_000, 707_107), 70_711);
    assert_eq!(rounded_product(100_000, -707_107), -70_711);
    assert_eq!(rounded_product(100_000, 866_025), 86_603);
    assert_eq!(rounded_product(100_000, 692_074), 69_207);
    assert_eq!(rounded_product(5_000_000, 1_000_000), 5_000_000);
}

#[test]
fn heading_accepts_only_unit_vectors() {
    assert_eq!(Heading::from_parts(0, SCALE, 0), Some(Heading { angle: 0, cos: SCALE, sin: 0 }));
    assert_eq!(Heading::from_parts(785_398, 707_107, 707_107).map(|h| h.cos), Some(707_107));
    assert_eq!(Heading::from_parts(0, 2 * SCALE, 0), None);
    assert_eq!(Heading::from_parts(0, SCALE / 2, 0), None);
    assert_eq!(Heading::from_parts(0, 0, 0), None);
    assert_eq!(Heading::zero(), Heading { angle: 0, cos: SCALE, sin: 0 });
}

#[test]
fn recalculate_coordinates_places_the_paddle_on_the_rim() {
    let mut p = Player::new();
    p.recalculate_coordinates(ARENA_RADIUS);
    assert_eq!((p.paddle_x, p.paddle_y, p.paddle_rot), (5_000_000, 0, 0));

    p.paddle_position = quarter_turn();
    p.recalculate_coordinates(ARENA_RADIUS);
    assert_eq!((p.paddle_x, p.paddle_y, p.paddle_rot), (0, 5_000_000, 1_570_796));

    p.paddle_position = heading(3_926_991, -707_107, -707_107);
    p.recalculate_coordinates(2_000_000);
    assert_eq!((p.paddle_x, p.paddle_y, p.paddle_rot), (-1_414_214, -1_414_214, 3_926_991));
}

#[test]
fn reset_puts_the_ball_at_the_centre_at_fixed_speed() {
    let mut b = Ball { x: 7, y: -9, vx: 1, vy: 2 };
    b.reset(Heading::zero());
    assert_eq!(b, Ball { x: 0, y: 0, vx: BALL_SPEED, vy: 0 });

    b.reset(heading(785_398, 707_107, 707_107));
    assert_eq!(b, Ball { x: 0, y: 0, vx: 70_711, vy: 70_711 });

    b.reset(heading(806_100, 692_079, 721_819));
    assert_eq!(b, Ball { x: 0, y: 0, vx: 69_208, vy: 72_182 });

    let n = Ball::new(quarter_turn());
    assert_eq!(n, Ball { x: 0, y: 0, vx: 0, vy: BALL_SPEED });
}

#[test]
fn speed_stays_constant_over_many_resets() {
    let headings = [
        Heading::zero(),
        quarter_turn(),
        heading(785_398, 707_107, 707_107),
        heading(2_094_395, -500_000, 866_025),
        heading(4_188_790, -500_000, -866_025),
        heading(5_759_587, 866_025, -500_000),
        heading(806_100, 692_079, 721_819),
        heading(759_800, 724_999, 688_749),
    ];
    let mut b = Ball::new(Heading::zero());
    for round in 0..60 {
        b.reset(headings[round % headings.len()]);
        let sq = speed_sq(&b);
        assert!((BALL_SPEED - 1) * (BALL_SPEED - 1) <= sq, "speed² {sq}");
        assert!(sq <= (BALL_SPEED + 1) * (BALL_SPEED + 1), "speed² {sq}");
        let speed = (sq as f64).sqrt() / SCALE as f64;
        assert!((speed - 0.1).abs() <= 1e-6, "speed {speed}");
    }
}

#[test]
fn update_position_adds_the_velocity() {
    let mut b = Ball { x: 10, y: -20, vx: 3, vy: -4 };
    b.update_position();
    assert_eq!(b, Ball { x: 13, y: -24, vx: 3, vy: -4 });
}

#[test]
fn out_of_bounds_is_strictly_past_the_margin() {
    let edge = ARENA_RADIUS + OUT_MARGIN;
    assert!(!is_out_of_bounds(&Ball { x: edge, y: 0, vx: 0, vy: 0 }, ARENA_RADIUS));
    assert!(is_out_of_bounds(&Ball { x: edge + 1, y: 0, vx: 0, vy: 0 }, ARENA_RADIUS));
    assert!(is_out_of_bounds(&Ball { x: 4_300_000, y: 4_300_000, vx: 0, vy: 0 }, ARENA_RADIUS));
    assert!(!is_out_of_bounds(&Ball { x: 4_200_000, y: 4_200_000, vx: 0, vy: 0 }, ARENA_RADIUS));
}

#[test]
fn tick_moves_the_ball_inside_the_arena() {
    let mut s = state_with_ball(Ball { x: 5_850_000, y: 0, vx: 100_000, vy: 0 });
    assert!(!s.tick(quarter_turn()));
    assert_eq!(s.ball, Ball { x: 5_950_000, y: 0, vx: 100_000, vy: 0 });
}

#[test]
fn tick_keeps_a_ball_exactly_on_the_limit() {
    let mut s = state_with_ball(Ball { x: 5_900_000, y: 0, vx: 100_000, vy: 0 });
    assert!(!s.tick(quarter_turn()));
    assert_eq!(s.ball.x, 6_000_000);
}

#[test]
fn tick_resets_a_ball_that_leaves_the_arena() {
    let mut s = state_with_ball(Ball { x: 5_950_000, y: 0, vx: 100_000, vy: 0 });
    assert!(s.tick(quarter_turn()));
    assert_eq!(s.ball, Ball { x: 0, y: 0, vx: 0, vy: BALL_SPEED });
}

#[test]
fn ball_never_strays_past_the_margin_after_a_tick() {
    let mut s = GameState::new(heading(523_599, 866_025, 500_000));
    let limit = (ARENA_RADIUS + OUT_MARGIN) as i128;
    let mut resets = 0;
    for _ in 0..500 {
        if s.tick(heading(3_665_191, -866_025, -500_000)) {
            resets += 1;
        }
        assert!(dist_sq(&s.ball) <= limit * limit);
    }
    assert!(resets >= 1);
}

#[test]
fn new_game_has_default_arena_and_no_players() {
    let s = GameState::new(Heading::zero());
    assert_eq!(s.arena_radius, ARENA_RADIUS);
    assert_eq!(s.ball, Ball { x: 0, y: 0, vx: BALL_SPEED, vy: 0 });
    assert_eq!(s.player_count(), 0);
}

#[test]
fn player_count_follows_joins_and_leaves() {
    let mut s = GameState::new(Heading::zero());
    s.add_player(1);
    s.add_player(2);
    s.add_player(2);
    assert_eq!(s.player_count(), 2);
    s.remove_player(&9);
    assert_eq!(s.player_count(), 2);
    s.remove_player(&1);
    s.remove_player(&1);
    assert_eq!(s.player_count(), 1);
    s.add_player(3);
    assert_eq!(s.snapshot().player_count(), 2);
}

#[test]
fn repeated_join_resets_the_player() {
    let mut s = GameState::new(Heading::zero());
    s.add_player(4);
    s.update_player_paddle(4, quarter_turn());
    s.add_player(4);
    let p = s.players[&4];
    assert_eq!((p.paddle_x, p.paddle_y, p.paddle_rot), (ARENA_RADIUS, 0, 0));
}

#[test]
fn update_of_an_absent_player_changes_nothing() {
    let mut s = GameState::new(Heading::zero());
    s.add_player(1);
    s.update_player_paddle(2, quarter_turn());
    assert_eq!(s.player_count(), 1);
    assert_eq!(s.players[&1].paddle_x, ARENA_RADIUS);
}

#[test]
fn join_move_leave_scenario() {
    let mut s = GameState::new(Heading::zero());
    s.add_player(1);
    s.tick(Heading::zero());
    let snap = s.snapshot();
    assert_eq!(snap.players[&1].paddle_x, snap.arena_radius);
    assert_eq!(snap.players[&1].paddle_y, 0);

    s.update_player_paddle(1, quarter_turn());
    s.tick(Heading::zero());
    let snap = s.snapshot();
    assert!(snap.players[&1].paddle_x.abs() <= 1);
    assert_eq!(snap.players[&1].paddle_y, snap.arena_radius);

    s.remove_player(&1);
    s.tick(Heading::zero());
    assert!(!s.snapshot().players.contains_key(&1));
}

#[test]
fn updates_for_two_players_both_take_effect() {
    let a = quarter_turn();
    let b = heading(3_141_593, -1_000_000, 0);
    for a_first in [true, false] {
        let mut s = GameState::new(Heading::zero());
        s.add_player(10);
        s.add_player(20);
        if a_first {
            s.update_player_paddle(10, a);
            s.update_player_paddle(20, b);
        } else {
            s.update_player_paddle(20, b);
            s.update_player_paddle(10, a);
        }
        let snap = s.snapshot();
        assert_eq!(snap.players[&10].paddle_y, ARENA_RADIUS);
        assert_eq!(snap.players[&20].paddle_x, -ARENA_RADIUS);
        assert_eq!(snap.players[&20].paddle_rot, 3_141_593);
    }
}
