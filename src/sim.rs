use crate::fixed::{rounded, rounded_product, scaled, scaled_product, unit_pair, Heading, SCALE};
use vstd::arithmetic::div_mod::{lemma_fundamental_div_mod, lemma_mod_pos_bound};
use std::collections::HashMap;
use vstd::prelude::*;

verus! {

/// Radius of the arena that a new game starts with (5 distance units).
pub const ARENA_RADIUS: i64 = 5_000_000;

/// Largest arena radius the state supports (1000 distance units).
pub const MAX_ARENA_RADIUS: i64 = 1_000_000_000;

/// Speed of the ball in units per tick (0.1 distance units).
pub const BALL_SPEED: i64 = 100_000;

/// How far past the arena's edge the ball may travel before it is reset (1 distance unit).
pub const OUT_MARGIN: i64 = 1_000_000;

/// An arena radius the fixed-point arithmetic can hold.
pub open spec fn radius_ok(r: int) -> bool {
    0 <= r <= MAX_ARENA_RADIUS
}

/// A paddle on the rim of the arena.
#[derive(Clone, Copy, Debug, PartialEq, Eq, Structural)]
pub struct Player {
    pub paddle_position: Heading,
    pub paddle_x: i64,
    pub paddle_y: i64,
    pub paddle_rot: i64,
}

/// The paddle's Cartesian place for an arena of radius `r`, as `(x, y, rot)`.
pub open spec fn paddle_place(h: Heading, r: int) -> (int, int, int) {
    (scaled(h.cos as int, r), scaled(h.sin as int, r), h.angle as int)
}

/// A player whose paddle stands at `h` in an arena of radius `r`.
pub open spec fn placed_player(h: Heading, r: int) -> Player {
    Player {
        paddle_position: h,
        paddle_x: paddle_place(h, r).0 as i64,
        paddle_y: paddle_place(h, r).1 as i64,
        paddle_rot: paddle_place(h, r).2 as i64,
    }
}

impl Player {
    /// The derived coordinates agree with the paddle's heading for radius `r`.
    pub open spec fn wf(self, r: int) -> bool {
        &&& self.paddle_position.wf()
        &&& self.paddle_x == paddle_place(self.paddle_position, r).0
        &&& self.paddle_y == paddle_place(self.paddle_position, r).1
        &&& self.paddle_rot == paddle_place(self.paddle_position, r).2
    }

    /// A paddle at angle zero whose coordinates are not yet computed.
    pub fn new() -> (p: Player)
        ensures
            p == (Player {
                paddle_position: Heading { angle: 0, cos: SCALE, sin: 0 },
                paddle_x: 0,
                paddle_y: 0,
                paddle_rot: 0,
            }),
            p.paddle_position.wf(),
    {
        Player { paddle_position: Heading::zero(), paddle_x: 0, paddle_y: 0, paddle_rot: 0 }
    }

    /// Recomputes the paddle's Cartesian position and rotation from its heading.
    pub fn recalculate_coordinates(&mut self, arena_radius: i64)
        requires
            old(self).paddle_position.wf(),
            radius_ok(arena_radius as int),
        ensures
            *final(self) == placed_player(old(self).paddle_position, arena_radius as int),
            final(self).wf(arena_radius as int),
    {
        self.paddle_x = scaled_product(arena_radius, self.paddle_position.cos);
        self.paddle_y = scaled_product(arena_radius, self.paddle_position.sin);
        self.paddle_rot = self.paddle_position.angle;
        proof {
            lemma_scaled_commutes(arena_radius as int, self.paddle_position.cos as int);
            lemma_scaled_commutes(arena_radius as int, self.paddle_position.sin as int);
        }
    }
}

proof fn lemma_scaled_commutes(a: int, b: int)
    ensures
        scaled(a, b) == scaled(b, a),
{
    assert(a * b == b * a) by (nonlinear_arith);
}

/// The ball: position and velocity, in fixed-point units and units per tick.
#[derive(Clone, Copy, Debug, PartialEq, Eq, Structural)]
pub struct Ball {
    pub x: i64,
    pub y: i64,
    pub vx: i64,
    pub vy: i64,
}

/// The ball at the centre, heading along `h` at `BALL_SPEED`.
pub open spec fn reset_ball(h: Heading) -> Ball {
    Ball {
        x: 0,
        y: 0,
        vx: rounded(BALL_SPEED as int, h.cos as int) as i64,
        vy: rounded(BALL_SPEED as int, h.sin as int) as i64,
    }
}

/// The ball one step on: velocity added to position.
pub open spec fn advanced(b: Ball) -> Ball {
    Ball { x: (b.x + b.vx) as i64, y: (b.y + b.vy) as i64, ..b }
}

pub open spec fn dist_sq(b: Ball) -> int {
    b.x * b.x + b.y * b.y
}

pub open spec fn speed_sq(b: Ball) -> int {
    b.vx * b.vx + b.vy * b.vy
}

/// The ball is farther than `r + OUT_MARGIN` from the centre.
pub open spec fn out_of_bounds(b: Ball, r: int) -> bool {
    dist_sq(b) > (r + OUT_MARGIN) * (r + OUT_MARGIN)
}

/// The speed is `BALL_SPEED` to within one unit (a millionth of a distance unit).
pub open spec fn speed_is_constant(b: Ball) -> bool {
    (BALL_SPEED - 1) * (BALL_SPEED - 1) <= speed_sq(b) <= (BALL_SPEED + 1) * (BALL_SPEED + 1)
}

impl Ball {
    /// Inside the slack ring of an arena of radius `r`, with a bounded velocity.
    pub open spec fn wf(self, r: int) -> bool {
        &&& -BALL_SPEED <= self.vx <= BALL_SPEED
        &&& -BALL_SPEED <= self.vy <= BALL_SPEED
        &&& !out_of_bounds(self, r)
    }

    /// A ball at the centre, heading along `h`.
    pub fn new(h: Heading) -> (b: Ball)
        requires
            h.wf(),
        ensures
            b == reset_ball(h),
            b.wf(0),
            speed_is_constant(b),
    {
        let mut ball = Ball { x: 0, y: 0, vx: 0, vy: 0 };
        ball.reset(h);
        ball
    }

    /// Puts the ball back at the centre and sends it along `h` at `BALL_SPEED`.
    pub fn reset(&mut self, h: Heading)
        requires
            h.wf(),
        ensures
            *final(self) == reset_ball(h),
            final(self).wf(0),
            speed_is_constant(*final(self)),
    {
        self.x = 0;
        self.y = 0;
        self.vx = rounded_product(BALL_SPEED, h.cos);
        self.vy = rounded_product(BALL_SPEED, h.sin);
        proof {
            lemma_reset_speed(h);
            lemma_tenth(h.cos as int);
            lemma_tenth(h.sin as int);
            assert(dist_sq(*self) == 0);
        }
    }

    /// Moves the ball by its velocity.
    pub fn update_position(&mut self)
        requires
            i64::MIN <= old(self).x + old(self).vx <= i64::MAX,
            i64::MIN <= old(self).y + old(self).vy <= i64::MAX,
        ensures
            *final(self) == advanced(*old(self)),
    {
        self.x = self.x + self.vx;
        self.y = self.y + self.vy;
    }
}

/// `rounded(BALL_SPEED, c)` is `c / 10` rounded to nearest: ten times it is
/// within 5 of `c`.
proof fn lemma_tenth(c: int)
    requires
        -SCALE <= c <= SCALE,
    ensures
        ({
            let v = rounded(BALL_SPEED as int, c);
            &&& -5 <= 10 * v - c <= 5
            &&& -BALL_SPEED <= v <= BALL_SPEED
        }),
{
    let v = rounded(BALL_SPEED as int, c);
    if c >= 0 {
        let n = BALL_SPEED * c + SCALE / 2;
        let q = n / (SCALE as int);
        assert((BALL_SPEED as int) * c >= 0) by (nonlinear_arith) requires c >= 0, BALL_SPEED == 100_000;
        assert(v == q);
        lemma_fundamental_div_mod(n, SCALE as int);
        lemma_mod_pos_bound(n, SCALE as int);
        assert(-5 <= 10 * q - c <= 5 && q <= BALL_SPEED) by (nonlinear_arith)
            requires
                n == 100_000 * c + 500_000,
                n == 1_000_000 * q + n % 1_000_000,
                0 <= n % 1_000_000 < 1_000_000,
                c <= 1_000_000,
                BALL_SPEED == 100_000,
        ;
    } else {
        let n = BALL_SPEED * (-c) + SCALE / 2;
        let q = n / (SCALE as int);
        assert((BALL_SPEED as int) * c < 0 && -((BALL_SPEED as int) * c) == BALL_SPEED * (-c))
            by (nonlinear_arith) requires c < 0, BALL_SPEED == 100_000;
        assert(v == -q);
        lemma_fundamental_div_mod(n, SCALE as int);
        lemma_mod_pos_bound(n, SCALE as int);
        let m = -c;
        let rem = n % 1_000_000;
        assert(n == 100_000 * m + 500_000);
        assert(-5 <= 10 * q - m <= 5 && q <= BALL_SPEED && q >= 0) by (nonlinear_arith)
            requires
                n == 100_000 * m + 500_000,
                n == 1_000_000 * q + rem,
                0 <= rem < 1_000_000,
                0 < m <= 1_000_000,
                BALL_SPEED == 100_000,
        ;
    }
}

proof fn lemma_square_of_sum(p: int, q: int)
    ensures
        (p + q) * (p + q) == p * p + 2 * (p * q) + q * q,
        (p - q) * (p - q) == p * p - 2 * (p * q) + q * q,
{
    assert((p + q) * (p + q) == p * p + 2 * (p * q) + q * q) by (nonlinear_arith);
    assert((p - q) * (p - q) == p * p - 2 * (p * q) + q * q) by (nonlinear_arith);
}

proof fn lemma_product_of_sums(p: int, q: int, u: int, w: int)
    ensures
        (p + q) * (u + w) == p * u + p * w + q * u + q * w,
{
    assert((p + q) * (u + w) == p * u + p * w + q * u + q * w) by (nonlinear_arith);
}

proof fn lemma_regroup(a: int, b: int, x: int, y: int)
    ensures
        (a * x) * (b * y) == (a * y) * (b * x),
        (a * x) * (a * x) == (a * a) * (x * x),
{
    vstd::arithmetic::mul::lemma_mul_is_associative(a, x, b * y);
    vstd::arithmetic::mul::lemma_mul_is_associative(x, b, y);
    vstd::arithmetic::mul::lemma_mul_is_commutative(x, b);
    vstd::arithmetic::mul::lemma_mul_is_associative(b, x, y);
    vstd::arithmetic::mul::lemma_mul_is_commutative(x, y);
    vstd::arithmetic::mul::lemma_mul_is_associative(b, y, x);
    vstd::arithmetic::mul::lemma_mul_is_commutative(b, y);
    vstd::arithmetic::mul::lemma_mul_is_associative(y, b, x);
    vstd::arithmetic::mul::lemma_mul_is_associative(a, y, b * x);
    vstd::arithmetic::mul::lemma_mul_is_associative(a, x, a * x);
    vstd::arithmetic::mul::lemma_mul_is_associative(x, a, x);
    vstd::arithmetic::mul::lemma_mul_is_commutative(x, a);
    vstd::arithmetic::mul::lemma_mul_is_associative(a, x, x);
    vstd::arithmetic::mul::lemma_mul_is_associative(a, a, x * x);
}

/// Lagrange's identity for two pairs: the gap in the Cauchy-Schwarz inequality is a square.
proof fn lemma_two_square_identity(a: int, b: int, x: int, y: int)
    ensures
        (a * a + b * b) * (x * x + y * y) - (a * x + b * y) * (a * x + b * y) == (a * y - b * x) * (
        a * y - b * x),
{
    lemma_product_of_sums(a * a, b * b, x * x, y * y);
    lemma_square_of_sum(a * x, b * y);
    lemma_square_of_sum(a * y, b * x);
    lemma_regroup(a, b, x, y);
    lemma_regroup(a, b, y, x);
    lemma_regroup(b, a, y, x);
    lemma_regroup(b, a, x, y);
}

/// A reset ball moves at `BALL_SPEED` to within one unit, whatever heading it was
/// given: the heading's slack and the rounding of each component move the speed
/// by less than that.
pub proof fn lemma_reset_speed(h: Heading)
    requires
        h.wf(),
    ensures
        speed_is_constant(reset_ball(h)),
{
    let c = h.cos as int;
    let s = h.sin as int;
    lemma_tenth(c);
    lemma_tenth(s);
    let b = reset_ball(h);
    let vx = b.vx as int;
    let vy = b.vy as int;
    assert(unit_pair(c, s));
    let ex = 10 * vx - c;
    let ey = 10 * vy - s;
    let d = c * ex + s * ey;
    lemma_two_square_identity(c, s, ex, ey);
    assert(0 <= ex * ex + ey * ey <= 50) by (nonlinear_arith)
        requires -5 <= ex <= 5, -5 <= ey <= 5;
    assert(0 <= c * c + s * s) by (nonlinear_arith);
    assert((c * c + s * s) * (ex * ex + ey * ey) <= 1_000_004_000_000 * 50) by (nonlinear_arith)
        requires
            0 <= c * c + s * s <= 1_000_004_000_000,
            0 <= ex * ex + ey * ey <= 50,
    ;
    assert(0 <= (c * ey - s * ex) * (c * ey - s * ex)) by (nonlinear_arith);
    assert(-7_100_000 <= d <= 7_100_000) by (nonlinear_arith)
        requires d * d <= 50_000_200_000_000;
    assert(100 * (vx * vx + vy * vy) == c * c + s * s + 2 * d + ex * ex + ey * ey) by (nonlinear_arith)
        requires ex == 10 * vx - c, ey == 10 * vy - s, d == c * ex + s * ey;
    assert(speed_sq(b) == vx * vx + vy * vy);
}

/// Whether the ball is farther than `arena_radius + OUT_MARGIN` from the centre.
pub fn is_out_of_bounds(ball: &Ball, arena_radius: i64) -> (r: bool)
    requires
        -2_000_000_000 <= ball.x <= 2_000_000_000,
        -2_000_000_000 <= ball.y <= 2_000_000_000,
        radius_ok(arena_radius as int),
    ensures
        r == out_of_bounds(*ball, arena_radius as int),
{
    let x = ball.x as i128;
    let y = ball.y as i128;
    let limit = (arena_radius as i128) + (OUT_MARGIN as i128);
    assert(0 <= x * x <= 4_000_000_000_000_000_000 && 0 <= y * y <= 4_000_000_000_000_000_000)
        by (nonlinear_arith)
        requires -2_000_000_000 <= x <= 2_000_000_000, -2_000_000_000 <= y <= 2_000_000_000;
    assert(0 <= limit * limit <= 4_000_000_000_000_000_000) by (nonlinear_arith)
        requires 0 <= limit <= 2_000_000_000;
    x * x + y * y > limit * limit
}

/// A ball inside the slack ring is no farther than its radius along either axis.
proof fn lemma_within_ring(b: Ball, r: int)
    requires
        radius_ok(r),
        !out_of_bounds(b, r),
    ensures
        -(r + OUT_MARGIN) <= b.x <= r + OUT_MARGIN,
        -(r + OUT_MARGIN) <= b.y <= r + OUT_MARGIN,
{
    let m = r + OUT_MARGIN;
    assert(-m <= b.x <= m && -m <= b.y <= m) by (nonlinear_arith)
        requires b.x * b.x + b.y * b.y <= m * m, m >= 0;
}

/// A ball at the centre lies inside every arena.
proof fn lemma_centre_inside(b: Ball, r: int)
    requires
        b.x == 0 && b.y == 0,
        radius_ok(r),
    ensures
        !out_of_bounds(b, r),
{
    assert(dist_sq(b) == 0);
    assert((r + OUT_MARGIN) * (r + OUT_MARGIN) >= 0) by (nonlinear_arith);
}

/// The ball after one tick of an arena of radius `r`: moved on, and reset along
/// `fresh` when that took it out of bounds.
pub open spec fn ticked(b: Ball, r: int, fresh: Heading) -> Ball {
    if out_of_bounds(advanced(b), r) {
        reset_ball(fresh)
    } else {
        advanced(b)
    }
}

/// The whole simulated world: arena, ball and players by identifier.
#[derive(Clone, Debug)]
pub struct GameState {
    pub arena_radius: i64,
    pub ball: Ball,
    pub players: HashMap<u128, Player>,
}

impl GameState {
    /// The radius is supported, the ball lies inside the slack ring and moves at
    /// the fixed speed, and every player's coordinates agree with its heading.
    pub open spec fn wf(&self) -> bool {
        &&& radius_ok(self.arena_radius as int)
        &&& self.ball.wf(self.arena_radius as int)
        &&& speed_is_constant(self.ball)
        &&& forall|id: u128| #[trigger] self.players@.contains_key(id)
            ==> self.players@[id].wf(self.arena_radius as int)
    }

    /// A new game: the default arena, the ball at the centre heading along
    /// `heading`, and no players.
    pub fn new(heading: Heading) -> (s: GameState)
        requires
            heading.wf(),
        ensures
            s.wf(),
            s.arena_radius == ARENA_RADIUS,
            s.ball == reset_ball(heading),
            speed_is_constant(s.ball),
            s.players@ == Map::<u128, Player>::empty(),
    {
        let ball = Ball::new(heading);
        proof {
            lemma_centre_inside(ball, ARENA_RADIUS as int);
        }
        GameState { arena_radius: ARENA_RADIUS, ball, players: HashMap::new() }
    }

    /// Advances the ball by one tick: it moves by its velocity, and is reset along
    /// `fresh` when that takes it farther than `arena_radius + OUT_MARGIN` from the
    /// centre. Returns whether it was reset.
    pub fn tick(&mut self, fresh: Heading) -> (was_reset: bool)
        requires
            old(self).wf(),
            fresh.wf(),
        ensures
            final(self).wf(),
            final(self).ball == ticked(old(self).ball, old(self).arena_radius as int, fresh),
            was_reset == out_of_bounds(advanced(old(self).ball), old(self).arena_radius as int),
            !out_of_bounds(final(self).ball, final(self).arena_radius as int),
            speed_is_constant(final(self).ball),
            final(self).arena_radius == old(self).arena_radius,
            final(self).players@ == old(self).players@,
    {
        proof {
            lemma_within_ring(self.ball, self.arena_radius as int);
        }
        self.ball.update_position();
        let out = is_out_of_bounds(&self.ball, self.arena_radius);
        if out {
            self.ball.reset(fresh);
            proof {
                lemma_centre_inside(self.ball, self.arena_radius as int);
            }
        }
        out
    }

    /// Joins player `id` with its paddle at angle zero; a player already under
    /// `id` is replaced.
    pub fn add_player(&mut self, id: u128)
        requires
            old(self).wf(),
        ensures
            final(self).wf(),
            final(self).players@.dom() == roster_step(old(self).players@.dom(), RosterChange::Join(id)),
            final(self).players@ == old(self).players@.insert(
                id,
                placed_player(Heading { angle: 0, cos: SCALE, sin: 0 }, old(self).arena_radius as int),
            ),
            final(self).arena_radius == old(self).arena_radius,
            final(self).ball == old(self).ball,
    {
        broadcast use vstd::std_specs::hash::group_hash_axioms;

        let mut player = Player::new();
        player.recalculate_coordinates(self.arena_radius);
        self.players.insert(id, player);
        assert(self.players@.dom() =~= old(self).players@.dom().insert(id));
    }

    /// Removes player `id`; nothing happens when there is none.
    pub fn remove_player(&mut self, id: &u128)
        requires
            old(self).wf(),
        ensures
            final(self).wf(),
            final(self).players@ == old(self).players@.remove(*id),
            final(self).players@.dom() == roster_step(old(self).players@.dom(), RosterChange::Leave(*id)),
            final(self).arena_radius == old(self).arena_radius,
            final(self).ball == old(self).ball,
    {
        broadcast use vstd::std_specs::hash::group_hash_axioms;

        self.players.remove(id);
        assert(self.players@.dom() =~= old(self).players@.dom().remove(*id));
    }

    /// Turns player `id`'s paddle to `heading` and recomputes its coordinates;
    /// nothing happens when there is no such player.
    pub fn update_player_paddle(&mut self, id: u128, heading: Heading)
        requires
            old(self).wf(),
            heading.wf(),
        ensures
            final(self).wf(),
            final(self).players@ == with_paddle(old(self).players@, id, heading, old(self).arena_radius as int),
            final(self).arena_radius == old(self).arena_radius,
            final(self).ball == old(self).ball,
    {
        broadcast use vstd::std_specs::hash::group_hash_axioms;

        let arena_radius = self.arena_radius;
        match self.players.get(&id) {
            Some(current) => {
                let mut player = *current;
                player.paddle_position = heading;
                player.recalculate_coordinates(arena_radius);
                self.players.insert(id, player);
            },
            None => {},
        }
    }

    /// A copy of the whole state, to be handed to observers.
    pub fn snapshot(&self) -> (s: GameState)
        ensures
            s.arena_radius == self.arena_radius,
            s.ball == self.ball,
            s.players@ == self.players@,
    {
        GameState { arena_radius: self.arena_radius, ball: self.ball, players: self.players.clone() }
    }

    /// How many players are in the game.
    pub fn player_count(&self) -> (n: usize)
        ensures
            n == self.players@.len(),
    {
        broadcast use vstd::std_specs::hash::group_hash_axioms;

        self.players.len()
    }
}

/// The players after player `id`'s paddle is turned to `h` in an arena of radius
/// `r`; unchanged when there is no such player.
pub open spec fn with_paddle(players: Map<u128, Player>, id: u128, h: Heading, r: int) -> Map<u128, Player> {
    if players.contains_key(id) {
        players.insert(id, placed_player(h, r))
    } else {
        players
    }
}

/// Paddle updates for two different players give the same players in either
/// order, and each of them takes effect.
pub proof fn lemma_paddle_updates_commute(
    players: Map<u128, Player>,
    a: u128,
    ha: Heading,
    b: u128,
    hb: Heading,
    r: int,
)
    requires
        a != b,
    ensures
        with_paddle(with_paddle(players, a, ha, r), b, hb, r) == with_paddle(
            with_paddle(players, b, hb, r),
            a,
            ha,
            r,
        ),
        players.contains_key(a) ==> with_paddle(with_paddle(players, a, ha, r), b, hb, r)[a]
            == placed_player(ha, r),
        players.contains_key(b) ==> with_paddle(with_paddle(players, a, ha, r), b, hb, r)[b]
            == placed_player(hb, r),
{
    assert(with_paddle(with_paddle(players, a, ha, r), b, hb, r) =~= with_paddle(
        with_paddle(players, b, hb, r),
        a,
        ha,
        r,
    ));
}

/// One change to the set of players: a join or a leave of an identifier.
#[derive(Clone, Copy, Debug, PartialEq, Eq, Structural)]
pub enum RosterChange {
    Join(u128),
    Leave(u128),
}

/// The identifiers in the game after `c`: a join adds its identifier (once), a
/// leave takes it out (if it is there).
pub open spec fn roster_step(ids: Set<u128>, c: RosterChange) -> Set<u128> {
    match c {
        RosterChange::Join(id) => ids.insert(id),
        RosterChange::Leave(id) => ids.remove(id),
    }
}

/// The identifiers after the changes `cs`, in order, starting from `ids`.
pub open spec fn roster_after(ids: Set<u128>, cs: Seq<RosterChange>) -> Set<u128>
    decreases cs.len(),
{
    if cs.len() == 0 {
        ids
    } else {
        roster_after(roster_step(ids, cs[0]), cs.drop_first())
    }
}

/// Joins of an absent identifier minus leaves of a present one, along `cs`.
pub open spec fn net_joins(ids: Set<u128>, cs: Seq<RosterChange>) -> int
    decreases cs.len(),
{
    if cs.len() == 0 {
        0
    } else {
        let here = match cs[0] {
            RosterChange::Join(id) => if ids.contains(id) { 0int } else { 1int },
            RosterChange::Leave(id) => if ids.contains(id) { -1int } else { 0int },
        };
        here + net_joins(roster_step(ids, cs[0]), cs.drop_first())
    }
}

/// After any run of joins and leaves, the number of players is the number at the
/// start plus the joins minus the leaves, where a repeated join of a present
/// identifier and a leave of an absent one count for nothing.
pub proof fn lemma_roster_count(ids: Set<u128>, cs: Seq<RosterChange>)
    requires
        ids.finite(),
    ensures
        roster_after(ids, cs).finite(),
        roster_after(ids, cs).len() == ids.len() + net_joins(ids, cs),
    decreases cs.len(),
{
    if cs.len() > 0 {
        let next = roster_step(ids, cs[0]);
        lemma_roster_count(next, cs.drop_first());
    }
}

/// A run of `add_player` / `remove_player` calls: `rosters[i]` is the players
/// before call `i` and `rosters[i + 1]` after it, each call stepping as its
/// contract states. Then the last players are the identifiers that the run
/// leaves, and their number is the first number plus the net joins.
pub proof fn lemma_roster_run(rosters: Seq<Map<u128, Player>>, cs: Seq<RosterChange>)
    requires
        rosters.len() == cs.len() + 1,
        rosters[0].dom().finite(),
        forall|i: int| 0 <= i < cs.len() ==> #[trigger] rosters[i + 1].dom() == roster_step(
            rosters[i].dom(),
            cs[i],
        ),
    ensures
        rosters.last().dom() == roster_after(rosters[0].dom(), cs),
        rosters.last().dom().len() == rosters[0].dom().len() + net_joins(rosters[0].dom(), cs),
    decreases cs.len(),
{
    lemma_roster_count(rosters[0].dom(), cs);
    if cs.len() > 0 {
        let rest = rosters.drop_first();
        let more = cs.drop_first();
        assert(rest[0].dom() == roster_step(rosters[0].dom(), cs[0])) by {
            assert(rosters[0int + 1].dom() == roster_step(rosters[0int].dom(), cs[0int]));
        }
        assert forall|i: int| 0 <= i < more.len() implies #[trigger] rest[i + 1].dom() == roster_step(
            rest[i].dom(),
            more[i],
        ) by {
            assert(rosters[(i + 1) + 1].dom() == roster_step(rosters[i + 1].dom(), cs[i + 1]));
        }
        lemma_roster_run(rest, more);
        assert(rest.last() == rosters.last());
    }
}

/// Recomputing a paddle's coordinates depends only on its heading and the
/// radius: doing it again changes nothing.
pub proof fn lemma_recalculate_idempotent(h: Heading, r: int)
    ensures
        placed_player(placed_player(h, r).paddle_position, r) == placed_player(h, r),
{
}

} // verus!
