use vstd::prelude::*;
use crate::geom::Point;

verus! {

/// Columns of bricks.
pub const BRICK_X_COUNT: usize = 5;

/// Rows of bricks.
pub const BRICK_Y_COUNT: usize = 4;

/// Bricks in the whole grid.
pub const BRICK_COUNT: usize = BRICK_X_COUNT * BRICK_Y_COUNT;

/// Horizontal gap between bricks, in pixels.
pub const BRICK_X_SPACE: usize = 2;

/// Brick width in pixels.
pub const BRICK_W: usize = 13;

/// Brick height in pixels.
pub const BRICK_H: usize = 3;

/// Horizontal offset that centres the brick rows in the play width.
pub const BRICK_X_OFFSET: usize = (84 - (BRICK_X_COUNT * BRICK_W + (BRICK_X_COUNT - 1)
    * BRICK_X_SPACE)) / 2;

/// Top offset of the first brick row, in pixels.
pub const BRICK_Y_OFFSET: usize = 3;

/// Ball width in pixels.
pub const BALL_W: usize = 2;

/// Ball height in pixels.
pub const BALL_H: usize = 2;

/// The ball's box lies fully inside the brick's box (containment, not
/// mere overlap).
pub open spec fn brick_contains(pos: Point, ball: Point) -> bool {
    &&& ball.x >= pos.x
    &&& ball.y >= pos.y
    &&& ball.x + BALL_W <= pos.x + BRICK_W
    &&& ball.y + BALL_H <= pos.y + BRICK_H
}

/// Top-left pixel of brick `k` in the scan order (column-major: `k / 4`
/// is the column, `k % 4` the row).
pub open spec fn brick_pos(k: int) -> Point {
    Point {
        x: ((k / 4) * (BRICK_W + BRICK_X_SPACE) + BRICK_X_OFFSET) as i32,
        y: ((k % 4) * 5 + BRICK_Y_OFFSET) as i32,
    }
}

/// Absolute value.
pub open spec fn iabs(v: int) -> int {
    if v < 0 {
        -v
    } else {
        v
    }
}

/// Which axis a hit on brick `k` reflects: the one with the larger
/// absolute centre-to-centre offset; ties go to the vertical axis.
pub open spec fn reflects_x(k: int, ball: Point) -> bool {
    iabs(brick_pos(k).x + BRICK_W / 2 - (ball.x + BALL_W / 2)) > iabs(
        brick_pos(k).y + BRICK_H / 2 - (ball.y + BALL_H / 2),
    )
}

/// One cell of the brick grid: a one-shot destructible flag.
#[derive(Clone, Copy, Debug, PartialEq, Eq, Structural)]
pub struct Brick {
    pub active: bool,
}

impl Brick {
    /// Whether a brick at `pos` fully contains the ball at `ball`.
    pub fn check_collision(pos: Point, ball: Point) -> (r: bool)
        ensures
            r == brick_contains(pos, ball),
    {
        ball.x as i64 >= pos.x as i64 && ball.y as i64 >= pos.y as i64 && ball.x as i64
            + BALL_W as i64 <= pos.x as i64 + BRICK_W as i64 && ball.y as i64 + BALL_H as i64
            <= pos.y as i64 + BRICK_H as i64
    }

    /// The screen position of the brick in column `x`, row `y`.
    pub fn actual_pos(x: usize, y: usize) -> (p: Point)
        requires
            x < BRICK_X_COUNT,
            y < BRICK_Y_COUNT,
        ensures
            p.x == x * (BRICK_W + BRICK_X_SPACE) + BRICK_X_OFFSET,
            p.y == y * 5 + BRICK_Y_OFFSET,
    {
        Point::new(
            (x as i32) * ((BRICK_W + BRICK_X_SPACE) as i32) + BRICK_X_OFFSET as i32,
            (y as i32) * 5 + BRICK_Y_OFFSET as i32,
        )
    }
}

/// The ball: its top-left pixel and a velocity of fixed magnitude.
pub struct Ball {
    pub pos: Point,
    pub vel: (i32, i32),
}

/// The velocity after the boundary checks of one tick: a component's sign
/// flips when the ball stands at (or past) the corresponding playfield
/// edge, before the ball moves.
pub open spec fn bounced_vel(b: Ball) -> (int, int) {
    (
        if b.pos.x >= 84 - BALL_W || b.pos.x <= 1 {
            -(b.vel.0 as int)
        } else {
            b.vel.0 as int
        },
        if b.pos.y >= 48 - BALL_H || b.pos.y <= 1 {
            -(b.vel.1 as int)
        } else {
            b.vel.1 as int
        },
    )
}

/// Where one tick's positional update puts the ball.
pub open spec fn bounced_pos(b: Ball) -> (int, int) {
    (b.pos.x + bounced_vel(b).0, b.pos.y + bounced_vel(b).1)
}

impl Ball {
    /// Speed magnitude is fixed at (2, 1); the position stays on the
    /// playfield; at an edge the velocity already points back inside.
    pub open spec fn wf(self) -> bool {
        &&& (self.vel.0 == 2 || self.vel.0 == -2)
        &&& (self.vel.1 == 1 || self.vel.1 == -1)
        &&& 0 <= self.pos.x <= 83
        &&& 1 <= self.pos.y <= 46
        &&& (self.pos.x >= 82 ==> self.vel.0 == 2)
        &&& (self.pos.x <= 1 ==> self.vel.0 == -2)
        &&& (self.pos.y >= 46 ==> self.vel.1 == 1)
        &&& (self.pos.y <= 1 ==> self.vel.1 == -1)
    }

    /// The serve position and heading.
    pub fn new() -> (b: Ball)
        ensures
            b.wf(),
            b.pos == (Point { x: 42, y: 45 }),
            b.vel.0 == 2 && b.vel.1 == -1,
    {
        Ball { pos: Point::new(84 / 2, 45), vel: (2, -1) }
    }

    /// One kinematic tick: reflect at the playfield edges (using the
    /// pre-move position, so the ball never leaves the field), then move
    /// by the resulting velocity.
    pub fn update(&mut self)
        requires
            old(self).wf(),
        ensures
            final(self).wf(),
            final(self).vel.0 == bounced_vel(*old(self)).0,
            final(self).vel.1 == bounced_vel(*old(self)).1,
            final(self).pos.x == bounced_pos(*old(self)).0,
            final(self).pos.y == bounced_pos(*old(self)).1,
    {
        if self.pos.x >= 84 - BALL_W as i32 {
            self.reflect_x();
        }
        if self.pos.x <= 1 {
            self.reflect_x();
        }
        if self.pos.y >= 48 - BALL_H as i32 {
            self.reflect_y();
        }
        if self.pos.y <= 1 {
            self.reflect_y();
        }
        self.pos.x += self.vel.0;
        self.pos.y += self.vel.1;
    }

    /// Flips the horizontal velocity component.
    pub fn reflect_x(&mut self)
        requires
            old(self).vel.0 > i32::MIN,
        ensures
            final(self).vel.0 == -old(self).vel.0,
            final(self).vel.1 == old(self).vel.1,
            final(self).pos == old(self).pos,
    {
        self.vel.0 *= -1;
    }

    /// Flips the vertical velocity component.
    pub fn reflect_y(&mut self)
        requires
            old(self).vel.1 > i32::MIN,
        ensures
            final(self).vel.1 == -old(self).vel.1,
            final(self).vel.0 == old(self).vel.0,
            final(self).pos == old(self).pos,
    {
        self.vel.1 *= -1;
    }
}

/// Whether brick `k` is hit this tick: still active and fully containing
/// the ball at its post-move position.
pub open spec fn brick_hit(b: Seq<Brick>, k: int, ball: Point) -> bool {
    b[k].active && brick_contains(brick_pos(k), ball)
}

/// How many of the first `n` bricks hit this tick reflect the horizontal
/// axis. Each hit flips independently, so an even count cancels out.
pub open spec fn x_flips(b: Seq<Brick>, ball: Point, n: int) -> int
    decreases n,
{
    if n <= 0 {
        0
    } else {
        x_flips(b, ball, n - 1) + (if brick_hit(b, n - 1, ball) && reflects_x(n - 1, ball) {
            1int
        } else {
            0int
        })
    }
}

/// How many of the first `n` bricks hit this tick reflect the vertical
/// axis.
pub open spec fn y_flips(b: Seq<Brick>, ball: Point, n: int) -> int
    decreases n,
{
    if n <= 0 {
        0
    } else {
        y_flips(b, ball, n - 1) + (if brick_hit(b, n - 1, ball) && !reflects_x(n - 1, ball) {
            1int
        } else {
            0int
        })
    }
}

/// A ball that no brick can contain sees no flips.
proof fn lemma_outside_bricks_no_flips(b: Seq<Brick>, ball: Point, n: int)
    requires
        forall|k: int| 0 <= k < n ==> !brick_contains(brick_pos(k), ball),
    ensures
        x_flips(b, ball, n) == 0,
        y_flips(b, ball, n) == 0,
    decreases n,
{
    if n > 0 {
        lemma_outside_bricks_no_flips(b, ball, n - 1);
    }
}

/// The ball-and-bricks game: a one-shot destructible brick grid and an
/// autonomously bouncing ball. Rendering and pacing stay outside; the
/// engine itself never reaches a terminal state.
pub struct Breakout {
    pub bricks: Vec<Brick>,
    pub ball: Ball,
}

impl Breakout {
    pub open spec fn wf(self) -> bool {
        &&& self.bricks@.len() == BRICK_COUNT
        &&& self.ball.wf()
    }

    /// A fresh game: every brick active, the ball at its serve position.
    pub fn new() -> (g: Breakout)
        ensures
            g.wf(),
            forall|k: int| 0 <= k < BRICK_COUNT ==> (#[trigger] g.bricks@[k]).active,
            g.ball.pos == (Point { x: 42, y: 45 }),
            g.ball.vel.0 == 2 && g.ball.vel.1 == -1,
    {
        let mut bricks: Vec<Brick> = Vec::new();
        let mut k: usize = 0;
        while k < BRICK_COUNT
            invariant
                k <= BRICK_COUNT,
                bricks@.len() == k,
                forall|i: int| 0 <= i < k ==> (#[trigger] bricks@[i]).active,
            decreases BRICK_COUNT - k,
        {
            bricks.push(Brick { active: true });
            k += 1;
        }
        Breakout { bricks, ball: Ball::new() }
    }

    /// One tick: the ball bounces off the playfield edges and moves; then
    /// every brick that fully contains it is deactivated for good, each
    /// hit reflecting the axis with the larger centre offset. The engine
    /// never ends the game on its own, so the tick always reports `true`.
    #[verifier::loop_isolation(false)]
    pub fn update(&mut self) -> (r: bool)
        requires
            old(self).wf(),
        ensures
            r == true,
            final(self).wf(),
            ({
                let p = Point {
                    x: bounced_pos(old(self).ball).0 as i32,
                    y: bounced_pos(old(self).ball).1 as i32,
                };
                let b0 = old(self).bricks@;
                &&& final(self).ball.pos == p
                &&& forall|k: int|
                    0 <= k < BRICK_COUNT ==> (#[trigger] final(self).bricks@[k]).active == (
                    b0[k].active && !brick_contains(brick_pos(k), p))
                &&& forall|k: int|
                    0 <= k < BRICK_COUNT && !b0[k].active
                        ==> !(#[trigger] final(self).bricks@[k]).active
                &&& final(self).ball.vel.0 == (if x_flips(b0, p, BRICK_COUNT as int) % 2 == 1 {
                    -bounced_vel(old(self).ball).0
                } else {
                    bounced_vel(old(self).ball).0
                })
                &&& final(self).ball.vel.1 == (if y_flips(b0, p, BRICK_COUNT as int) % 2 == 1 {
                    -bounced_vel(old(self).ball).1
                } else {
                    bounced_vel(old(self).ball).1
                })
            }),
    {
        self.ball.update();
        let ghost p = self.ball.pos;
        let ghost b0 = self.bricks@;
        let ghost v1 = self.ball.vel;
        let mut k: usize = 0;
        while k < BRICK_COUNT
            invariant
                k <= BRICK_COUNT,
                self.bricks@.len() == BRICK_COUNT,
                self.ball.pos == p,
                forall|i: int|
                    0 <= i < BRICK_COUNT ==> (#[trigger] self.bricks@[i]).active == (b0[i].active
                        && !(i < k && brick_contains(brick_pos(i), p))),
                self.ball.vel.0 == (if x_flips(b0, p, k as int) % 2 == 1 {
                    -(v1.0 as int)
                } else {
                    v1.0 as int
                }),
                self.ball.vel.1 == (if y_flips(b0, p, k as int) % 2 == 1 {
                    -(v1.1 as int)
                } else {
                    v1.1 as int
                }),
            decreases BRICK_COUNT - k,
        {
            if self.bricks[k].active {
                let x = k / 4;
                let y = k % 4;
                let pos = Brick::actual_pos(x, y);
                if Brick::check_collision(pos, self.ball.pos) {
                    self.bricks[k] = Brick { active: false };

                    let xo = pos.x + (BRICK_W as i32) / 2 - (self.ball.pos.x + (BALL_W as i32) / 2);
                    let yo = pos.y + (BRICK_H as i32) / 2 - (self.ball.pos.y + (BALL_H as i32) / 2);
                    let xo_abs = if xo < 0 {
                        -xo
                    } else {
                        xo
                    };
                    let yo_abs = if yo < 0 {
                        -yo
                    } else {
                        yo
                    };
                    if xo_abs > yo_abs {
                        self.ball.reflect_x();
                    } else {
                        self.ball.reflect_y();
                    }
                }
            }
            k += 1;
        }
        proof {
            if p.x >= 82 || p.x <= 1 || p.y >= 46 || p.y <= 1 {
                assert forall|i: int| 0 <= i < BRICK_COUNT as int implies !brick_contains(
                    brick_pos(i),
                    p,
                ) by {
                    lemma_brick_zone(i);
                }
                lemma_outside_bricks_no_flips(b0, p, BRICK_COUNT as int);
            }
        }
        true
    }
}

/// Every brick lies in the band x in [5, 65], y in [3, 18], so a ball
/// containable by a brick has x in [5, 76] and y in [3, 19].
proof fn lemma_brick_zone(k: int)
    requires
        0 <= k < BRICK_COUNT,
    ensures
        5 <= brick_pos(k).x <= 65,
        3 <= brick_pos(k).y <= 18,
{
    vstd::arithmetic::div_mod::lemma_mod_division_less_than_divisor(k, 4);
    assert(0 <= k / 4 <= 4) by {
        vstd::arithmetic::div_mod::lemma_div_is_ordered(0, k, 4);
        vstd::arithmetic::div_mod::lemma_div_is_ordered(k, 19, 4);
        vstd::arithmetic::div_mod::lemma_fundamental_div_mod_converse(19, 4, 4, 3);
        vstd::arithmetic::div_mod::lemma_div_of0(4);
    }
}

} // verus!
