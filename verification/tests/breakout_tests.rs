use pico_games::breakout::{Ball, Breakout, Brick, BRICK_COUNT};
use pico_games::geom::Point;

fn pt(x: i32, y: i32) -> Point {
    Point::new(x, y)
}

fn fresh_bricks() -> Vec<Brick> {
    let mut v = Vec::new();
    for _ in 0..BRICK_COUNT {
        v.push(Brick { active: true });
    }
    v
}

#[test]
fn new_game_has_all_bricks_and_served_ball() {
    let g = Breakout::new();
    assert_eq!(g.bricks.len(), 20);
    assert!(g.bricks.iter().all(|b| b.active));
    assert_eq!(g.ball.pos, pt(42, 45));
    assert_eq!(g.ball.vel, (2, -1));
}

#[test]
fn ball_reflects_at_right_edge_before_crossing() {
    let mut b = Ball { pos: pt(82, 20), vel: (2, -1) };
    b.update();
    // the horizontal sign flips using the pre-move position, the vertical
    // component is untouched, and the ball never leaves the field
    assert_eq!(b.vel, (-2, -1));
    assert_eq!(b.pos, pt(80, 19));
}

#[test]
fn ball_reflects_at_left_edge() {
    let mut b = Ball { pos: pt(1, 20), vel: (-2, 1) };
    b.update();
    assert_eq!(b.vel, (2, 1));
    assert_eq!(b.pos, pt(3, 21));
}

#[test]
fn ball_reflects_at_bottom_edge() {
    let mut b = Ball { pos: pt(40, 46), vel: (2, 1) };
    b.update();
    assert_eq!(b.vel, (2, -1));
    assert_eq!(b.pos, pt(42, 45));
}

#[test]
fn ball_reflects_at_top_edge() {
    let mut b = Ball { pos: pt(40, 1), vel: (2, -1) };
    b.update();
    assert_eq!(b.vel, (2, 1));
    assert_eq!(b.pos, pt(42, 2));
}

#[test]
fn ball_moves_straight_away_from_edges() {
    let mut b = Ball::new();
    b.update();
    assert_eq!(b.vel, (2, -1));
    assert_eq!(b.pos, pt(44, 44));
}

#[test]
fn ball_stays_on_field_forever() {
    let mut b = Ball::new();
    for _ in 0..10_000 {
        b.update();
        assert!(0 <= b.pos.x && b.pos.x <= 83);
        assert!(1 <= b.pos.y && b.pos.y <= 46);
        assert!(b.vel.0 == 2 || b.vel.0 == -2);
        assert!(b.vel.1 == 1 || b.vel.1 == -1);
    }
}

#[test]
fn brick_containment_is_full_enclosure() {
    let pos = Brick::actual_pos(0, 0);
    assert_eq!(pos, pt(5, 3));
    assert!(Brick::check_collision(pos, pt(10, 4)));
    assert!(Brick::check_collision(pos, pt(5, 3)));
    assert!(Brick::check_collision(pos, pt(16, 4)));
    // overlapping but not fully contained
    assert!(!Brick::check_collision(pos, pt(17, 4)));
    assert!(!Brick::check_collision(pos, pt(4, 4)));
    assert!(!Brick::check_collision(pos, pt(10, 5)));
    assert!(!Brick::check_collision(pos, pt(10, 2)));
}

#[test]
fn brick_layout_follows_the_formula() {
    assert_eq!(Brick::actual_pos(0, 0), pt(5, 3));
    assert_eq!(Brick::actual_pos(1, 0), pt(20, 3));
    assert_eq!(Brick::actual_pos(4, 3), pt(65, 18));
    assert_eq!(Brick::actual_pos(2, 1), pt(35, 8));
}

/// A brick containing the ball is deactivated exactly once; the larger
/// vertical centre offset reflects the vertical axis.
#[test]
fn contained_ball_pops_brick_and_reflects_y() {
    let mut g = Breakout { bricks: fresh_bricks(), ball: Ball { pos: pt(8, 5), vel: (2, -1) } };
    assert!(g.update());
    // ball moved to (10,4), centre offsets: x: 0, y: -1 -> vertical axis
    assert_eq!(g.ball.pos, pt(10, 4));
    assert_eq!(g.ball.vel, (2, 1));
    assert!(!g.bricks[0].active);
    for k in 1..20 {
        assert!(g.bricks[k].active);
    }
    // the popped brick never comes back
    assert!(g.update());
    assert_eq!(g.ball.pos, pt(12, 5));
    assert_eq!(g.ball.vel, (2, 1));
    assert!(!g.bricks[0].active);
}

/// A hit with the larger horizontal centre offset reflects the horizontal
/// axis instead.
#[test]
fn larger_x_offset_reflects_x() {
    let mut g = Breakout { bricks: fresh_bricks(), ball: Ball { pos: pt(3, 5), vel: (2, -1) } };
    assert!(g.update());
    // ball moved to (5,4): offsets x: 5, y: -1 -> horizontal axis
    assert_eq!(g.ball.pos, pt(5, 4));
    assert_eq!(g.ball.vel, (-2, -1));
    assert!(!g.bricks[0].active);
}

/// Equal absolute offsets favour the vertical axis.
#[test]
fn offset_tie_reflects_y() {
    // the ball lands on (9,4) inside brick 0: the centre offsets are
    // x: (5+6) - (9+1) = 1 and y: (3+1) - (4+1) = -1, equal in absolute
    // value, and the tie goes to the vertical axis
    let mut g = Breakout { bricks: fresh_bricks(), ball: Ball { pos: pt(7, 5), vel: (2, -1) } };
    assert!(g.update());
    assert_eq!(g.ball.pos, pt(9, 4));
    assert_eq!(g.ball.vel, (2, 1));
    assert!(!g.bricks[0].active);
}

#[test]
fn missing_every_brick_changes_nothing() {
    let mut g = Breakout::new();
    assert!(g.update());
    assert_eq!(g.ball.pos, pt(44, 44));
    assert!(g.bricks.iter().all(|b| b.active));
}

#[test]
fn inactive_brick_does_not_rebound() {
    let mut bricks = fresh_bricks();
    bricks[0] = Brick { active: false };
    let mut g = Breakout { bricks, ball: Ball { pos: pt(8, 5), vel: (2, -1) } };
    assert!(g.update());
    // ball passes through the hole where brick 0 was
    assert_eq!(g.ball.pos, pt(10, 4));
    assert_eq!(g.ball.vel, (2, -1));
    assert!(!g.bricks[0].active);
}
