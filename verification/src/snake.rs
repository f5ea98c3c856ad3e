use vstd::prelude::*;
use crate::geom::Point;
use crate::rand::{lcg_next, lcg_output, Rand};
use crate::tile_vec::{tiles, tiles_get, tiles_len, tiles_new, tiles_push, tiles_set};

verus! {

/// Hard cap on the body length; growth past it is rejected.
pub const MAX_SIZE: usize = 100;

/// Cell magnification used by the renderer.
pub const SCALE: usize = 2;

/// Playfield width in grid cells.
pub const GRID_X: usize = 84 / SCALE;

/// Playfield height in grid cells.
pub const GRID_Y: usize = 48 / SCALE;

/// The heading of one body segment.
#[derive(Clone, Copy, Debug, PartialEq, Eq, Structural)]
pub enum Direction {
    Left,
    Down,
    Up,
    Right,
}

/// One body segment: the cell it occupies and the direction it will move
/// in on the next advance.
#[derive(Clone, Copy, Debug, PartialEq, Eq, Structural)]
pub struct Tile {
    pub pos: Point,
    pub dir: Direction,
}

/// A cell strictly inside the playfield: one cell of margin on each side
/// is reserved for the border.
pub open spec fn in_bounds(p: Point) -> bool {
    &&& 1 <= p.x <= GRID_X as int - 2
    &&& 1 <= p.y <= GRID_Y as int - 2
}

/// The cell one step from `p` in direction `d`.
pub open spec fn moved_point(p: Point, d: Direction) -> Point {
    match d {
        Direction::Left => Point { x: (p.x - 1) as i32, y: p.y },
        Direction::Up => Point { x: p.x, y: (p.y - 1) as i32 },
        Direction::Down => Point { x: p.x, y: (p.y + 1) as i32 },
        Direction::Right => Point { x: (p.x + 1) as i32, y: p.y },
    }
}

/// A segment standing on the last interior cell while heading outward:
/// its next step would cross the border.
pub open spec fn hits_wall(t: Tile) -> bool {
    match t.dir {
        Direction::Left => t.pos.x == 1,
        Direction::Up => t.pos.y == 1,
        Direction::Down => t.pos.y == GRID_Y as int - 2,
        Direction::Right => t.pos.x == GRID_X as int - 2,
    }
}

/// The body after one advance: every segment moves one cell in its own
/// direction, and every segment behind the head adopts the direction its
/// predecessor held before the advance (a shift register of directions).
pub open spec fn advanced(b: Seq<Tile>) -> Seq<Tile> {
    Seq::new(
        b.len(),
        |i: int|
            Tile {
                pos: moved_point(b[i].pos, b[i].dir),
                dir: if i == 0 {
                    b[0].dir
                } else {
                    b[i - 1].dir
                },
            },
    )
}

/// The body with a pending growth segment appended, if one exists and
/// there is room for it; growth at full capacity is dropped.
pub open spec fn grown(b: Seq<Tile>, pending: Option<Tile>) -> Seq<Tile> {
    match pending {
        Some(t) => if b.len() < MAX_SIZE {
            b.push(t)
        } else {
            b
        },
        None => b,
    }
}

/// No segment other than the head already occupies the cell the head is
/// about to enter. The comparison is against pre-advance positions: the
/// cell the tail is just vacating still counts as occupied.
pub open spec fn head_clear(b: Seq<Tile>) -> bool {
    forall|j: int| 1 <= j < b.len() ==> (#[trigger] b[j]).pos != moved_point(b[0].pos, b[0].dir)
}

/// An advance of `b` succeeds: no segment is about to cross the border
/// and the head's next cell is free.
pub open spec fn advance_ok(b: Seq<Tile>) -> bool {
    &&& b.len() >= 1
    &&& forall|i: int| 0 <= i < b.len() ==> !hits_wall(#[trigger] b[i])
    &&& head_clear(b)
}

/// The body a fresh game starts with: one segment just left of the
/// playfield centre, heading right.
pub open spec fn start_tile() -> Tile {
    Tile {
        pos: Point { x: (GRID_X / 2 - 1) as i32, y: (GRID_Y / 2) as i32 },
        dir: Direction::Right,
    }
}

/// The snake body and its pending growth.
///
/// An eat is recorded in `recorded`; the advance of the same tick promotes
/// it to `pending`, and the next advance appends it to the body. Growth
/// thus becomes visible exactly one advance after the eat. At most one
/// growth is ever in flight: while one is, further eats are refused.
pub struct Snake {
    pub tail: heapless::Vec<Tile, MAX_SIZE>,
    pub pending: Option<Tile>,
    pub recorded: Option<Tile>,
}

impl Snake {
    /// The segments, head first.
    pub open spec fn body(self) -> Seq<Tile> {
        tiles(self.tail)
    }

    /// At least one segment, never more than the capacity, every segment
    /// inside the playfield, the body linked into a chain, and the growth
    /// queue holding at most one segment, placed so that committing it
    /// keeps the chain linked.
    pub open spec fn wf(self) -> bool {
        &&& 1 <= self.body().len() <= MAX_SIZE
        &&& forall|i: int| 0 <= i < self.body().len() ==> in_bounds(#[trigger] self.body()[i].pos)
        &&& chain_linked(self.body())
        &&& (self.pending matches Some(t) ==> in_bounds(t.pos) && moved_point(t.pos, t.dir)
            == self.body().last().pos)
        &&& (self.recorded matches Some(t) ==> t == self.body().last())
        &&& !(self.pending.is_some() && self.recorded.is_some())
    }

    /// A single-segment snake at an arbitrary interior cell.
    pub fn with_head(p: Point, d: Direction) -> (s: Snake)
        requires
            in_bounds(p),
        ensures
            s.wf(),
            s.body() == seq![Tile { pos: p, dir: d }],
            s.pending.is_none(),
            s.recorded.is_none(),
    {
        let mut tail = tiles_new();
        let _ = tiles_push(&mut tail, Tile { pos: p, dir: d });
        proof {
            assert(tiles(tail) =~= seq![Tile { pos: p, dir: d }]);
            lemma_single_chain(Tile { pos: p, dir: d });
        }
        Snake { tail, pending: None, recorded: None }
    }

    /// The starting snake: one segment at the centre, heading right.
    pub fn new() -> (s: Snake)
        ensures
            s.wf(),
            s.body() == seq![start_tile()],
            s.pending.is_none(),
            s.recorded.is_none(),
    {
        Snake::with_head(Point::new((GRID_X / 2 - 1) as i32, (GRID_Y / 2) as i32), Direction::Right)
    }

    /// Points the head in `dir`; takes effect on the next advance.
    /// Steering happens at the start of a tick, before that tick's eat
    /// check, so no growth recording is in flight.
    pub fn set_dir(&mut self, dir: Direction)
        requires
            old(self).wf(),
            old(self).recorded.is_none(),
        ensures
            final(self).wf(),
            final(self).body() == old(self).body().update(
                0,
                Tile { pos: old(self).body()[0].pos, dir: dir },
            ),
            final(self).pending == old(self).pending,
            final(self).recorded == old(self).recorded,
    {
        let head = tiles_get(&self.tail, 0);
        tiles_set(&mut self.tail, 0, Tile { pos: head.pos, dir });
        proof {
            lemma_steer_preserves_chain(old(self).body(), Tile { pos: head.pos, dir });
        }
    }

    /// The direction the head currently holds.
    pub fn get_dir(&self) -> (d: Direction)
        requires
            self.wf(),
        ensures
            d == self.body()[0].dir,
    {
        tiles_get(&self.tail, 0).dir
    }

    /// Current body length.
    pub fn len(&self) -> (n: usize)
        ensures
            n == self.body().len(),
    {
        tiles_len(&self.tail)
    }

    /// The segment at index `i` (0 is the head).
    pub fn tile(&self, i: usize) -> (t: Tile)
        requires
            i < self.body().len(),
        ensures
            t == self.body()[i as int],
    {
        tiles_get(&self.tail, i)
    }

    /// Checks the head against the collectible. On a hit, a copy of the
    /// current tail segment is recorded for growth; the body itself does
    /// not change until a later advance commits the recording. While a
    /// growth is already in flight, a hit is refused, so at most one
    /// growth is ever queued.
    pub fn eat_apple(&mut self, apple: Point) -> (ate: bool)
        requires
            old(self).wf(),
        ensures
            final(self).wf(),
            ate == (old(self).body()[0].pos == apple && old(self).pending.is_none()
                && old(self).recorded.is_none()),
            final(self).body() == old(self).body(),
            final(self).pending == old(self).pending,
            ate ==> final(self).recorded == Some(old(self).body().last()),
            !ate ==> final(self).recorded == old(self).recorded,
    {
        let head = tiles_get(&self.tail, 0);
        if head.pos == apple && self.pending.is_none() && self.recorded.is_none() {
            let n = tiles_len(&self.tail);
            self.recorded = Some(tiles_get(&self.tail, n - 1));
            true
        } else {
            false
        }
    }

    /// One advance of the whole body.
    ///
    /// First the growth promoted on the previous advance is appended (or
    /// dropped when the body is already at capacity). Then, if any segment
    /// would cross the border, or the head's next cell is occupied, the
    /// body is left as it stands and the advance reports failure: the game
    /// is over. Otherwise every segment moves one cell, directions shift
    /// one segment tailwards, and the growth recorded since the previous
    /// advance is promoted for the next one.
    #[verifier::loop_isolation(false)]
    pub fn update(&mut self) -> (ok: bool)
        requires
            old(self).wf(),
        ensures
            final(self).wf(),
            ({
                let g = grown(old(self).body(), old(self).pending);
                &&& ok == advance_ok(g)
                &&& (ok ==> final(self).body() == advanced(g)
                    && final(self).pending == old(self).recorded
                    && final(self).recorded.is_none())
                &&& (!ok ==> final(self).body() == g
                    && final(self).pending.is_none()
                    && final(self).recorded == old(self).recorded)
            }),
    {
        // Append the growth that is due, rejecting it at full capacity.
        if let Some(t) = self.pending {
            let _ = tiles_push(&mut self.tail, t);
            self.pending = None;
        }
        let ghost g = tiles(self.tail);
        let len = tiles_len(&self.tail);
        proof {
            assert(g == grown(old(self).body(), old(self).pending));
            assert forall|k: int| 0 <= k < g.len() implies in_bounds((#[trigger] g[k]).pos) by {
                if k < old(self).body().len() {
                    assert(in_bounds(old(self).body()[k].pos));
                }
            }
            if old(self).pending is Some && old(self).body().len() < MAX_SIZE {
                lemma_growth_preserves_chain(old(self).body(), old(self).pending->Some_0);
            }
            assert(chain_linked(g));
        }

        // Border check: every segment moves on its own current heading.
        let mut i: usize = 0;
        while i < len
            invariant
                i <= len,
                forall|k: int| 0 <= k < i ==> !hits_wall(#[trigger] g[k]),
            decreases len - i,
        {
            let t = tiles_get(&self.tail, i);
            let wall = match t.dir {
                Direction::Left => t.pos.x == 1,
                Direction::Up => t.pos.y == 1,
                Direction::Down => t.pos.y == (GRID_Y as i32) - 2,
                Direction::Right => t.pos.x == (GRID_X as i32) - 2,
            };
            if wall {
                return false;
            }
            i += 1;
        }

        // Self-collision: the head's next cell against every other segment.
        let head = tiles_get(&self.tail, 0);
        let new_head_pos = moved(head.pos, head.dir);
        let mut j: usize = 1;
        while j < len
            invariant
                1 <= j <= len,
                forall|k: int| 1 <= k < j ==> (#[trigger] g[k]).pos != moved_point(g[0].pos, g[0].dir),
            decreases len - j,
        {
            let o = tiles_get(&self.tail, j);
            if o.pos == new_head_pos {
                return false;
            }
            j += 1;
        }

        // Advance: move every segment and shift directions tailwards.
        proof {
            assert(tiles(self.tail) =~= advanced_prefix(g, 0));
        }
        let mut next_dir = head.dir;
        let mut i: usize = 0;
        while i < len
            invariant
                i <= len,
                self.pending.is_none(),
                self.recorded == old(self).recorded,
                tiles(self.tail) == advanced_prefix(g, i as int),
                next_dir == if i == 0 {
                    g[0].dir
                } else {
                    g[i - 1].dir
                },
            decreases len - i,
        {
            let t = tiles_get(&self.tail, i);
            let new_tile = Tile { pos: moved(t.pos, t.dir), dir: next_dir };
            tiles_set(&mut self.tail, i, new_tile);
            next_dir = t.dir;
            proof {
                assert(tiles(self.tail) =~= advanced_prefix(g, i + 1));
            }
            i += 1;
        }
        proof {
            assert(tiles(self.tail) =~= advanced(g));
            assert forall|k: int| 0 <= k < tiles(self.tail).len() implies in_bounds(
                #[trigger] tiles(self.tail)[k].pos,
            ) by {
                assert(tiles(self.tail)[k] == advanced(g)[k]);
                assert(!hits_wall(g[k]));
                assert(in_bounds(g[k].pos));
            }
            lemma_advance_preserves_chain(g);
            if old(self).recorded is Some {
                // the promoted growth segment sits one step behind the tail
                let t = old(self).recorded->Some_0;
                assert(t == g.last());
                assert(advanced(g).last().pos == moved_point(g.last().pos, g.last().dir));
            }
        }

        // The growth recorded this tick commits on the next advance.
        self.pending = self.recorded;
        self.recorded = None;
        true
    }
}

/// The body with its first `k` segments already advanced; the state the
/// advance loop passes through.
pub open spec fn advanced_prefix(b: Seq<Tile>, k: int) -> Seq<Tile> {
    Seq::new(
        b.len(),
        |i: int|
            if i < k {
                advanced(b)[i]
            } else {
                b[i]
            },
    )
}

/// Every segment stands one step behind its predecessor: moving it in its
/// own direction lands exactly on the segment ahead. A fresh single-segment
/// body is trivially linked, and committed growth segments are recorded so
/// that the property survives. Kept opaque: the quantifier descends the
/// body index by index, which the solver must not chase on its own.
#[verifier::opaque]
pub open spec fn chain_linked(b: Seq<Tile>) -> bool {
    forall|i: int|
        1 <= i < b.len() ==> moved_point((#[trigger] b[i]).pos, b[i].dir) == b[i - 1].pos
}

/// A single-segment body is linked.
pub proof fn lemma_single_chain(t: Tile)
    ensures
        chain_linked(seq![t]),
{
    reveal(chain_linked);
}

/// Changing only the head's direction cannot unlink the chain: linkage
/// constrains trailing segments and the head's position alone.
pub proof fn lemma_steer_preserves_chain(b: Seq<Tile>, t: Tile)
    requires
        chain_linked(b),
        b.len() >= 1,
        t.pos == b[0].pos,
    ensures
        chain_linked(b.update(0, t)),
{
    reveal(chain_linked);
    let bu = b.update(0, t);
    assert forall|i: int| 1 <= i < bu.len() implies moved_point(
        (#[trigger] bu[i]).pos,
        bu[i].dir,
    ) == bu[i - 1].pos by {
        assert(moved_point(b[i].pos, b[i].dir) == b[i - 1].pos);
    }
}

/// In a linked body, one advance moves every trailing segment onto the
/// cell its predecessor held before the advance.
pub proof fn lemma_advance_follows(b: Seq<Tile>)
    requires
        chain_linked(b),
    ensures
        forall|i: int| 1 <= i < b.len() ==> (#[trigger] advanced(b)[i]).pos == b[i - 1].pos,
{
    reveal(chain_linked);
}

/// Advancing a linked body keeps it linked.
pub proof fn lemma_advance_preserves_chain(b: Seq<Tile>)
    requires
        chain_linked(b),
    ensures
        chain_linked(advanced(b)),
{
    reveal(chain_linked);
    assert forall|i: int| 1 <= i < advanced(b).len() implies moved_point(
        (#[trigger] advanced(b)[i]).pos,
        advanced(b)[i].dir,
    ) == advanced(b)[i - 1].pos by {
        assert(moved_point(b[i].pos, b[i].dir) == b[i - 1].pos);
    }
}

/// A growth segment that is one step behind the tail keeps the body
/// linked when it is appended.
pub proof fn lemma_growth_preserves_chain(b: Seq<Tile>, t: Tile)
    requires
        chain_linked(b),
        b.len() >= 1,
        moved_point(t.pos, t.dir) == b.last().pos,
    ensures
        chain_linked(b.push(t)),
{
    reveal(chain_linked);
    let bp = b.push(t);
    assert forall|i: int| 1 <= i < bp.len() implies moved_point(
        (#[trigger] bp[i]).pos,
        bp[i].dir,
    ) == bp[i - 1].pos by {
        if i < b.len() {
            assert(moved_point(b[i].pos, b[i].dir) == b[i - 1].pos);
        }
    }
}

/// The body after `n` consecutive advances with no steering and no growth.
pub open spec fn advanced_n(b: Seq<Tile>, n: nat) -> Seq<Tile>
    decreases n,
{
    if n == 0 {
        b
    } else {
        advanced(advanced_n(b, (n - 1) as nat))
    }
}

/// Advancing never changes the number of segments.
pub proof fn lemma_advanced_n_len(b: Seq<Tile>, n: nat)
    ensures
        advanced_n(b, n).len() == b.len(),
    decreases n,
{
    if n > 0 {
        lemma_advanced_n_len(b, (n - 1) as nat);
    }
}

/// A linked body stays linked through any number of advances.
pub proof fn lemma_chain_n(b: Seq<Tile>, n: nat)
    requires
        chain_linked(b),
    ensures
        chain_linked(advanced_n(b, n)),
    decreases n,
{
    if n > 0 {
        lemma_chain_n(b, (n - 1) as nat);
        lemma_advance_preserves_chain(advanced_n(b, (n - 1) as nat));
    }
}

/// Pure delay line: when a linked body advances freely, segment `i` after
/// `n` advances occupies exactly the cell the head occupied `i` advances
/// earlier.
pub proof fn lemma_delay_line(b: Seq<Tile>, n: nat, i: int)
    requires
        chain_linked(b),
        0 <= i < b.len(),
        i <= n,
    ensures
        advanced_n(b, n)[i].pos == advanced_n(b, (n - i) as nat)[0].pos,
    decreases n,
{
    if i > 0 {
        let c = advanced_n(b, (n - 1) as nat);
        lemma_chain_n(b, (n - 1) as nat);
        lemma_advanced_n_len(b, (n - 1) as nat);
        lemma_advance_follows(c);
        assert(advanced_n(b, n)[i].pos == c[i - 1].pos);
        lemma_delay_line(b, (n - 1) as nat, i - 1);
    }
}

/// Growth becomes measurable one advance after the eat, not on the eat
/// tick itself: the advance of the eat tick carries no committed growth,
/// the next one appends one segment.
pub proof fn lemma_growth_timing(b: Seq<Tile>, t: Tile)
    requires
        1 <= b.len() < MAX_SIZE,
    ensures
        advanced(grown(b, Option::None)).len() == b.len(),
        grown(advanced(grown(b, Option::None)), Some(t)).len() == b.len() + 1,
{
}

/// One exec step of a point in a direction.
fn moved(p: Point, d: Direction) -> (r: Point)
    requires
        in_bounds(p),
    ensures
        r == moved_point(p, d),
{
    match d {
        Direction::Left => Point::new(p.x - 1, p.y),
        Direction::Up => Point::new(p.x, p.y - 1),
        Direction::Down => Point::new(p.x, p.y + 1),
        Direction::Right => Point::new(p.x + 1, p.y),
    }
}

/// The collectible: the cell it sits on and the phase of its blink.
pub struct Apple {
    pub pos: Point,
    pub tick: u8,
}

impl Apple {
    pub fn new() -> (a: Apple)
        ensures
            a.pos == (Point { x: 0, y: 0 }),
            a.tick == 0,
    {
        Apple { pos: Point::new(0, 0), tick: 0 }
    }

    /// One render tick of the blink: the outline shows on every third
    /// tick and the phase counter cycles through 0, 1, 2.
    pub fn blink_step(&mut self) -> (show: bool)
        requires
            old(self).tick <= 2,
        ensures
            final(self).tick <= 2,
            final(self).pos == old(self).pos,
            show == (old(self).tick == 2),
            final(self).tick == (if old(self).tick == 2 { 0int } else { old(self).tick + 1 }),
    {
        if self.tick == 2 {
            self.tick = 0;
            true
        } else {
            self.tick += 1;
            false
        }
    }
}

/// One collectible coordinate from one generator draw: offset into the
/// interior, then rounded up to the even sub-lattice.
pub open spec fn apple_coord(r: u32, span: int) -> int {
    let c = (r as int) % span + 2;
    if c % 2 == 1 {
        c + 1
    } else {
        c
    }
}

/// Where the collectible lands when relocated with generator state `s`:
/// the x coordinate comes from the first draw, the y coordinate from the
/// second.
pub open spec fn apple_spot(s: u32) -> Point {
    Point {
        x: apple_coord(lcg_output(lcg_next(s)), GRID_X as int - 5) as i32,
        y: apple_coord(lcg_output(lcg_next(lcg_next(s))), GRID_Y as int - 5) as i32,
    }
}

/// The direction the head takes given this tick's press edges: buttons
/// 0..3 steer left, down, up, right, earlier buttons win, and the press
/// that would reverse straight into the neck is ignored.
pub open spec fn steered(cur: Direction, pressed: [bool; 4]) -> Direction {
    if pressed[0] && cur != Direction::Right {
        Direction::Left
    } else if pressed[1] && cur != Direction::Up {
        Direction::Down
    } else if pressed[2] && cur != Direction::Down {
        Direction::Up
    } else if pressed[3] && cur != Direction::Left {
        Direction::Right
    } else {
        cur
    }
}

/// What one tick of the snake game decided.
pub enum SnakeStep {
    /// The snake advanced; `ate` reports whether the collectible was taken
    /// this tick (the caller plays the eating flourish on it).
    Running { ate: bool },
    /// The advance failed: the game is over.
    GameOver,
}

/// The whole snake game state: body, collectible and generator. Input
/// sampling, rendering and pacing stay outside; one call to `step`
/// consumes one tick's press edges.
pub struct SnakeGame {
    pub snake: Snake,
    pub apple: Apple,
    pub rand: Rand,
}

impl SnakeGame {
    pub open spec fn wf(self) -> bool {
        &&& self.snake.wf()
        &&& self.snake.recorded.is_none()
        &&& self.apple.tick <= 2
    }

    /// A fresh game: single-segment snake at the centre, collectible not
    /// yet placed, generator at its fixed seed.
    pub fn new() -> (g: SnakeGame)
        ensures
            g.wf(),
            g.snake.body() == seq![start_tile()],
            g.snake.pending.is_none(),
            g.snake.recorded.is_none(),
            g.apple.pos == (Point { x: 0, y: 0 }),
            g.apple.tick == 0,
            g.rand.state == 25023540u32,
    {
        SnakeGame { snake: Snake::new(), apple: Apple::new(), rand: Rand::new(25023540) }
    }

    /// Relocates the collectible: one draw for each axis, both results
    /// forced to the even sub-lattice with a margin off the border.
    pub fn make_apple(&mut self)
        ensures
            final(self).snake == old(self).snake,
            final(self).apple.tick == old(self).apple.tick,
            final(self).rand.state == lcg_next(lcg_next(old(self).rand.state)),
            final(self).apple.pos == apple_spot(old(self).rand.state),
            in_bounds(final(self).apple.pos),
    {
        let r1 = self.rand.next();
        let mut x = (r1 as usize) % (GRID_X - 5) + 2;
        if x % 2 == 1 {
            x += 1;
        }
        let r2 = self.rand.next();
        let mut y = (r2 as usize) % (GRID_Y - 5) + 2;
        if y % 2 == 1 {
            y += 1;
        }
        self.apple.pos = Point::new(x as i32, y as i32);
    }

    /// One tick: steer from this tick's press edges, check the collectible
    /// against the head (recording growth and relocating the collectible
    /// on a hit), then advance the body.
    pub fn step(&mut self, pressed: &[bool; 4]) -> (r: SnakeStep)
        requires
            old(self).wf(),
        ensures
            final(self).wf(),
            ({
                let d = steered(old(self).snake.body()[0].dir, *pressed);
                let b = old(self).snake.body().update(
                    0,
                    Tile { pos: old(self).snake.body()[0].pos, dir: d },
                );
                let ate = b[0].pos == old(self).apple.pos && old(self).snake.pending.is_none();
                let rec = if ate { Some(b.last()) } else { Option::<Tile>::None };
                let g = grown(b, old(self).snake.pending);
                &&& r == (if advance_ok(g) { SnakeStep::Running { ate } } else { SnakeStep::GameOver })
                &&& (advance_ok(g) ==> final(self).snake.body() == advanced(g)
                    && final(self).snake.pending == rec)
                &&& (!advance_ok(g) ==> final(self).snake.body() == g
                    && final(self).snake.pending.is_none())
                &&& final(self).snake.recorded.is_none()
                &&& (ate ==> final(self).rand.state == lcg_next(lcg_next(old(self).rand.state))
                    && final(self).apple.pos == apple_spot(old(self).rand.state))
                &&& (!ate ==> final(self).rand == old(self).rand
                    && final(self).apple.pos == old(self).apple.pos)
                &&& final(self).apple.tick == old(self).apple.tick
            }),
    {
        let d = self.snake.get_dir();
        if pressed[0] && d != Direction::Right {
            self.snake.set_dir(Direction::Left);
        } else if pressed[1] && d != Direction::Up {
            self.snake.set_dir(Direction::Down);
        } else if pressed[2] && d != Direction::Down {
            self.snake.set_dir(Direction::Up);
        } else if pressed[3] && d != Direction::Left {
            self.snake.set_dir(Direction::Right);
        } else {
            proof {
                assert(old(self).snake.body().update(
                    0,
                    Tile {
                        pos: old(self).snake.body()[0].pos,
                        dir: steered(old(self).snake.body()[0].dir, *pressed),
                    },
                ) =~= old(self).snake.body());
            }
        }
        let ate = self.snake.eat_apple(self.apple.pos);
        if ate {
            self.make_apple();
        }
        if self.snake.update() {
            SnakeStep::Running { ate }
        } else {
            // the game is over; drop any growth still in flight
            self.snake.recorded = None;
            SnakeStep::GameOver
        }
    }
}

} // verus!
