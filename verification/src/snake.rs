//! The snake: head position, per-segment heading history, growth, movement
//! integration and collision detection.
//!
//! A snake stores no absolute position per segment.  Segment 0 holds the
//! head's current heading; segment `i` holds the heading the head had `i`
//! tile crossings ago.  Walking back from the head's tile and subtracting
//! each segment's unit vector in turn reconstructs every segment's tile.

use vstd::prelude::*;
use crate::direction::Direction;
use crate::pixels::{covered, fill_tile};
use crate::shade::{darken, darken_spec};
use crate::units::{
    tile_spec, tile_of, lemma_tile_bounds, TILE_UNITS, GRID_W, GRID_H, MAX_STEP,
};

verus! {

/// Color the snake is drawn in when dead.
pub const DEAD_COLOR: u32 = 0xFF880000;

/// Per-mille brightness kept by the trailing segments' shade.
pub const TAIL_SHADE: u32 = 900;

/// Sum of the horizontal unit-vector components of segments `1..=i`.
pub open spec fn walk_x(b: Seq<Direction>, i: int) -> int
    decreases i,
{
    if i <= 0 {
        0
    } else {
        walk_x(b, i - 1) + b[i].dx()
    }
}

/// Sum of the vertical unit-vector components of segments `1..=i`.
pub open spec fn walk_y(b: Seq<Direction>, i: int) -> int
    decreases i,
{
    if i <= 0 {
        0
    } else {
        walk_y(b, i - 1) + b[i].dy()
    }
}

/// Whether some trailing segment of a body with head tile `(hx, hy)` sits on
/// tile `(px, py)`.  Segment 0 — the head itself — is never considered, and
/// neither is a segment still holding `Idle`.
pub open spec fn hits_from(b: Seq<Direction>, hx: int, hy: int, px: int, py: int) -> bool {
    exists|i: int|
        1 <= i < b.len() && b[i] != Direction::Idle && hx - walk_x(b, i) == px && hy - walk_y(
            b,
            i,
        ) == py
}

/// The heading history after one tile crossing: every segment takes its
/// predecessor's heading, and the head keeps its own.
pub open spec fn shift_spec(b: Seq<Direction>) -> Seq<Direction> {
    Seq::new(b.len(), |i: int| if i == 0 { b[0] } else { b[i - 1] })
}

pub struct Snake {
    /// Horizontal head coordinate, in units.
    pub head_x: i64,
    /// Vertical head coordinate, in units.
    pub head_y: i64,
    /// Heading history: index 0 is the current heading, index `i` the
    /// heading `i` tile crossings ago.  Its length is the snake's length.
    pub body: Vec<Direction>,
    /// Packed ARGB display color of the live snake.
    pub color: u32,
    /// Terminal flag: set on leaving the grid, on self-collision, and on the
    /// win condition; cleared only by `reset`.
    pub dead: bool,
}

impl Snake {
    /// Tile column of the head.
    pub open spec fn head_tile_x(self) -> int {
        tile_spec(self.head_x as int)
    }

    /// Tile row of the head.
    pub open spec fn head_tile_y(self) -> int {
        tile_spec(self.head_y as int)
    }

    /// The head lies strictly inside the grid's tile range.
    pub open spec fn in_grid(self) -> bool {
        &&& -(TILE_UNITS as int) < self.head_x < (GRID_W as int) * (TILE_UNITS as int)
        &&& -(TILE_UNITS as int) < self.head_y < (GRID_H as int) * (TILE_UNITS as int)
    }

    /// The head lies within one update step of the grid: the range every
    /// reachable snake stays in, dead or alive.
    pub open spec fn head_in_range(self) -> bool {
        &&& -2 * (TILE_UNITS as int) <= self.head_x <= ((GRID_W + 1) as int) * (TILE_UNITS as int)
        &&& -2 * (TILE_UNITS as int) <= self.head_y <= ((GRID_H + 1) as int) * (TILE_UNITS as int)
    }

    /// Well-formedness: at least the head segment exists, the head is in
    /// reach of the grid, and a live snake is inside the grid.
    pub open spec fn wf(self) -> bool {
        &&& self.body@.len() >= 1
        &&& self.head_in_range()
        &&& (!self.dead ==> self.in_grid())
    }

    /// Whether some trailing segment sits on tile `(px, py)`.
    pub open spec fn hits(self, px: int, py: int) -> bool {
        hits_from(self.body@, self.head_tile_x(), self.head_tile_y(), px, py)
    }

    /// Horizontal head coordinate after integrating one step along the
    /// current heading.
    pub open spec fn moved_x(self, step: int) -> int {
        self.head_x + self.body@[0].dx() * step
    }

    /// Vertical head coordinate after integrating one step.
    pub open spec fn moved_y(self, step: int) -> int {
        self.head_y + self.body@[0].dy() * step
    }

    /// Whether the step carries the head into a new tile on either axis.
    pub open spec fn crosses(self, step: int) -> bool {
        ||| tile_spec(self.moved_x(step)) != self.head_tile_x()
        ||| tile_spec(self.moved_y(step)) != self.head_tile_y()
    }

    /// The heading history after the step: shifted once on a tile crossing,
    /// unchanged otherwise.
    pub open spec fn next_body(self, step: int) -> Seq<Direction> {
        if self.crosses(step) {
            shift_spec(self.body@)
        } else {
            self.body@
        }
    }

    /// Whether the step leaves the head's tile outside the grid.
    pub open spec fn hits_wall(self, step: int) -> bool {
        ||| tile_spec(self.moved_x(step)) < 0
        ||| tile_spec(self.moved_y(step)) < 0
        ||| tile_spec(self.moved_x(step)) >= GRID_W as int
        ||| tile_spec(self.moved_y(step)) >= GRID_H as int
    }

    /// Whether the snake is dead after the step: it left the grid, or a
    /// trailing segment of the advanced snake sits on the head's new tile.
    pub open spec fn next_dead(self, step: int) -> bool {
        ||| self.hits_wall(step)
        ||| hits_from(
            self.next_body(step),
            tile_spec(self.moved_x(step)),
            tile_spec(self.moved_y(step)),
            tile_spec(self.moved_x(step)),
            tile_spec(self.moved_y(step)),
        )
    }

    /// Creates a live snake at the given coordinate: one real heading
    /// (`Right`) followed by four placeholder segments.
    pub fn new(head_x: i64, head_y: i64, color: u32) -> (s: Snake)
        requires
            -(TILE_UNITS as int) < head_x < (GRID_W as int) * (TILE_UNITS as int),
            -(TILE_UNITS as int) < head_y < (GRID_H as int) * (TILE_UNITS as int),
        ensures
            s.head_x == head_x,
            s.head_y == head_y,
            s.color == color,
            s.dead == false,
            s.body@ =~= seq![
                Direction::Right,
                Direction::Idle,
                Direction::Idle,
                Direction::Idle,
                Direction::Idle,
            ],
            s.wf(),
    {
        let mut body: Vec<Direction> = Vec::new();
        body.push(Direction::Right);
        body.push(Direction::Idle);
        body.push(Direction::Idle);
        body.push(Direction::Idle);
        body.push(Direction::Idle);
        Snake { head_x, head_y, body, color, dead: false }
    }

    /// Revives the snake at the origin with a single forward-heading
    /// segment; the color is kept.
    pub fn reset(&mut self)
        ensures
            final(self).head_x == 0,
            final(self).head_y == 0,
            final(self).color == old(self).color,
            final(self).dead == false,
            final(self).body@ =~= seq![Direction::Right],
            final(self).wf(),
    {
        self.dead = false;
        self.body.clear();
        self.body.push(Direction::Right);
        self.head_x = 0;
        self.head_y = 0;
    }

    /// Reports whether a trailing segment sits on tile `(px, py)`, walking
    /// the heading history back from the head and accumulating offsets.
    #[verifier::loop_isolation(false)]
    pub fn collision(&self, px: i64, py: i64) -> (r: bool)
        requires
            self.head_in_range(),
        ensures
            r == self.hits(px as int, py as int),
    {
        proof {
            lemma_tile_bounds(self.head_x as int);
            lemma_tile_bounds(self.head_y as int);
        }
        let tx = tile_of(self.head_x);
        let ty = tile_of(self.head_y);
        let mut rx: i128 = tx as i128;
        let mut ry: i128 = ty as i128;
        let n = self.body.len();
        let mut i: usize = 1;
        while i < n
            invariant
                1 <= i,
                i <= n || i == 1,
                rx == self.head_tile_x() - walk_x(self.body@, i - 1),
                ry == self.head_tile_y() - walk_y(self.body@, i - 1),
                self.head_tile_x() - (i - 1) <= rx <= self.head_tile_x() + (i - 1),
                self.head_tile_y() - (i - 1) <= ry <= self.head_tile_y() + (i - 1),
                forall|j: int|
                    1 <= j < i ==> !(self.body@[j] != Direction::Idle && self.head_tile_x()
                        - walk_x(self.body@, j) == px as int && self.head_tile_y() - walk_y(
                        self.body@,
                        j,
                    ) == py as int),
            decreases n - i,
        {
            let d = self.body[i];
            let dd = d.delta();
            rx = rx - dd.0 as i128;
            ry = ry - dd.1 as i128;
            proof {
                assert(walk_x(self.body@, i as int) == walk_x(self.body@, i - 1) + self.body@[
                    i as int].dx());
                assert(walk_y(self.body@, i as int) == walk_y(self.body@, i - 1) + self.body@[
                    i as int].dy());
            }
            if rx == px as i128 && ry == py as i128 && !(d == Direction::Idle) {
                proof {
                    let ii = i as int;
                    assert(1 <= ii < self.body@.len() && self.body@[ii] != Direction::Idle
                        && self.head_tile_x() - walk_x(self.body@, ii) == px as int
                        && self.head_tile_y() - walk_y(self.body@, ii) == py as int);
                }
                return true;
            }
            i = i + 1;
        }
        false
    }

    /// Advances the snake by `step` units along its current heading: no-op
    /// when dead; otherwise integrates the head, propagates the heading
    /// history one slot on a tile crossing, and dies on leaving the grid or
    /// on self-collision.
    ///
    /// The step is capped at `MAX_STEP` — one tile — which is the movement
    /// model's bound on a single update; the driving loop clamps its
    /// time-derived step to this cap before calling.
    #[verifier::loop_isolation(false)]
    pub fn update(&mut self, step: i64)
        requires
            old(self).wf(),
            0 <= step <= MAX_STEP,
        ensures
            final(self).color == old(self).color,
            old(self).dead ==> *final(self) == *old(self),
            !old(self).dead ==> {
                &&& final(self).head_x == old(self).moved_x(step as int)
                &&& final(self).head_y == old(self).moved_y(step as int)
                &&& final(self).body@ == old(self).next_body(step as int)
                &&& final(self).dead == old(self).next_dead(step as int)
            },
            final(self).wf(),
    {
        if self.dead {
            return ;
        }
        let d0 = self.body[0];
        let dd = d0.delta();
        proof {
            assert(-1 <= d0.dx() <= 1 && -1 <= d0.dy() <= 1);
            assert(-(MAX_STEP as int) <= dd.0 * step <= MAX_STEP as int) by (nonlinear_arith)
                requires
                    -1 <= dd.0 <= 1,
                    0 <= step <= MAX_STEP as int,
            ;
            assert(-(MAX_STEP as int) <= dd.1 * step <= MAX_STEP as int) by (nonlinear_arith)
                requires
                    -1 <= dd.1 <= 1,
                    0 <= step <= MAX_STEP as int,
            ;
        }
        let bx = self.head_x;
        let by = self.head_y;
        self.head_x = self.head_x + dd.0 * step;
        self.head_y = self.head_y + dd.1 * step;
        let btx = tile_of(bx);
        let bty = tile_of(by);
        let ntx = tile_of(self.head_x);
        let nty = tile_of(self.head_y);
        if btx != ntx || bty != nty {
            let ghost b0 = self.body@;
            let ghost hx = self.head_x;
            let ghost hy = self.head_y;
            let n = self.body.len();
            let mut i: usize = n;
            while i > 1
                invariant
                    1 <= i <= n,
                    self.body@.len() == n,
                    self.head_x == hx,
                    self.head_y == hy,
                    self.color == old(self).color,
                    self.dead == old(self).dead,
                    forall|j: int| 0 <= j < i ==> self.body@[j] == b0[j],
                    forall|j: int| i <= j < n ==> self.body@[j] == b0[j - 1],
                decreases i,
            {
                i = i - 1;
                let v = self.body[i - 1];
                self.body.set(i, v);
            }
            proof {
                assert(self.body@ =~= shift_spec(b0));
            }
        }
        if ntx < 0 || nty < 0 || ntx >= GRID_W || nty >= GRID_H {
            self.dead = true;
        }
        let c = self.collision(ntx, nty);
        if c {
            self.dead = true;
        }
        proof {
            if !self.dead {
                lemma_tile_bounds(self.head_x as int);
                lemma_tile_bounds(self.head_y as int);
            }
        }
    }

    /// Appends `n` placeholder tail segments; they receive real headings as
    /// the history propagates into them on later tile crossings.
    #[verifier::loop_isolation(false)]
    pub fn grow(&mut self, n: usize)
        ensures
            final(self).head_x == old(self).head_x,
            final(self).head_y == old(self).head_y,
            final(self).color == old(self).color,
            final(self).dead == old(self).dead,
            final(self).body@ == old(self).body@ + Seq::new(
                n as nat,
                (|i: int| Direction::Idle),
            ),
            old(self).wf() ==> final(self).wf(),
    {
        let mut k: usize = 0;
        while k < n
            invariant
                k <= n,
                self.head_x == old(self).head_x,
                self.head_y == old(self).head_y,
                self.color == old(self).color,
                self.dead == old(self).dead,
                self.body@ =~= old(self).body@ + Seq::new(k as nat, (|i: int| Direction::Idle)),
            decreases n - k,
        {
            self.body.push(Direction::Idle);
            k = k + 1;
            proof {
                assert(self.body@ =~= old(self).body@ + Seq::new(
                    k as nat,
                    (|i: int| Direction::Idle),
                ));
            }
        }
        proof {
            assert(self.body@ == old(self).body@ + Seq::new(
                n as nat,
                (|i: int| Direction::Idle),
            ));
        }
    }

    /// Sets the current heading to `d`, unless `d` is the exact inverse of
    /// the current heading — an instant reversal into the second segment is
    /// refused and the heading stays as it was.  A snake with no segments is
    /// left untouched.
    pub fn dir(&mut self, d: Direction)
        ensures
            final(self).head_x == old(self).head_x,
            final(self).head_y == old(self).head_y,
            final(self).color == old(self).color,
            final(self).dead == old(self).dead,
            old(self).body@.len() == 0 ==> final(self).body@ == old(self).body@,
            old(self).body@.len() > 0 && old(self).body@[0].inv_spec() == d ==> final(self).body@
                == old(self).body@,
            old(self).body@.len() > 0 && old(self).body@[0].inv_spec() != d ==> final(self).body@
                == old(self).body@.update(0, d),
            old(self).wf() ==> final(self).wf(),
    {
        if self.body.len() > 0 {
            let h = self.body[0];
            if !(h.inv() == d) {
                self.body.set(0, d);
            }
        }
    }

    /// The color segment `i` is drawn in: the head in the live color — or
    /// the dead-indicator color — and every trailing segment in a darkened
    /// variant of it.
    pub open spec fn seg_color(self, i: int) -> u32 {
        let base = if self.dead {
            DEAD_COLOR
        } else {
            self.color
        };
        if i == 0 {
            base
        } else {
            darken_spec(base, TAIL_SHADE as int)
        }
    }

    /// Tile column of segment `i`, reconstructed from the heading history.
    pub open spec fn seg_tile_x(self, i: int) -> int {
        self.head_tile_x() - walk_x(self.body@, i)
    }

    /// Tile row of segment `i`.
    pub open spec fn seg_tile_y(self, i: int) -> int {
        self.head_tile_y() - walk_y(self.body@, i)
    }

    /// Draws the snake onto the buffer: every segment's tile block is
    /// filled, in order from the head outward, so a later segment paints
    /// over an earlier one where they overlap.
    #[verifier::loop_isolation(false)]
    pub fn render(&self, buffer: &mut Vec<u32>)
        requires
            self.head_in_range(),
        ensures
            final(buffer)@.len() == old(buffer)@.len(),
            final(buffer)@ == snake_painted(*self, old(buffer)@, self.body@.len() as int),
    {
        proof {
            lemma_tile_bounds(self.head_x as int);
            lemma_tile_bounds(self.head_y as int);
        }
        let tx = tile_of(self.head_x);
        let ty = tile_of(self.head_y);
        let base = if self.dead {
            DEAD_COLOR
        } else {
            self.color
        };
        let tail = darken(base, TAIL_SHADE);
        let mut rx: i128 = tx as i128;
        let mut ry: i128 = ty as i128;
        let n = self.body.len();
        let mut i: usize = 0;
        while i < n
            invariant
                0 <= i <= n,
                rx == self.seg_tile_x(if i == 0 {
                    0int
                } else {
                    i - 1
                }),
                ry == self.seg_tile_y(if i == 0 {
                    0int
                } else {
                    i - 1
                }),
                self.head_tile_x() - i <= rx <= self.head_tile_x() + i,
                self.head_tile_y() - i <= ry <= self.head_tile_y() + i,
                buffer@.len() == old(buffer)@.len(),
                buffer@ == snake_painted(*self, old(buffer)@, i as int),
            decreases n - i,
        {
            if i > 0 {
                let d = self.body[i];
                let dd = d.delta();
                rx = rx - dd.0 as i128;
                ry = ry - dd.1 as i128;
                proof {
                    assert(walk_x(self.body@, i as int) == walk_x(self.body@, i - 1) + self.body@[
                        i as int].dx());
                    assert(walk_y(self.body@, i as int) == walk_y(self.body@, i - 1) + self.body@[
                        i as int].dy());
                }
            }
            let c = if i == 0 {
                base
            } else {
                tail
            };
            fill_tile(buffer, rx, ry, c);
            proof {
                assert(buffer@ =~= snake_painted(*self, old(buffer)@, i as int + 1));
            }
            i = i + 1;
        }
    }
}

/// The buffer after the first `n` segments of the snake have been drawn,
/// head first: each segment fills its tile block with its color, painting
/// over whatever was there.
pub open spec fn snake_painted(s: Snake, buf: Seq<u32>, n: int) -> Seq<u32>
    decreases n,
{
    if n <= 0 {
        buf
    } else {
        let prev = snake_painted(s, buf, n - 1);
        Seq::new(
            prev.len(),
            (|k: int|
                if covered(s.seg_tile_x(n - 1), s.seg_tile_y(n - 1), k) {
                    s.seg_color(n - 1)
                } else {
                    prev[k]
                }),
        )
    }
}

/// The self-collision test charges only trailing segments, never the head
/// itself: the result is the same whatever heading segment 0 holds.
pub proof fn lemma_collision_ignores_head_segment(s: Snake, d: Direction, px: int, py: int)
    requires
        s.body@.len() >= 1,
    ensures
        hits_from(s.body@.update(0, d), s.head_tile_x(), s.head_tile_y(), px, py) == s.hits(
            px,
            py,
        ),
{
    let b = s.body@;
    let b2 = b.update(0, d);
    assert forall|i: int| 0 <= i < b.len() implies walk_x(b2, i) == walk_x(b, i) && walk_y(
        b2,
        i,
    ) == walk_y(b, i) by {
        lemma_walk_update_head(b, d, i);
    }
}

/// Replacing segment 0 changes no walk sum: the sums only read segments
/// `1..=i`.
proof fn lemma_walk_update_head(b: Seq<Direction>, d: Direction, i: int)
    requires
        0 <= i < b.len(),
    ensures
        walk_x(b.update(0, d), i) == walk_x(b, i),
        walk_y(b.update(0, d), i) == walk_y(b, i),
    decreases i,
{
    if i > 0 {
        lemma_walk_update_head(b, d, i - 1);
    }
}

/// The head's own tile is reported free whenever no trailing segment's
/// offsets sum to zero — that is, whenever no part of the body has looped
/// back onto the head.  (A body whose history closes a loop, such as
/// `Up, Left, Down, Right`, genuinely occupies the head's tile and is the
/// self-collision that `update` must detect.)
pub proof fn lemma_no_hit_at_head(s: Snake)
    requires
        forall|i: int|
            1 <= i < s.body@.len() && s.body@[i] != Direction::Idle ==> !(walk_x(s.body@, i) == 0
                && walk_y(s.body@, i) == 0),
    ensures
        !s.hits(s.head_tile_x(), s.head_tile_y()),
{
}

/// A snake whose trailing segments all still hold `Idle` — as right after
/// construction or a reset — reports no tile occupied at all.
pub proof fn lemma_fresh_snake_no_hit(s: Snake, px: int, py: int)
    requires
        forall|i: int| 1 <= i < s.body@.len() ==> s.body@[i] == Direction::Idle,
    ensures
        !s.hits(px, py),
{
}

/// A live snake whose head's tile crosses out of the grid on either axis —
/// a column left of 0 or at or beyond the grid's width, or a row outside
/// its height — is dead after that update.
pub proof fn lemma_boundary_death(s: Snake, step: int)
    requires
        !s.dead,
        tile_spec(s.moved_x(step)) < 0 || tile_spec(s.moved_x(step)) >= GRID_W as int || tile_spec(
            s.moved_y(step),
        ) < 0 || tile_spec(s.moved_y(step)) >= GRID_H as int,
    ensures
        s.next_dead(step),
{
}

} // verus!
