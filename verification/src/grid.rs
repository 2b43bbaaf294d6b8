//! The playing field: score, fruit cells, the owned snake, and the random
//! source used to place fruit.
//!
//! Cells are stored row-major: the cell of tile column `nx` and tile row
//! `ny` sits at index `ny * GRID_W + nx`.

use vstd::prelude::*;
use rand::rngs::ThreadRng;
use crate::direction::Direction;
use crate::fruit::Fruit;
use crate::pixels::{covered, fill_tile};
use crate::rng::{fresh_rng, random_below};
use crate::shade::{darken, darken_spec};
use crate::snake::{Snake, snake_painted};
use crate::units::{tile_of, lemma_tile_bounds, GRID_W, GRID_H, CELL_COUNT, TILE_UNITS, MAX_STEP};

verus! {

/// Tile column of cell `i` in the row-major cell order.
pub open spec fn cell_x(i: int) -> int {
    i % (GRID_W as int)
}

/// Tile row of cell `i`.
pub open spec fn cell_y(i: int) -> int {
    i / (GRID_W as int)
}

/// Background brightness of cell `i`, in per-mille: a floor ambient of one
/// tenth plus a linear gradient over the cell's normalized column and row —
/// its column as a fraction of the grid's width and its row as a fraction
/// of the grid's height — adding up to nine tenths more toward the far
/// corner.
pub open spec fn light_spec(i: int) -> int {
    100 + 450 * cell_x(i) / (GRID_W as int) + 450 * cell_y(i) / (GRID_H as int)
}

/// The color cell `i` is filled with: a fruit's flat color, or the
/// position-dependent darkened background shade of an empty cell.
pub open spec fn cell_color(g: Grid, i: int) -> u32 {
    if g.data@[i] == Fruit::Empty {
        darken_spec(0xFFFFFFFFu32, light_spec(i))
    } else {
        g.data@[i].color_spec()
    }
}

/// The buffer after the first `n` cells have been drawn, in cell order.
pub open spec fn cells_painted(g: Grid, buf: Seq<u32>, n: int) -> Seq<u32>
    decreases n,
{
    if n <= 0 {
        buf
    } else {
        let prev = cells_painted(g, buf, n - 1);
        Seq::new(
            prev.len(),
            (|k: int|
                if covered(cell_x(n - 1), cell_y(n - 1), k) {
                    cell_color(g, n - 1)
                } else {
                    prev[k]
                }),
        )
    }
}

/// Number of apples held by a sequence of cells.
pub open spec fn apples(s: Seq<Fruit>) -> nat
    decreases s.len(),
{
    if s.len() == 0 {
        0
    } else {
        apples(s.drop_last()) + (if s.last() == Fruit::Apple {
            1nat
        } else {
            0nat
        })
    }
}

/// A cell sequence holds no apple exactly when no cell is an apple.
pub proof fn lemma_apples_zero(s: Seq<Fruit>)
    ensures
        (apples(s) == 0) <==> (forall|k: int| 0 <= k < s.len() ==> s[k] != Fruit::Apple),
    decreases s.len(),
{
    if s.len() > 0 {
        lemma_apples_zero(s.drop_last());
        assert(forall|k: int| 0 <= k < s.len() - 1 ==> s.drop_last()[k] == s[k]);
        assert(s.last() == s[s.len() - 1]);
    }
}

/// Writing one cell changes the apple count by exactly the difference the
/// written cell makes.
pub proof fn lemma_apples_update(s: Seq<Fruit>, j: int, v: Fruit)
    requires
        0 <= j < s.len(),
    ensures
        apples(s.update(j, v)) == apples(s) - (if s[j] == Fruit::Apple {
            1int
        } else {
            0int
        }) + (if v == Fruit::Apple {
            1int
        } else {
            0int
        }),
    decreases s.len(),
{
    let t = s.update(j, v);
    if j == s.len() - 1 {
        assert(t.drop_last() =~= s.drop_last());
        assert(t.last() == v);
    } else {
        assert(t.drop_last() =~= s.drop_last().update(j, v));
        assert(t.last() == s.last());
        lemma_apples_update(s.drop_last(), j, v);
    }
}

/// Placing an apple onto a fruit-free grid leaves exactly one apple: the
/// written cell holds it and every other cell stays free of apples.
pub proof fn lemma_single_apple(s: Seq<Fruit>, j: int)
    requires
        0 <= j < s.len(),
        apples(s) == 0,
    ensures
        apples(s.update(j, Fruit::Apple)) == 1,
        s.update(j, Fruit::Apple)[j] == Fruit::Apple,
        forall|k: int|
            0 <= k < s.len() && k != j ==> s.update(j, Fruit::Apple)[k] != Fruit::Apple,
{
    lemma_apples_update(s, j, Fruit::Apple);
    lemma_apples_zero(s);
}

pub struct Grid {
    /// Number of fruits eaten since the last reset; capped at the number of
    /// cells, where the win condition ends the game.
    pub score: u32,
    /// Random source for fruit placement.
    pub rng: ThreadRng,
    /// The player's snake.
    pub snake: Snake,
    /// Fruit state per cell, row-major.
    pub data: Vec<Fruit>,
}

impl Grid {
    /// Well-formedness: the cell count is fixed, the snake is well-formed,
    /// at most one apple exists, and a full score leaves no apple behind.
    pub open spec fn wf(self) -> bool {
        &&& self.data@.len() == CELL_COUNT as int
        &&& self.snake.wf()
        &&& apples(self.data@) <= 1
        &&& self.score <= CELL_COUNT as u32
        &&& (self.score == CELL_COUNT as u32 ==> apples(self.data@) == 0)
    }

    /// The cell index under the snake's head.
    pub open spec fn head_cell(self) -> int {
        self.snake.head_tile_y() * (GRID_W as int) + self.snake.head_tile_x()
    }

    /// Whether the head stands on a cell of the grid that holds a fruit.
    pub open spec fn head_on_fruit(self) -> bool {
        0 <= self.head_cell() < self.data@.len() && self.data@[self.head_cell()] != Fruit::Empty
    }

    /// Whether some grid tile is not occupied by the snake's trailing
    /// segments, so that a fruit can be placed.
    pub open spec fn has_free_cell(self) -> bool {
        exists|nx: int, ny: int|
            0 <= nx < GRID_W as int && 0 <= ny < GRID_H as int && !self.snake.hits(nx, ny)
    }

    /// Allocates a fully initialized play state: an all-empty grid, a fresh
    /// snake at the given coordinate, score 0, and one spawned apple.
    pub fn new(head_x: i64, head_y: i64, color: u32) -> (g: Grid)
        requires
            -(TILE_UNITS as int) < head_x < (GRID_W as int) * (TILE_UNITS as int),
            -(TILE_UNITS as int) < head_y < (GRID_H as int) * (TILE_UNITS as int),
        ensures
            g.wf(),
            g.score == 0,
            g.snake.head_x == head_x,
            g.snake.head_y == head_y,
            g.snake.color == color,
            g.snake.dead == false,
            g.snake.body@ =~= seq![
                Direction::Right,
                Direction::Idle,
                Direction::Idle,
                Direction::Idle,
                Direction::Idle,
            ],
            apples(g.data@) == 1,
            exists|nx: int, ny: int|
                {
                    &&& 0 <= nx < GRID_W as int
                    &&& 0 <= ny < GRID_H as int
                    &&& !g.snake.hits(nx, ny)
                    &&& g.data@ == Seq::new(CELL_COUNT as nat, (|i: int| Fruit::Empty)).update(
                        ny * (GRID_W as int) + nx,
                        Fruit::Apple,
                    )
                },
    {
        let snake = Snake::new(head_x, head_y, color);
        let mut data: Vec<Fruit> = Vec::new();
        let mut i: usize = 0;
        #[verifier::loop_isolation(false)]
        while i < CELL_COUNT
            invariant
                i <= CELL_COUNT,
                data@ =~= Seq::new(i as nat, (|k: int| Fruit::Empty)),
            decreases CELL_COUNT - i,
        {
            data.push(Fruit::Empty);
            i = i + 1;
        }
        proof {
            lemma_apples_zero(data@);
        }
        let mut g = Grid { score: 0, rng: fresh_rng(), snake, data };
        proof {
            crate::snake::lemma_fresh_snake_no_hit(g.snake, 0, 0);
        }
        g.spawn(Fruit::Apple);
        g
    }

    /// Sets the score back to 0 and revives the snake; the fruit layout is
    /// deliberately left as it is.
    pub fn reset(&mut self)
        requires
            old(self).wf(),
        ensures
            final(self).wf(),
            final(self).score == 0,
            final(self).data@ == old(self).data@,
            final(self).snake.head_x == 0,
            final(self).snake.head_y == 0,
            final(self).snake.color == old(self).snake.color,
            final(self).snake.dead == false,
            final(self).snake.body@ =~= seq![Direction::Right],
    {
        self.score = 0;
        self.snake.reset();
    }

    /// Places `f` at a uniformly chosen grid cell that the snake's trailing
    /// segments do not occupy.  When every cell is occupied — which the
    /// orchestrated game prevents through its win condition — the grid is
    /// left unchanged.
    #[verifier::loop_isolation(false)]
    pub fn spawn(&mut self, f: Fruit)
        requires
            old(self).wf(),
            f == Fruit::Apple ==> apples(old(self).data@) == 0 && old(self).score < CELL_COUNT
                as u32,
        ensures
            final(self).wf(),
            final(self).score == old(self).score,
            final(self).snake == old(self).snake,
            old(self).has_free_cell() ==> exists|nx: int, ny: int|
                {
                    &&& 0 <= nx < GRID_W as int
                    &&& 0 <= ny < GRID_H as int
                    &&& !old(self).snake.hits(nx, ny)
                    &&& final(self).data@ == old(self).data@.update(
                        ny * (GRID_W as int) + nx,
                        f,
                    )
                },
            !old(self).has_free_cell() ==> final(self).data@ == old(self).data@,
            f == Fruit::Apple && old(self).has_free_cell() ==> apples(final(self).data@) == 1,
    {
        let mut free: Vec<u32> = Vec::new();
        let mut c: u32 = 0;
        while c < CELL_COUNT as u32
            invariant
                c <= CELL_COUNT as u32,
                free@.len() <= c,
                forall|k: int|
                    0 <= k < free@.len() ==> (0 <= #[trigger] free@[k] < CELL_COUNT as u32
                        && !self.snake.hits(free@[k] as int % (GRID_W as int), free@[k] as int / (
                        GRID_W as int))),
                (exists|cc: int|
                    0 <= cc < c && !(#[trigger] self.snake.hits(
                        cc % (GRID_W as int),
                        cc / (GRID_W as int),
                    ))) ==> free@.len() > 0,
            decreases CELL_COUNT as u32 - c,
        {
            let nx = c % (GRID_W as u32);
            let ny = c / (GRID_W as u32);
            let hit = self.snake.collision(nx as i64, ny as i64);
            if !hit {
                free.push(c);
            }
            c = c + 1;
        }
        if free.len() == 0 {
            proof {
                assert forall|nx: int, ny: int|
                    0 <= nx < GRID_W as int && 0 <= ny < GRID_H as int implies self.snake.hits(
                    nx,
                    ny,
                ) by {
                    let cc = ny * (GRID_W as int) + nx;
                    vstd::arithmetic::div_mod::lemma_fundamental_div_mod_converse(
                        cc,
                        GRID_W as int,
                        ny,
                        nx,
                    );
                }
            }
            return ;
        }
        let pick = random_below(&mut self.rng, free.len() as u32);
        let cell = free[pick as usize];
        let ghost data0 = self.data@;
        if (cell as usize) < self.data.len() {
            self.data.set(cell as usize, f);
        }
        proof {
            let cc = cell as int;
            vstd::arithmetic::div_mod::lemma_fundamental_div_mod(cc, GRID_W as int);
            vstd::arithmetic::div_mod::lemma_mod_bound(cc, GRID_W as int);
            let nx = cc % (GRID_W as int);
            let ny = cc / (GRID_W as int);
            assert(0 <= nx < GRID_W as int);
            assert(0 <= ny < GRID_H as int);
            assert(ny * (GRID_W as int) + nx == cc);
            assert(!old(self).snake.hits(nx, ny));
            assert(self.data@ == old(self).data@.update(ny * (GRID_W as int) + nx, f));
            lemma_apples_update(data0, cc, f);
            if f == Fruit::Apple {
                lemma_apples_zero(data0);
            }
        }
    }

    /// Advances the owned snake by `step` units.
    pub fn update(&mut self, step: i64)
        requires
            old(self).wf(),
            0 <= step <= MAX_STEP,
        ensures
            final(self).wf(),
            final(self).score == old(self).score,
            final(self).data@ == old(self).data@,
            final(self).snake.color == old(self).snake.color,
            old(self).snake.dead ==> final(self).snake == old(self).snake,
            !old(self).snake.dead ==> {
                &&& final(self).snake.head_x == old(self).snake.moved_x(step as int)
                &&& final(self).snake.head_y == old(self).snake.moved_y(step as int)
                &&& final(self).snake.body@ == old(self).snake.next_body(step as int)
                &&& final(self).snake.dead == old(self).snake.next_dead(step as int)
            },
    {
        self.snake.update(step);
    }

    /// Processes eating: when the cell under the head holds a fruit, clears
    /// it and counts a point; below capacity a new apple is spawned and the
    /// snake grows by one, at capacity the snake is marked dead instead —
    /// the win condition.
    pub fn eat(&mut self)
        requires
            old(self).wf(),
        ensures
            final(self).wf(),
            final(self).score == old(self).score + (if old(self).head_on_fruit() {
                1int
            } else {
                0int
            }),
            !old(self).head_on_fruit() ==> (final(self).data@ == old(self).data@ && final(self).snake
                == old(self).snake),
            old(self).head_on_fruit() && old(self).score + 1 < CELL_COUNT as int ==> {
                &&& final(self).snake.head_x == old(self).snake.head_x
                &&& final(self).snake.head_y == old(self).snake.head_y
                &&& final(self).snake.color == old(self).snake.color
                &&& final(self).snake.dead == old(self).snake.dead
                &&& final(self).snake.body@ == old(self).snake.body@ + seq![Direction::Idle]
                &&& (old(self).has_free_cell() ==> exists|nx: int, ny: int|
                    {
                        &&& 0 <= nx < GRID_W as int
                        &&& 0 <= ny < GRID_H as int
                        &&& !old(self).snake.hits(nx, ny)
                        &&& final(self).data@ == old(self).data@.update(
                            old(self).head_cell(),
                            Fruit::Empty,
                        ).update(ny * (GRID_W as int) + nx, Fruit::Apple)
                    })
                &&& (old(self).has_free_cell() ==> apples(final(self).data@) == 1)
                &&& (!old(self).has_free_cell() ==> final(self).data@ == old(self).data@.update(
                    old(self).head_cell(),
                    Fruit::Empty,
                ))
            },
            old(self).head_on_fruit() && old(self).score + 1 >= CELL_COUNT as int ==> {
                &&& final(self).snake.head_x == old(self).snake.head_x
                &&& final(self).snake.head_y == old(self).snake.head_y
                &&& final(self).snake.color == old(self).snake.color
                &&& final(self).snake.body@ == old(self).snake.body@
                &&& final(self).snake.dead == true
                &&& final(self).data@ == old(self).data@.update(
                    old(self).head_cell(),
                    Fruit::Empty,
                )
            },
    {
        proof {
            lemma_tile_bounds(self.snake.head_x as int);
            lemma_tile_bounds(self.snake.head_y as int);
        }
        let tx = tile_of(self.snake.head_x);
        let ty = tile_of(self.snake.head_y);
        let idx_i: i64 = ty * GRID_W + tx;
        if 0 <= idx_i && (idx_i as usize) < self.data.len() {
            let index = idx_i as usize;
            let here = self.data[index];
            if !(here == Fruit::Empty) {
                let ghost data0 = self.data@;
                proof {
                    lemma_apples_zero(data0);
                    lemma_apples_update(data0, index as int, Fruit::Empty);
                }
                self.data.set(index, Fruit::Empty);
                self.score = self.score + 1;
                if self.score < CELL_COUNT as u32 {
                    self.spawn(Fruit::Apple);
                    self.snake.grow(1);
                    proof {
                        assert(self.snake.body@ =~= old(self).snake.body@ + seq![
                            Direction::Idle,
                        ]);
                    }
                } else {
                    self.snake.dead = true;
                }
            }
        }
    }

    /// Draws one cell: its tile block is filled with the fruit's color, or
    /// with the background gradient shade where the cell is empty.
    pub fn render_part(&self, buffer: &mut Vec<u32>, f_index: usize)
        requires
            self.data@.len() == CELL_COUNT as int,
            f_index < CELL_COUNT,
        ensures
            final(buffer)@.len() == old(buffer)@.len(),
            forall|k: int|
                0 <= k < old(buffer)@.len() ==> final(buffer)@[k] == (if covered(
                    cell_x(f_index as int),
                    cell_y(f_index as int),
                    k,
                ) {
                    cell_color(*self, f_index as int)
                } else {
                    old(buffer)@[k]
                }),
    {
        let mx = f_index % (GRID_W as usize);
        let my = f_index / (GRID_W as usize);
        let here = self.data[f_index];
        let c = if here == Fruit::Empty {
            let light: u32 = 100 + (450 * mx as u32) / (GRID_W as u32) + (450 * my as u32) / (
            GRID_H as u32);
            darken(here.color(), light)
        } else {
            here.color()
        };
        fill_tile(buffer, mx as i128, my as i128, c);
    }

    /// Renders the whole play state: every cell's block in cell order, then
    /// the snake on top.
    #[verifier::loop_isolation(false)]
    pub fn render(&self, buffer: &mut Vec<u32>)
        requires
            self.wf(),
        ensures
            final(buffer)@.len() == old(buffer)@.len(),
            final(buffer)@ == snake_painted(
                self.snake,
                cells_painted(*self, old(buffer)@, CELL_COUNT as int),
                self.snake.body@.len() as int,
            ),
    {
        let mut i: usize = 0;
        while i < CELL_COUNT
            invariant
                i <= CELL_COUNT,
                buffer@.len() == old(buffer)@.len(),
                buffer@ == cells_painted(*self, old(buffer)@, i as int),
            decreases CELL_COUNT - i,
        {
            self.render_part(buffer, i);
            proof {
                assert(buffer@ =~= cells_painted(*self, old(buffer)@, i as int + 1));
            }
            i = i + 1;
        }
        self.snake.render(buffer);
    }
}

} // verus!
