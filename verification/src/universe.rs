//! The Game-of-Life engine: a fixed-size toroidal grid of cells and the
//! operations that construct, mutate, advance and render it.
//!
//! The grid is stored row-major: the cell at row `r`, column `c` lives at
//! linear index `r * width + c`.  Width and height are fixed at construction
//! time and stay positive for the lifetime of the universe.

use vstd::prelude::*;

verus! {

use vstd::arithmetic::div_mod::{
    lemma_fundamental_div_mod, lemma_fundamental_div_mod_converse, lemma_mod_bound,
};
use vstd::pervasive::VecAdditionalExecFns;
use vstd::string::StringExecFns;
use crate::torus::{wrap_add, wrap_spec};

/// One grid position's binary state.
#[derive(Clone, Copy, Debug, PartialEq, Eq, Structural)]
pub enum Cell {
    Dead,
    Alive,
}

/// The opposite of a cell state.
pub open spec fn flipped(c: Cell) -> Cell {
    match c {
        Cell::Dead => Cell::Alive,
        Cell::Alive => Cell::Dead,
    }
}

impl Cell {
    /// Flips the state in place: Dead becomes Alive and Alive becomes Dead.
    fn toggle(&mut self)
        ensures
            *final(self) == flipped(*old(self)),
    {
        *self = match *self {
            Cell::Dead => Cell::Alive,
            Cell::Alive => Cell::Dead,
        };
    }
}

/// The state a cell takes in the next generation under the B3/S23 rule:
/// a live cell survives with two or three live neighbors and otherwise
/// dies; a dead cell comes alive with exactly three live neighbors.
pub open spec fn next_cell(cur: Cell, live_neighbors: int) -> Cell {
    match cur {
        Cell::Alive => if 2 <= live_neighbors <= 3 {
            Cell::Alive
        } else {
            Cell::Dead
        },
        Cell::Dead => if live_neighbors == 3 {
            Cell::Alive
        } else {
            Cell::Dead
        },
    }
}

/// The deterministic seed: the cell at linear index `i` starts Alive
/// exactly when `i` is divisible by 2 or by 7.
pub open spec fn seed_cell(i: int) -> Cell {
    if i % 2 == 0 || i % 7 == 0 {
        Cell::Alive
    } else {
        Cell::Dead
    }
}

/// A fixed-size toroidal Game-of-Life grid.
///
/// The fields are exposed for specification purposes; callers interact with
/// the grid through the methods, which keep [`Universe::wf`] invariant.
pub struct Universe {
    /// Number of columns; positive and fixed at construction.
    pub width: usize,
    /// Number of rows; positive and fixed at construction.
    pub height: usize,
    /// The cell buffer, row-major, of length exactly `width * height`.
    pub cells: Vec<Cell>,
}

impl Universe {
    /// Shape invariant: positive dimensions and a cell buffer of exactly
    /// `width * height` entries.
    pub open spec fn wf(self) -> bool {
        &&& 0 < self.width
        &&& 0 < self.height
        &&& self.cells@.len() == self.width * self.height
    }

    /// Linear index of the cell at `row, col` in the row-major buffer.
    pub open spec fn index_of(self, row: int, col: int) -> int {
        row * self.width + col
    }

    /// The state of the cell at `row, col` (0-indexed, in range).
    pub open spec fn cell_at(self, row: int, col: int) -> Cell {
        self.cells@[self.index_of(row, col)]
    }

    /// 1 when the neighbor of `row, col` at offset `dr, dc` — with the
    /// coordinate wrapped toroidally — is alive, else 0.
    pub open spec fn neighbor_ind(self, row: int, col: int, dr: int, dc: int) -> int {
        if self.cell_at(
            wrap_spec(row, dr, self.height as int),
            wrap_spec(col, dc, self.width as int),
        ) is Alive {
            1int
        } else {
            0int
        }
    }

    /// How many of the eight Moore neighbors of `row, col` are alive.
    /// Every neighbor coordinate wraps toroidally, so edge cells see the
    /// opposite edge; the count is always in `[0, 8]`.
    pub open spec fn live_neighbors(self, row: int, col: int) -> int {
        self.neighbor_ind(row, col, -1, -1) + self.neighbor_ind(row, col, -1, 0)
            + self.neighbor_ind(row, col, -1, 1) + self.neighbor_ind(row, col, 0, -1)
            + self.neighbor_ind(row, col, 0, 1) + self.neighbor_ind(row, col, 1, -1)
            + self.neighbor_ind(row, col, 1, 0) + self.neighbor_ind(row, col, 1, 1)
    }

    /// Builds a `width` by `height` universe with the deterministic seed:
    /// cell `i` is Alive exactly when `i mod 2 == 0` or `i mod 7 == 0`.
    pub fn new(width: usize, height: usize) -> (u: Universe)
        requires
            0 < width,
            0 < height,
            width * height <= usize::MAX,
        ensures
            u.wf(),
            u.width == width,
            u.height == height,
            forall|i: int| 0 <= i < width * height ==> u.cells@[i] == seed_cell(i),
    {
        let n: usize = width * height;
        let mut cells: Vec<Cell> = Vec::new();
        let mut i: usize = 0;
        while i < n
            invariant
                i <= n,
                cells@.len() == i,
                forall|j: int| 0 <= j < i ==> cells@[j] == seed_cell(j),
            decreases n - i,
        {
            let c = if i % 2 == 0 || i % 7 == 0 {
                Cell::Alive
            } else {
                Cell::Dead
            };
            cells.push(c);
            i = i + 1;
        }
        Universe { width, height, cells }
    }

    /// Builds a `width` by `height` universe from an externally drawn
    /// sequence of random booleans, one per cell in row-major order: cell
    /// `i` is Alive exactly when `seed[i]` is true.  The randomness itself
    /// is a host concern; this constructor is deterministic in `seed`.
    pub fn random_new(width: usize, height: usize, seed: &Vec<bool>) -> (u: Universe)
        requires
            0 < width,
            0 < height,
            width * height <= usize::MAX,
            seed@.len() == width * height,
        ensures
            u.wf(),
            u.width == width,
            u.height == height,
            forall|i: int|
                0 <= i < width * height ==> u.cells@[i] == (if seed@[i] {
                    Cell::Alive
                } else {
                    Cell::Dead
                }),
    {
        let n: usize = width * height;
        let mut cells: Vec<Cell> = Vec::new();
        let mut i: usize = 0;
        while i < n
            invariant
                i <= n,
                n == seed@.len(),
                cells@.len() == i,
                forall|j: int|
                    0 <= j < i ==> cells@[j] == (if seed@[j] {
                        Cell::Alive
                    } else {
                        Cell::Dead
                    }),
            decreases n - i,
        {
            let c = if seed[i] {
                Cell::Alive
            } else {
                Cell::Dead
            };
            cells.push(c);
            i = i + 1;
        }
        Universe { width, height, cells }
    }

    /// Number of columns.
    pub fn width(&self) -> (w: usize)
        ensures
            w == self.width,
    {
        self.width
    }

    /// Number of rows.
    pub fn height(&self) -> (h: usize)
        ensures
            h == self.height,
    {
        self.height
    }

    /// Read-only view of the cell buffer, row-major, one value per cell,
    /// borrowed from this universe for zero-copy rendering by a host.
    pub fn cells(&self) -> (cells: &Vec<Cell>)
        ensures
            cells@ == self.cells@,
    {
        &self.cells
    }

    /// Linear index of the cell at `row, col`; in bounds whenever the
    /// coordinate is.
    fn get_index(&self, row: usize, col: usize) -> (idx: usize)
        requires
            self.wf(),
            row < self.height,
            col < self.width,
        ensures
            idx == self.index_of(row as int, col as int),
            idx < self.cells@.len(),
    {
        let n = self.cells.len();
        proof {
            lemma_row_major_index_bound(
                row as int,
                col as int,
                self.width as int,
                self.height as int,
            );
            assert(row * self.width + col < n);
        }
        row * self.width + col
    }

    /// Flips the cell at `row, col` in place, leaving every other cell
    /// unchanged.
    pub fn toggle_cell(&mut self, row: usize, col: usize)
        requires
            old(self).wf(),
            row < old(self).height,
            col < old(self).width,
        ensures
            toggle_step(*old(self), *final(self), row as int, col as int),
    {
        let idx = self.get_index(row, col);
        let mut c = self.cells[idx];
        c.toggle();
        self.cells.set(idx, c);
    }
    /// The textual rendering of the grid: `height` lines, each holding the
    /// `width` glyphs of one row and ending in a newline — one flat
    /// character sequence in which every `(width + 1)`-th character is the
    /// line break.
    pub open spec fn rendered(self) -> Seq<char> {
        Seq::new(
            ((self.height as int) * (self.width as int + 1)) as nat,
            |k: int|
                if k % (self.width as int + 1) == self.width as int {
                    '\n'
                } else {
                    glyph(
                        self.cell_at(
                            k / (self.width as int + 1),
                            k % (self.width as int + 1),
                        ),
                    )
                },
        )
    }

    /// The rendering character of line `row` at position `col`: the glyph
    /// of the cell there for `col < width`, and the line break at
    /// `col == width`.
    pub open spec fn rendered_at(self, row: int, col: int) -> char {
        self.rendered()[row * (self.width + 1) + col]
    }

    /// Renders the grid as text, one row per line: each cell is drawn as
    /// its glyph and each row ends with a newline.  A pure read; the grid
    /// is unchanged.
    pub fn render(&self) -> (s: String)
        requires
            self.wf(),
        ensures
            s@ == self.rendered(),
    {
        let mut s = String::new();
        let mut row: usize = 0;
        while row < self.height
            invariant
                self.wf(),
                row <= self.height,
                s@.len() == row * (self.width as int + 1),
                forall|k: int| 0 <= k < s@.len() ==> s@[k] == self.rendered()[k],
            decreases self.height - row,
        {
            let mut col: usize = 0;
            while col < self.width
                invariant
                    self.wf(),
                    row < self.height,
                    col <= self.width,
                    s@.len() == row * (self.width as int + 1) + col,
                    forall|k: int| 0 <= k < s@.len() ==> s@[k] == self.rendered()[k],
                decreases self.width - col,
            {
                let idx = self.get_index(row, col);
                if matches!(self.cells[idx], Cell::Alive) {
                    s.append("◼");
                } else {
                    s.append("◻");
                }
                proof {
                    reveal_strlit("◼");
                    reveal_strlit("◻");
                    lemma_rendered_entry(*self, row as int, col as int);
                }
                col = col + 1;
            }
            s.append("\n");
            proof {
                reveal_strlit("\n");
                lemma_rendered_entry(*self, row as int, self.width as int);
                assert((row as int + 1) * (self.width as int + 1) == row as int * (self.width
                    as int + 1) + (self.width as int + 1)) by (nonlinear_arith);
            }
            row = row + 1;
        }
        proof {
            assert(s@ =~= self.rendered());
        }
        s
    }

    /// 1 when the toroidally wrapped neighbor of `row, col` at offset
    /// `dr, dc` is alive, else 0.
    fn neighbor_alive(&self, row: usize, col: usize, dr: i32, dc: i32) -> (b: u8)
        requires
            self.wf(),
            row < self.height,
            col < self.width,
        ensures
            b == self.neighbor_ind(row as int, col as int, dr as int, dc as int),
    {
        let nr = wrap_add(row, dr, self.height);
        let nc = wrap_add(col, dc, self.width);
        let idx = self.get_index(nr, nc);
        if matches!(self.cells[idx], Cell::Alive) {
            1
        } else {
            0
        }
    }

    /// Counts the live cells among the eight toroidally wrapped Moore
    /// neighbors of `row, col`.
    fn live_neighbour_count(&self, row: usize, col: usize) -> (count: u8)
        requires
            self.wf(),
            row < self.height,
            col < self.width,
        ensures
            count == self.live_neighbors(row as int, col as int),
            count <= 8,
    {
        let mut count: u8 = 0;
        count = count + self.neighbor_alive(row, col, -1, -1);
        count = count + self.neighbor_alive(row, col, -1, 0);
        count = count + self.neighbor_alive(row, col, -1, 1);
        count = count + self.neighbor_alive(row, col, 0, -1);
        count = count + self.neighbor_alive(row, col, 0, 1);
        count = count + self.neighbor_alive(row, col, 1, -1);
        count = count + self.neighbor_alive(row, col, 1, 0);
        count = count + self.neighbor_alive(row, col, 1, 1);
        count
    }

    /// Advances the whole grid by exactly one generation.  Every cell's
    /// next state is computed from the current generation alone — the new
    /// buffer replaces the old one only after every cell is computed — so
    /// no update observes another cell's already-updated state.
    /// Whether the grid position `r, c` is addressed by the pattern `pat`
    /// anchored at `row, col`: some offset in `pat`, added to the anchor and
    /// wrapped toroidally, lands on `r, c`.
    pub open spec fn covers(self, row: int, col: int, pat: Seq<(i32, i32)>, r: int, c: int) -> bool {
        exists|t: int|
            0 <= t < pat.len() && r == wrap_spec(row, pat[t].0 as int, self.height as int) && c
                == wrap_spec(col, pat[t].1 as int, self.width as int)
    }

    /// Whether the linear buffer index `j` is addressed by the pattern
    /// `pat` anchored at `row, col`.
    pub open spec fn covers_index(self, row: int, col: int, pat: Seq<(i32, i32)>, j: int) -> bool {
        exists|t: int|
            0 <= t < pat.len() && j == self.index_of(
                wrap_spec(row, pat[t].0 as int, self.height as int),
                wrap_spec(col, pat[t].1 as int, self.width as int),
            )
    }

    /// Sets every cell addressed by `pattern` anchored at `row, col` —
    /// each offset wrapped toroidally — to Alive, leaving all other cells
    /// unchanged.
    fn add_pattern(&mut self, row: usize, col: usize, pattern: &Vec<(i32, i32)>)
        requires
            old(self).wf(),
            row < old(self).height,
            col < old(self).width,
        ensures
            final(self).wf(),
            stamp_step(*old(self), *final(self), row as int, col as int, pattern@),
    {
        let mut k: usize = 0;
        while k < pattern.len()
            invariant
                self.wf(),
                self.width == old(self).width,
                self.height == old(self).height,
                self.cells@.len() == old(self).cells@.len(),
                row < self.height,
                col < self.width,
                k <= pattern@.len(),
                forall|j: int|
                    0 <= j < self.cells@.len() ==> self.cells@[j] == (if old(self).covers_index(
                        row as int,
                        col as int,
                        pattern@.take(k as int),
                        j,
                    ) {
                        Cell::Alive
                    } else {
                        old(self).cells@[j]
                    }),
            decreases pattern@.len() - k,
        {
            let off = pattern[k];
            let pr = wrap_add(row, off.0, self.height);
            let pc = wrap_add(col, off.1, self.width);
            let idx = self.get_index(pr, pc);
            self.cells.set(idx, Cell::Alive);
            proof {
                let pat = pattern@;
                let prefix = pat.take(k as int);
                let extended = pat.take(k as int + 1);
                assert(extended[k as int] == pat[k as int]);
                assert forall|j: int| 0 <= j < self.cells@.len() implies self.cells@[j] == (
                    if old(self).covers_index(row as int, col as int, extended, j) {
                        Cell::Alive
                    } else {
                        old(self).cells@[j]
                    }) by {
                    if j == idx {
                        assert(0 <= k && (k as int) < extended.len());
                        assert(extended[k as int] == pat[k as int]);
                        assert(off == pat[k as int]);
                        assert(pr as int == wrap_spec(row as int, off.0 as int, self.height as int));
                        assert(pr as int == wrap_spec(
                            row as int,
                            extended[k as int].0 as int,
                            old(self).height as int,
                        ));
                        assert(pc as int == wrap_spec(
                            col as int,
                            extended[k as int].1 as int,
                            old(self).width as int,
                        ));
                        assert(j == old(self).index_of(pr as int, pc as int));
                        assert(old(self).covers_index(row as int, col as int, extended, j));
                    } else {
                        if old(self).covers_index(row as int, col as int, extended, j) {
                            let t = choose|t: int|
                                0 <= t < extended.len() && j == old(self).index_of(
                                    wrap_spec(row as int, extended[t].0 as int, self.height as int),
                                    wrap_spec(col as int, extended[t].1 as int, self.width as int),
                                );
                            assert(t < k ==> prefix[t] == extended[t]);
                            assert(old(self).covers_index(row as int, col as int, prefix, j));
                        }
                        if old(self).covers_index(row as int, col as int, prefix, j) {
                            let t = choose|t: int|
                                0 <= t < prefix.len() && j == old(self).index_of(
                                    wrap_spec(row as int, prefix[t].0 as int, self.height as int),
                                    wrap_spec(col as int, prefix[t].1 as int, self.width as int),
                                );
                            assert(extended[t] == prefix[t]);
                            assert(old(self).covers_index(row as int, col as int, extended, j));
                        }
                    }
                }
            }
            k = k + 1;
        }
        proof {
            let pat = pattern@;
            let w = self.width as int;
            let h = self.height as int;
            assert(pat.take(k as int) =~= pat);
            assert forall|r: int, c: int| 0 <= r < h && 0 <= c < w implies self.cell_at(r, c) == (
                if old(self).covers(row as int, col as int, pat, r, c) {
                    Cell::Alive
                } else {
                    old(self).cell_at(r, c)
                }) by {
                lemma_row_major_index_bound(r, c, w, h);
                let j = r * w + c;
                if old(self).covers(row as int, col as int, pat, r, c) {
                    let t = choose|t: int|
                        0 <= t < pat.len() && r == wrap_spec(row as int, pat[t].0 as int, h) && c
                            == wrap_spec(col as int, pat[t].1 as int, w);
                    assert(old(self).covers_index(row as int, col as int, pat, j));
                }
                if old(self).covers_index(row as int, col as int, pat, j) {
                    let t = choose|t: int|
                        0 <= t < pat.len() && j == old(self).index_of(
                            wrap_spec(row as int, pat[t].0 as int, h),
                            wrap_spec(col as int, pat[t].1 as int, w),
                        );
                    let wr = wrap_spec(row as int, pat[t].0 as int, h);
                    let wc = wrap_spec(col as int, pat[t].1 as int, w);
                    lemma_mod_bound(row as int + pat[t].0 as int, h);
                    lemma_mod_bound(col as int + pat[t].1 as int, w);
                    lemma_row_major_index_inj(wr, wc, r, c, w, h);
                    assert(old(self).covers(row as int, col as int, pat, r, c));
                }
            }
        }
    }

    /// Stamps the five-cell glider at the anchor `row, col`: every cell the
    /// pattern addresses becomes Alive, all other cells are unchanged.
    pub fn add_slider(&mut self, row: usize, col: usize)
        requires
            old(self).wf(),
            row < old(self).height,
            col < old(self).width,
        ensures
            final(self).wf(),
            stamp_step(*old(self), *final(self), row as int, col as int, slider_offsets()),
    {
        let mut pattern: Vec<(i32, i32)> = Vec::new();
        pattern.push((0, -1));
        pattern.push((1, 0));
        pattern.push((-1, 1));
        pattern.push((0, 1));
        pattern.push((1, 1));
        proof {
            assert(pattern@ =~= slider_offsets());
        }
        self.add_pattern(row, col, &pattern);
    }

    /// Stamps the 48-cell pulsar at the anchor `row, col`: every cell the
    /// pattern addresses becomes Alive, all other cells are unchanged.
    pub fn add_pulsar(&mut self, row: usize, col: usize)
        requires
            old(self).wf(),
            row < old(self).height,
            col < old(self).width,
        ensures
            final(self).wf(),
            stamp_step(*old(self), *final(self), row as int, col as int, pulsar_offsets()),
    {
        let pattern = pulsar_pattern();
        self.add_pattern(row, col, &pattern);
    }

    pub fn tick(&mut self)
        requires
            old(self).wf(),
        ensures
            tick_step(*old(self), *final(self)),
    {
        let n = self.cells.len();
        let mut next: Vec<Cell> = Vec::new();
        let mut i: usize = 0;
        while i < n
            invariant
                self.wf(),
                *self == *old(self),
                n == self.cells@.len(),
                i <= n,
                next@.len() == i,
                forall|k: int|
                    0 <= k < i ==> next@[k] == next_cell(
                        self.cells@[k],
                        self.live_neighbors(k / self.width as int, k % self.width as int),
                    ),
            decreases n - i,
        {
            proof {
                lemma_row_major_index_decomp(i as int, self.width as int, self.height as int);
            }
            let row = i / self.width;
            let col = i % self.width;
            let cur = self.cells[i];
            let count = self.live_neighbour_count(row, col);
            let cell_next = match cur {
                Cell::Alive => if 2 <= count && count <= 3 {
                    Cell::Alive
                } else {
                    Cell::Dead
                },
                Cell::Dead => if count == 3 {
                    Cell::Alive
                } else {
                    Cell::Dead
                },
            };
            next.push(cell_next);
            i = i + 1;
        }
        self.cells = next;
        proof {
            assert forall|r: int, c: int|
                0 <= r < old(self).height && 0 <= c < old(self).width
                    implies self.cell_at(r, c) == next_cell(
                old(self).cell_at(r, c),
                old(self).live_neighbors(r, c),
            ) by {
                let w = old(self).width as int;
                lemma_row_major_index_bound(r, c, w, old(self).height as int);
                lemma_fundamental_div_mod_converse(r * w + c, w, r, c);
            }
        }
    }
}

/// The glyph a cell is drawn as: a hollow square for Dead and a filled
/// square for Alive.
pub open spec fn glyph(c: Cell) -> char {
    match c {
        Cell::Dead => '◻',
        Cell::Alive => '◼',
    }
}

/// Where each character of the rendering comes from: position
/// `row * (width + 1) + col` holds the glyph of the cell at `row, col`
/// when `col < width`, and the line break when `col == width`.
pub proof fn lemma_rendered_entry(u: Universe, row: int, col: int)
    requires
        u.wf(),
        0 <= row < u.height,
        0 <= col <= u.width,
    ensures
        0 <= row * (u.width + 1) + col < u.rendered().len(),
        u.rendered().len() == u.height * (u.width + 1),
        u.rendered()[row * (u.width + 1) + col] == (if col == u.width {
            '\n'
        } else {
            glyph(u.cell_at(row, col))
        }),
{
    let w1 = u.width as int + 1;
    lemma_row_major_index_bound(row, col, w1, u.height as int);
    lemma_fundamental_div_mod_converse(row * w1 + col, w1, row, col);
}

/// The five `(row, col)` offsets of the glider pattern, relative to its
/// anchor cell.
pub open spec fn slider_offsets() -> Seq<(i32, i32)> {
    seq![(0i32, -1i32), (1i32, 0i32), (-1i32, 1i32), (0i32, 1i32), (1i32, 1i32)]
}

/// The 48 `(row, col)` offsets of the pulsar pattern, relative to its
/// anchor cell, in row-major order.  They draw four rows of two three-cell
/// bars and six rows of four single cells:
///
/// ```text
///   ###   ###
///
/// #    # #    #
/// #    # #    #
/// #    # #    #
///   ###   ###
///
///   ###   ###
/// #    # #    #
/// #    # #    #
/// #    # #    #
///
///   ###   ###
/// ```
///
/// with the anchor at row 7, column 6 of that block.
pub open spec fn pulsar_offsets() -> Seq<(i32, i32)> {
    seq![
        (-7i32, -4i32), (-7i32, -3i32), (-7i32, -2i32), (-7i32, 2i32), (-7i32, 3i32), (-7i32, 4i32),
        (-5i32, -6i32), (-5i32, -1i32), (-5i32, 1i32), (-5i32, 6i32),
        (-4i32, -6i32), (-4i32, -1i32), (-4i32, 1i32), (-4i32, 6i32),
        (-3i32, -6i32), (-3i32, -1i32), (-3i32, 1i32), (-3i32, 6i32),
        (-2i32, -4i32), (-2i32, -3i32), (-2i32, -2i32), (-2i32, 2i32), (-2i32, 3i32), (-2i32, 4i32),
        (0i32, -4i32), (0i32, -3i32), (0i32, -2i32), (0i32, 2i32), (0i32, 3i32), (0i32, 4i32),
        (1i32, -6i32), (1i32, -1i32), (1i32, 1i32), (1i32, 6i32),
        (2i32, -6i32), (2i32, -1i32), (2i32, 1i32), (2i32, 6i32),
        (3i32, -6i32), (3i32, -1i32), (3i32, 1i32), (3i32, 6i32),
        (5i32, -4i32), (5i32, -3i32), (5i32, -2i32), (5i32, 2i32), (5i32, 3i32), (5i32, 4i32),
    ]
}

/// Builds the pulsar offset list of [`pulsar_offsets`] as a vector.
#[verifier::rlimit(60)]
fn pulsar_pattern() -> (v: Vec<(i32, i32)>)
    ensures
        v@ == pulsar_offsets(),
{
    let mut v: Vec<(i32, i32)> = Vec::new();
    v.push((-7, -4));
    v.push((-7, -3));
    v.push((-7, -2));
    v.push((-7, 2));
    v.push((-7, 3));
    v.push((-7, 4));
    v.push((-5, -6));
    v.push((-5, -1));
    v.push((-5, 1));
    v.push((-5, 6));
    v.push((-4, -6));
    v.push((-4, -1));
    v.push((-4, 1));
    v.push((-4, 6));
    v.push((-3, -6));
    v.push((-3, -1));
    v.push((-3, 1));
    v.push((-3, 6));
    v.push((-2, -4));
    v.push((-2, -3));
    v.push((-2, -2));
    v.push((-2, 2));
    v.push((-2, 3));
    v.push((-2, 4));
    v.push((0, -4));
    v.push((0, -3));
    v.push((0, -2));
    v.push((0, 2));
    v.push((0, 3));
    v.push((0, 4));
    v.push((1, -6));
    v.push((1, -1));
    v.push((1, 1));
    v.push((1, 6));
    v.push((2, -6));
    v.push((2, -1));
    v.push((2, 1));
    v.push((2, 6));
    v.push((3, -6));
    v.push((3, -1));
    v.push((3, 1));
    v.push((3, 6));
    v.push((5, -4));
    v.push((5, -3));
    v.push((5, -2));
    v.push((5, 2));
    v.push((5, 3));
    v.push((5, 4));
    proof {
        assert(v@ =~= pulsar_offsets());
    }
    v
}

/// Relates a universe to the result of stamping the pattern `pat` at the
/// anchor `row, col`: the dimensions are unchanged, every cell the pattern
/// addresses (after toroidal wrap) is Alive, and every other cell keeps its
/// old state.
pub open spec fn stamp_step(
    pre: Universe,
    post: Universe,
    row: int,
    col: int,
    pat: Seq<(i32, i32)>,
) -> bool {
    &&& post.width == pre.width
    &&& post.height == pre.height
    &&& post.cells@.len() == pre.cells@.len()
    &&& forall|r: int, c: int|
        0 <= r < pre.height && 0 <= c < pre.width ==> post.cell_at(r, c) == (if pre.covers(
            row,
            col,
            pat,
            r,
            c,
        ) {
            Cell::Alive
        } else {
            pre.cell_at(r, c)
        })
}

/// Relates a universe to its next generation: the dimensions are unchanged
/// and every cell holds the B3/S23 successor of its old state given its old
/// live-neighbor count.
pub open spec fn tick_step(pre: Universe, post: Universe) -> bool {
    &&& post.width == pre.width
    &&& post.height == pre.height
    &&& post.cells@.len() == pre.cells@.len()
    &&& forall|r: int, c: int|
        0 <= r < pre.height && 0 <= c < pre.width ==> post.cell_at(r, c) == next_cell(
            pre.cell_at(r, c),
            pre.live_neighbors(r, c),
        )
}

/// Relates a universe to the result of toggling the cell at `row, col`:
/// the dimensions are unchanged and the cell buffer is the old buffer with
/// exactly that cell flipped.
pub open spec fn toggle_step(pre: Universe, post: Universe, row: int, col: int) -> bool {
    &&& post.width == pre.width
    &&& post.height == pre.height
    &&& post.cells@ == pre.cells@.update(pre.index_of(row, col), flipped(pre.cell_at(row, col)))
}

impl Default for Universe {
    /// The reference demo grid: 64 by 64, deterministically seeded.
    fn default() -> (u: Universe)
        ensures
            u.wf(),
            u.width == 64,
            u.height == 64,
            forall|i: int| 0 <= i < 64 * 64 ==> u.cells@[i] == seed_cell(i),
    {
        Universe::new(64, 64)
    }
}

/// A row-major index lies strictly inside the buffer whenever its
/// coordinate lies strictly inside the grid.
pub proof fn lemma_row_major_index_bound(row: int, col: int, width: int, height: int)
    requires
        0 <= row < height,
        0 <= col < width,
    ensures
        0 <= row * width + col < height * width,
        height * width == width * height,
{
    assert(row * width + col < height * width) by (nonlinear_arith)
        requires
            0 <= row < height,
            0 <= col < width,
    ;
    assert(0 <= row * width) by (nonlinear_arith)
        requires
            0 <= row,
            0 <= width,
    ;
    assert(height * width == width * height) by (nonlinear_arith);
}

/// A row-major index inside the buffer decomposes uniquely into an
/// in-range row (its quotient by the width) and column (its remainder).
pub proof fn lemma_row_major_index_decomp(i: int, width: int, height: int)
    requires
        0 < width,
        0 < height,
        0 <= i < width * height,
    ensures
        0 <= i / width < height,
        0 <= i % width < width,
        (i / width) * width + (i % width) == i,
{
    lemma_fundamental_div_mod(i, width);
    lemma_mod_bound(i, width);
    assert((i / width) * width == width * (i / width)) by (nonlinear_arith);
    assert(0 <= i / width < height) by (nonlinear_arith)
        requires
            0 < width,
            0 < height,
            0 <= i < width * height,
            i == width * (i / width) + (i % width),
            0 <= i % width < width,
    ;
}

/// Distinct in-range coordinates have distinct row-major indices; the
/// decomposition of an index into row and column is unique.
pub proof fn lemma_row_major_index_inj(
    r1: int,
    c1: int,
    r2: int,
    c2: int,
    width: int,
    height: int,
)
    requires
        0 <= r1 < height,
        0 <= c1 < width,
        0 <= r2 < height,
        0 <= c2 < width,
        r1 * width + c1 == r2 * width + c2,
    ensures
        r1 == r2,
        c1 == c2,
{
    lemma_fundamental_div_mod_converse(r1 * width + c1, width, r1, c1);
    lemma_fundamental_div_mod_converse(r2 * width + c2, width, r2, c2);
}

} // verus!
