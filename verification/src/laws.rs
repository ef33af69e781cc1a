//! Laws of the engine, proved once for every grid: how toggling, stamping,
//! rendering and the generation rule behave across whole operations.
//!
//! Each law is stated over the step relations that the methods of
//! [`crate::universe::Universe`] establish — [`crate::universe::tick_step`],
//! [`crate::universe::toggle_step`] and [`crate::universe::stamp_step`] — so
//! it applies to any states those methods can produce.

use vstd::prelude::*;

verus! {

use vstd::arithmetic::div_mod::lemma_fundamental_div_mod_converse;
use crate::torus::{wrap_spec, lemma_wrap_near};
use crate::universe::{
    Cell, Universe, flipped, glyph, next_cell, stamp_step, tick_step, toggle_step,
    lemma_row_major_index_bound, lemma_row_major_index_decomp, lemma_rendered_entry,
};

/// Two universes of the same dimensions whose cells agree at every
/// in-range coordinate have equal cell buffers.
pub proof fn lemma_cells_pointwise_eq(a: Universe, b: Universe)
    requires
        a.wf(),
        a.width == b.width,
        a.height == b.height,
        a.cells@.len() == b.cells@.len(),
        forall|r: int, c: int|
            0 <= r < a.height && 0 <= c < a.width ==> a.cell_at(r, c) == b.cell_at(r, c),
    ensures
        a.cells@ == b.cells@,
{
    let w = a.width as int;
    let h = a.height as int;
    assert forall|i: int| 0 <= i < a.cells@.len() implies a.cells@[i] == b.cells@[i] by {
        lemma_row_major_index_decomp(i, w, h);
        let r = i / w;
        let c = i % w;
        assert(a.cell_at(r, c) == b.cell_at(r, c));
    }
    assert(a.cells@ =~= b.cells@);
}

/// Toroidal wrap law: a live cell in the top-left corner is counted as a
/// neighbor of the bottom-right corner, and the other way round — the
/// corners of the grid touch on the torus.
pub proof fn lemma_corner_wrap(u: Universe)
    requires
        u.wf(),
    ensures
        u.cell_at(0, 0) is Alive ==> u.live_neighbors(u.height - 1, u.width - 1) >= 1,
        u.cell_at(u.height - 1, u.width - 1) is Alive ==> u.live_neighbors(0, 0) >= 1,
{
    let h = u.height as int;
    let w = u.width as int;
    assert(wrap_spec(h - 1, 1, h) == 0) by {
        lemma_fundamental_div_mod_converse(h, h, 1, 0);
    }
    assert(wrap_spec(w - 1, 1, w) == 0) by {
        lemma_fundamental_div_mod_converse(w, w, 1, 0);
    }
    assert(wrap_spec(0, -1, h) == h - 1) by {
        lemma_fundamental_div_mod_converse(-1, h, -1, h - 1);
    }
    assert(wrap_spec(0, -1, w) == w - 1) by {
        lemma_fundamental_div_mod_converse(-1, w, -1, w - 1);
    }
}

/// Toggling the same cell twice restores the original grid exactly.
pub proof fn lemma_toggle_involution(
    u0: Universe,
    u1: Universe,
    u2: Universe,
    row: int,
    col: int,
)
    requires
        u0.wf(),
        0 <= row < u0.height,
        0 <= col < u0.width,
        toggle_step(u0, u1, row, col),
        toggle_step(u1, u2, row, col),
    ensures
        u2.cells@ == u0.cells@,
{
    lemma_row_major_index_bound(row, col, u0.width as int, u0.height as int);
    assert(flipped(flipped(u0.cell_at(row, col))) == u0.cell_at(row, col));
    assert(u2.cells@ =~= u0.cells@);
}

/// A pattern stamp with equal dimensions addresses the same cells: which
/// coordinates a pattern covers depends only on the grid's width and
/// height, not on its contents.
proof fn lemma_covers_same_dims(
    a: Universe,
    b: Universe,
    row: int,
    col: int,
    pat: Seq<(i32, i32)>,
    r: int,
    c: int,
)
    requires
        a.width == b.width,
        a.height == b.height,
    ensures
        a.covers(row, col, pat, r, c) == b.covers(row, col, pat, r, c),
{
    if a.covers(row, col, pat, r, c) {
        let t = choose|t: int|
            0 <= t < pat.len() && r == wrap_spec(row, pat[t].0 as int, a.height as int) && c
                == wrap_spec(col, pat[t].1 as int, a.width as int);
        assert(b.covers(row, col, pat, r, c));
    }
    if b.covers(row, col, pat, r, c) {
        let t = choose|t: int|
            0 <= t < pat.len() && r == wrap_spec(row, pat[t].0 as int, b.height as int) && c
                == wrap_spec(col, pat[t].1 as int, b.width as int);
        assert(a.covers(row, col, pat, r, c));
    }
}

/// Stamping a pattern only ever sets cells to Alive: no live cell is
/// killed, and any cell the stamp changes is Alive afterwards.
pub proof fn lemma_stamp_monotone(
    pre: Universe,
    post: Universe,
    row: int,
    col: int,
    pat: Seq<(i32, i32)>,
)
    requires
        pre.wf(),
        stamp_step(pre, post, row, col, pat),
    ensures
        forall|r: int, c: int|
            0 <= r < pre.height && 0 <= c < pre.width && pre.cell_at(r, c) is Alive
                ==> post.cell_at(r, c) is Alive,
        forall|r: int, c: int|
            0 <= r < pre.height && 0 <= c < pre.width && post.cell_at(r, c) != pre.cell_at(
                r,
                c,
            ) ==> post.cell_at(r, c) is Alive,
{
}

/// Stamping the same pattern at the same anchor twice is idempotent: the
/// second stamp leaves the grid exactly as the first left it.
pub proof fn lemma_stamp_idempotent(
    u0: Universe,
    u1: Universe,
    u2: Universe,
    row: int,
    col: int,
    pat: Seq<(i32, i32)>,
)
    requires
        u0.wf(),
        stamp_step(u0, u1, row, col, pat),
        stamp_step(u1, u2, row, col, pat),
    ensures
        u2.cells@ == u1.cells@,
{
    assert(u1.wf());
    assert forall|r: int, c: int|
        0 <= r < u1.height && 0 <= c < u1.width implies u1.cell_at(r, c) == u2.cell_at(
        r,
        c,
    ) by {
        lemma_covers_same_dims(u0, u1, row, col, pat, r, c);
        if u1.covers(row, col, pat, r, c) {
            assert(u1.cell_at(r, c) is Alive);
        }
    }
    lemma_cells_pointwise_eq(u1, u2);
}

/// Rendering an all-dead grid yields `height` lines, each holding `width`
/// copies of the dead glyph and ending with a newline.
pub proof fn lemma_render_all_dead(u: Universe)
    requires
        u.wf(),
        forall|i: int| 0 <= i < u.cells@.len() ==> u.cells@[i] is Dead,
    ensures
        u.rendered().len() == u.height * (u.width + 1),
        forall|r: int, c: int|
            0 <= r < u.height && 0 <= c < u.width ==> u.rendered_at(r, c) == glyph(Cell::Dead),
        forall|r: int| 0 <= r < u.height ==> u.rendered_at(r, u.width as int) == '\n',
{
    let w = u.width as int;
    let h = u.height as int;
    lemma_rendered_entry(u, 0, 0);
    assert forall|r: int, c: int| 0 <= r < h && 0 <= c < w implies u.rendered_at(r, c) == glyph(
        Cell::Dead,
    ) by {
        lemma_rendered_entry(u, r, c);
        lemma_row_major_index_bound(r, c, w, h);
        assert(u.cell_at(r, c) is Dead);
    }
    assert forall|r: int| 0 <= r < h implies u.rendered_at(r, w) == '\n' by {
        lemma_rendered_entry(u, r, w);
    }
}

/// On a 3-by-3 torus holding a single live cell, one generation kills it
/// and gives birth to nothing: the next generation is entirely dead.  The
/// lone cell has no live neighbor, and every other cell sees it exactly
/// once — never the three times a birth needs.
pub proof fn lemma_lone_cell_dies(pre: Universe, post: Universe, ar: int, ac: int)
    requires
        pre.wf(),
        pre.width == 3,
        pre.height == 3,
        0 <= ar < 3,
        0 <= ac < 3,
        forall|r: int, c: int|
            0 <= r < 3 && 0 <= c < 3 ==> pre.cell_at(r, c) == (if r == ar && c == ac {
                Cell::Alive
            } else {
                Cell::Dead
            }),
        tick_step(pre, post),
    ensures
        forall|r: int, c: int| 0 <= r < 3 && 0 <= c < 3 ==> post.cell_at(r, c) is Dead,
{
    assert forall|r: int, c: int| 0 <= r < 3 && 0 <= c < 3 implies post.cell_at(r, c)
        is Dead by {
        lemma_wrap_near(3, r - 1);
        lemma_wrap_near(3, r);
        lemma_wrap_near(3, r + 1);
        lemma_wrap_near(3, c - 1);
        lemma_wrap_near(3, c);
        lemma_wrap_near(3, c + 1);
        assert(post.cell_at(r, c) == next_cell(pre.cell_at(r, c), pre.live_neighbors(r, c)));
    }
}

/// A horizontal bar of three live cells centered at `row, col` on an
/// otherwise dead grid.
pub open spec fn horizontal_bar(u: Universe, row: int, col: int) -> bool {
    forall|r: int, c: int|
        0 <= r < u.height && 0 <= c < u.width ==> u.cell_at(r, c) == (if r == row && col - 1 <= c
            <= col + 1 {
            Cell::Alive
        } else {
            Cell::Dead
        })
}

/// A vertical bar of three live cells centered at `row, col` on an
/// otherwise dead grid.
pub open spec fn vertical_bar(u: Universe, row: int, col: int) -> bool {
    forall|r: int, c: int|
        0 <= r < u.height && 0 <= c < u.width ==> u.cell_at(r, c) == (if c == col && row - 1 <= r
            <= row + 1 {
            Cell::Alive
        } else {
            Cell::Dead
        })
}

/// The bar and its surroundings stay clear of the grid edges: the center
/// is at least two cells from every border, which needs a grid of at
/// least 5 by 5.
pub open spec fn bar_interior(u: Universe, row: int, col: int) -> bool {
    &&& 2 <= row <= u.height - 3
    &&& 2 <= col <= u.width - 3
}

/// One generation turns an interior horizontal bar into the vertical bar
/// with the same center: the outer bar cells starve, the center survives
/// with two neighbors, and the cells above and below the center are born
/// with three.
proof fn lemma_horizontal_bar_next(pre: Universe, post: Universe, row: int, col: int)
    requires
        pre.wf(),
        bar_interior(pre, row, col),
        horizontal_bar(pre, row, col),
        tick_step(pre, post),
    ensures
        vertical_bar(post, row, col),
{
    let h = pre.height as int;
    let w = pre.width as int;
    assert forall|r: int, c: int| 0 <= r < h && 0 <= c < w implies post.cell_at(r, c) == (if c
        == col && row - 1 <= r <= row + 1 {
        Cell::Alive
    } else {
        Cell::Dead
    }) by {
        lemma_wrap_near(h, r - 1);
        lemma_wrap_near(h, r);
        lemma_wrap_near(h, r + 1);
        lemma_wrap_near(w, c - 1);
        lemma_wrap_near(w, c);
        lemma_wrap_near(w, c + 1);
        assert(post.cell_at(r, c) == next_cell(pre.cell_at(r, c), pre.live_neighbors(r, c)));
    }
}

/// One generation turns an interior vertical bar into the horizontal bar
/// with the same center.
proof fn lemma_vertical_bar_next(pre: Universe, post: Universe, row: int, col: int)
    requires
        pre.wf(),
        bar_interior(pre, row, col),
        vertical_bar(pre, row, col),
        tick_step(pre, post),
    ensures
        horizontal_bar(post, row, col),
{
    let h = pre.height as int;
    let w = pre.width as int;
    assert forall|r: int, c: int| 0 <= r < h && 0 <= c < w implies post.cell_at(r, c) == (if r
        == row && col - 1 <= c <= col + 1 {
        Cell::Alive
    } else {
        Cell::Dead
    }) by {
        lemma_wrap_near(h, r - 1);
        lemma_wrap_near(h, r);
        lemma_wrap_near(h, r + 1);
        lemma_wrap_near(w, c - 1);
        lemma_wrap_near(w, c);
        lemma_wrap_near(w, c + 1);
        assert(post.cell_at(r, c) == next_cell(pre.cell_at(r, c), pre.live_neighbors(r, c)));
    }
}

/// The blinker oscillates with period two: starting from an interior
/// horizontal bar, one generation changes the grid and a second
/// generation restores it exactly.
pub proof fn lemma_blinker_period_two(
    u0: Universe,
    u1: Universe,
    u2: Universe,
    row: int,
    col: int,
)
    requires
        u0.wf(),
        bar_interior(u0, row, col),
        horizontal_bar(u0, row, col),
        tick_step(u0, u1),
        tick_step(u1, u2),
    ensures
        u2.cells@ == u0.cells@,
        u1.cells@ != u0.cells@,
{
    let h = u0.height as int;
    let w = u0.width as int;
    lemma_horizontal_bar_next(u0, u1, row, col);
    assert(u1.wf());
    lemma_vertical_bar_next(u1, u2, row, col);
    lemma_cells_pointwise_eq(u0, u2);
    lemma_row_major_index_bound(row - 1, col, w, h);
    assert(u0.cell_at(row - 1, col) is Dead);
    assert(u1.cell_at(row - 1, col) is Alive);
    assert(u0.cells@[(row - 1) * w + col] != u1.cells@[(row - 1) * w + col]);
}

} // verus!
