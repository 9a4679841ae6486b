//! Forced values: the naked and hidden singles of a grid, and the grid that
//! results from filling them all in.

use vstd::prelude::*;
use crate::tile::TileView;
use crate::values::{digits, lemma_filter_members};
use crate::grid::{Grid, grid_wf, grid_frame, cell_wf, cell_frame, grid_can_assign, grid_assign,
    grid_rederived, grid_marked_at, permits, permitted, rival_at, later_rival,
    same_assignments, lemma_assign_wf, lemma_assign_tile, lemma_can_assign,
    lemma_propagated_agree, lemma_permits_agree, lemma_place, lemma_rederived_wf,
    lemma_later_rival_marked, lemma_sees_symmetric};

verus! {

/// Whether no other tile of row `y` can still take `v`.
pub open spec fn unique_in_row(g: Grid, x: u8, y: u8, v: u8) -> bool {
    forall|i: int| 0 <= i < g.len() && (#[trigger] g[i]).y == y && g[i].x != x ==> !g[i].is_live(v)
}

/// Whether no other tile of column `x` can still take `v`.
pub open spec fn unique_in_col(g: Grid, x: u8, y: u8, v: u8) -> bool {
    forall|i: int| 0 <= i < g.len() && (#[trigger] g[i]).x == x && g[i].y != y ==> !g[i].is_live(v)
}

/// Whether no other tile of the block of `(x, y)` can still take `v`.
pub open spec fn unique_in_block(g: Grid, x: u8, y: u8, v: u8) -> bool {
    forall|i: int|
        0 <= i < g.len() && !(#[trigger] g[i]).at(x, y) && g[i].is_in_same_block(x, y)
            ==> !g[i].is_live(v)
}

/// Whether `v` is forced at the place of `t`: it is the one value still
/// open in `t`, or no other tile of the row, of the column or of the block
/// of `t` can still take it.
pub open spec fn grid_is_unique(g: Grid, t: TileView, v: u8) -> bool {
    ||| t.is_forced_single(v)
    ||| unique_in_row(g, t.x, t.y, v)
    ||| unique_in_col(g, t.x, t.y, v)
    ||| unique_in_block(g, t.x, t.y, v)
}

/// The test that the scan puts to a candidate of the tile at place `i`:
/// not crossed out, and forced there.
pub open spec fn is_forced(g: Grid, i: int) -> spec_fn(u8) -> bool {
    |v: u8| !g[i].eliminated.contains(v) && grid_is_unique(g, g[i], v)
}

/// The first member of `s` from place `k` on of which `p` holds.
pub open spec fn first_from(s: Seq<u8>, p: spec_fn(u8) -> bool, k: int) -> Option<u8>
    decreases s.len() - k,
{
    if k < 0 || k >= s.len() {
        None
    } else if p(s[k]) {
        Some(s[k])
    } else {
        first_from(s, p, k + 1)
    }
}

/// The value that the scan picks for the tile at place `i`: none for a
/// tile that holds a value, else the first candidate that passes the test.
pub open spec fn forced_value(g: Grid, i: int) -> Option<u8> {
    if g[i].assignment is Some {
        None
    } else {
        first_from(g[i].candidates, is_forced(g, i), 0)
    }
}

/// Whether the scan picks a value for any tile.
pub open spec fn has_forced(g: Grid) -> bool {
    exists|i: int| 0 <= i < g.len() && #[trigger] forced_value(g, i) is Some
}

/// The picks of the scan for the first `n` tiles, in the order of the tiles.
pub open spec fn forced_moves(g: Grid, n: int) -> Seq<(u8, u8, u8)>
    decreases n,
{
    if n <= 0 {
        Seq::empty()
    } else {
        match forced_value(g, n - 1) {
            Some(v) => forced_moves(g, n - 1).push((g[n - 1].x, g[n - 1].y, v)),
            None => forced_moves(g, n - 1),
        }
    }
}

/// The grid after the moves were made in turn as the player's, or nothing
/// if one of them was not accepted.
pub open spec fn grid_assign_all(g: Grid, moves: Seq<(u8, u8, u8)>) -> Option<Grid>
    decreases moves.len(),
{
    if moves.len() == 0 {
        Some(g)
    } else {
        match grid_assign_all(g, moves.drop_last()) {
            Some(h) => {
                let (x, y, v) = moves.last();
                if grid_can_assign(h, x, y, v) {
                    Some(grid_assign(h, x, y, v, false))
                } else {
                    None
                }
            },
            None => None,
        }
    }
}

/// `g` with the picks of the scan for the first `n` tiles written into
/// them, the candidate lists left as they were.
pub open spec fn grid_marked(g: Grid, n: int) -> Grid {
    Seq::new(
        g.len(),
        |i: int|
            if i < n && forced_value(g, i) is Some {
                TileView {
                    x: g[i].x,
                    y: g[i].y,
                    init: false,
                    assignment: forced_value(g, i),
                    candidates: g[i].candidates,
                    eliminated: g[i].eliminated,
                }
            } else {
                g[i]
            },
    )
}

/// `g` with the values that the scan picks for the first `n` tiles
/// assigned in turn as values of the player's: a tile that held a value
/// is as it was; the others hold what was picked for them and have the
/// candidates that assigning the picks in the order of the tiles leaves.
pub open spec fn grid_filled_upto(g: Grid, n: int) -> Grid {
    Seq::new(
        g.len(),
        |i: int|
            if g[i].assignment is Some {
                g[i]
            } else {
                grid_rederived(grid_marked(g, n))[i]
            },
    )
}

/// `g` with every forced value filled in as a value of the player's.
pub open spec fn grid_filled(g: Grid) -> Grid {
    grid_filled_upto(g, g.len() as int)
}

/// What filling in the forced values comes back with: nothing where no
/// value is forced.
pub open spec fn grid_autofill(g: Grid) -> Option<Grid> {
    if has_forced(g) {
        Some(grid_filled(g))
    } else {
        None
    }
}

/// What the scan picks is a candidate of the tile that is not crossed out
/// and passes the test.
pub proof fn lemma_first_from(s: Seq<u8>, p: spec_fn(u8) -> bool, k: int)
    requires
        0 <= k,
    ensures
        first_from(s, p, k) matches Some(v) ==> s.contains(v) && p(v),
    decreases s.len() - k,
{
    if k < s.len() && !p(s[k]) {
        lemma_first_from(s, p, k + 1);
    }
}

/// A value that the scan picks for a tile is forced there: the tile is
/// empty, the value is a cell value still open in it that no tile that
/// sees it holds, and it is unique.
pub proof fn lemma_forced_value(g: Grid, i: int)
    requires
        grid_wf(g),
        0 <= i < 81,
    ensures
        forced_value(g, i) matches Some(v) ==> g[i].assignment is None && 1 <= v <= 9
            && g[i].is_live(v) && grid_is_unique(g, g[i], v) && permits(g, i, v),
{
    lemma_first_from(g[i].candidates, is_forced(g, i), 0);
    assert(cell_wf(g, i));
    lemma_filter_members(digits(), permitted(g, i));
}

/// Filling in the forced values gives a tile a value only where the tile
/// was empty and the value was open and forced there.
pub proof fn lemma_filled_only_forced(g: Grid)
    requires
        grid_wf(g),
    ensures
        forall|i: int|
            0 <= i < 81 && (#[trigger] grid_filled(g)[i]).assignment != g[i].assignment ==> {
                &&& g[i].assignment is None
                &&& grid_filled(g)[i].assignment matches Some(v) && g[i].is_live(v)
                    && grid_is_unique(g, g[i], v)
            },
{
    assert forall|i: int|
        0 <= i < 81 && (#[trigger] grid_filled(g)[i]).assignment != g[i].assignment implies {
        &&& g[i].assignment is None
        &&& grid_filled(g)[i].assignment matches Some(v) && g[i].is_live(v) && grid_is_unique(
            g,
            g[i],
            v,
        )
    } by {
        lemma_forced_value(g, i);
    }
}

/// The picks of the scan written into a grid leave its tiles in place.
pub proof fn lemma_marked_frame(g: Grid, n: int)
    requires
        grid_wf(g),
    ensures
        grid_frame(grid_marked(g, n)),
{
    assert forall|i: int| 0 <= i < 81 implies #[trigger] cell_frame(grid_marked(g, n), i) by {
        assert(cell_wf(g, i));
        lemma_forced_value(g, i);
    }
}

/// Filling in forced values keeps the invariant.
pub proof fn lemma_filled_wf(g: Grid, n: int)
    requires
        grid_wf(g),
    ensures
        grid_wf(grid_filled_upto(g, n)),
{
    let m = grid_marked(g, n);
    let r = grid_rederived(m);
    let f = grid_filled_upto(g, n);
    lemma_marked_frame(g, n);
    lemma_rederived_wf(m);
    assert(same_assignments(r, f)) by {
        assert forall|i: int| 0 <= i < 81 implies (#[trigger] r[i]).x == f[i].x && r[i].y
            == f[i].y && r[i].assignment == f[i].assignment by {
            assert(cell_wf(g, i));
        }
    }
    assert forall|i: int| 0 <= i < 81 implies #[trigger] cell_wf(f, i) by {
        assert(cell_wf(g, i));
        assert(cell_wf(r, i));
        assert(cell_frame(m, i));
        if g[i].assignment is Some {
            let w = g[i].assignment->0;
            if permits(f, i, w) {
                assert forall|j: int|
                    0 <= j < g.len() && j != i && (#[trigger] g[j]).sees(g[i].x, g[i].y)
                    implies g[j].assignment != Some(w) by {
                    assert(f[j].sees(f[i].x, f[i].y));
                    assert(cell_wf(g, j));
                }
            }
        } else {
            lemma_propagated_agree(r, f, i);
            if f[i].assignment is Some {
                lemma_permits_agree(r, f, i, f[i].assignment->0);
            }
        }
    }
}

/// Making the picks of the scan one after the other is always accepted,
/// and ends in the grid with those values filled in.
pub proof fn lemma_assign_all_forced(g: Grid, n: int)
    requires
        grid_wf(g),
        0 <= n <= 81,
    ensures
        grid_assign_all(g, forced_moves(g, n)) == Some(grid_filled_upto(g, n)),
    decreases n,
{
    let target = grid_filled_upto(g, n);
    lemma_filled_wf(g, n);
    if n == 0 {
        assert(grid_marked(g, 0) =~= g);
        assert forall|i: int| 0 <= i < 81 implies g[i] == target[i] by {
            assert(cell_wf(g, i));
        }
        assert(g =~= target);
    } else {
        let before = grid_marked(g, n - 1);
        let after = grid_marked(g, n);
        let prev = grid_filled_upto(g, n - 1);
        lemma_assign_all_forced(g, n - 1);
        lemma_filled_wf(g, n - 1);
        lemma_forced_value(g, n - 1);
        assert(cell_wf(g, n - 1));
        match forced_value(g, n - 1) {
            Some(v) => {
                let x = g[n - 1].x;
                let y = g[n - 1].y;
                let moves = forced_moves(g, n);
                assert(moves.drop_last() =~= forced_moves(g, n - 1));
                assert(moves.last() == (x, y, v));
                lemma_can_assign(prev, x, y, v);
                lemma_place(prev, x, y);
                let next = grid_assign(prev, x, y, v, false);
                lemma_assign_wf(prev, x, y, v, false);
                assert(after =~= grid_marked_at(before, n - 1, v, false));
                assert(same_assignments(next, after)) by {
                    assert forall|i: int| 0 <= i < 81 implies (#[trigger] next[i]).x == after[i].x
                        && next[i].y == after[i].y && next[i].assignment
                        == after[i].assignment by {
                        lemma_assign_tile(prev, x, y, v, false, i);
                        assert(cell_wf(g, i));
                    }
                }
                assert forall|i: int| 0 <= i < 81 implies next[i] == target[i] by {
                    lemma_assign_tile(prev, x, y, v, false, i);
                    assert(cell_wf(g, i));
                    lemma_sees_symmetric(g[i], g[n - 1]);
                    if i == n - 1 {
                        if later_rival(after, i) {
                            let j = choose|j: int| #[trigger] rival_at(after, i, j);
                            assert(g[j].sees(g[i].x, g[i].y));
                            assert(cell_wf(g, j));
                        }
                    } else if g[i].assignment is Some {
                        assert(g[i].sees(x, y) ==> g[i].assignment != Some(v));
                    } else if before[i].assignment is Some {
                        lemma_later_rival_marked(before, n - 1, v, false, i);
                    } else {
                        lemma_propagated_agree(next, after, i);
                    }
                }
                assert(next =~= target);
            },
            None => {
                assert(before =~= after);
                assert(prev =~= target);
            },
        }
    }
}

/// The scan comes back with moves exactly if it picks a value for some tile.
pub proof fn lemma_forced_moves_len(g: Grid, n: int)
    requires
        0 <= n <= g.len(),
    ensures
        forced_moves(g, n).len() > 0 <==> exists|i: int|
            0 <= i < n && #[trigger] forced_value(g, i) is Some,
    decreases n,
{
    if n > 0 {
        lemma_forced_moves_len(g, n - 1);
    }
}

/// Once a move is refused, nothing comes of the moves after it.
pub proof fn lemma_assign_all_refused(g: Grid, moves: Seq<(u8, u8, u8)>, k: int)
    requires
        0 <= k <= moves.len(),
        grid_assign_all(g, moves.take(k)) is None,
    ensures
        grid_assign_all(g, moves) is None,
    decreases moves.len() - k,
{
    if k < moves.len() {
        assert(moves.take(k + 1).drop_last() =~= moves.take(k));
        lemma_assign_all_refused(g, moves, k + 1);
    } else {
        assert(moves.take(k) =~= moves);
    }
}

} // verus!
