//! What holds of the moves taken together.

use vstd::prelude::*;
use crate::tile::in_range;
use crate::history::HistoryView;
use crate::grid::{Grid, index_of, grid_wf, cell_wf, grid_can_assign, grid_assign,
    grid_can_unassign, grid_cleared, grid_can_cross_out, grid_try_assign, grid_try_unassign,
    grid_try_cross_out, permits, laid, settled, rival_at, later_rival, same_marks,
    same_assignments, lemma_assign_wf, lemma_assign_tile, lemma_cross_out_wf,
    lemma_unassign_wf, lemma_can_assign, lemma_can_unassign, lemma_place,
    lemma_propagated_agree, lemma_rederived_agree, lemma_settled_rederived,
    lemma_sees_symmetric};
use crate::singles::{has_forced, grid_autofill, lemma_filled_wf, lemma_forced_value};

verus! {

/// A move on a grid.
pub enum Move {
    /// Assign a value: column, row, value, and whether as a clue.
    Assign(u8, u8, u8, bool),
    /// Clear a cell: column, row.
    Unassign(u8, u8),
    /// Cross a value out: column, row, value.
    CrossOut(u8, u8, u8),
    /// Fill in every forced value.
    AutoFill,
}

/// What a move comes back with: the new grid, or nothing if it is refused.
pub open spec fn grid_try(g: Grid, m: Move) -> Option<Grid> {
    match m {
        Move::Assign(x, y, v, init) => grid_try_assign(g, x, y, v, init),
        Move::Unassign(x, y) => grid_try_unassign(g, x, y),
        Move::CrossOut(x, y, v) => grid_try_cross_out(g, x, y, v),
        Move::AutoFill => grid_autofill(g),
    }
}

/// The grid after a move, which is the grid before it if the move is refused.
pub open spec fn grid_play(g: Grid, m: Move) -> Grid {
    match grid_try(g, m) {
        Some(h) => h,
        None => g,
    }
}

/// The grid after a row of moves.
pub open spec fn grid_play_all(g: Grid, moves: Seq<Move>) -> Grid
    decreases moves.len(),
{
    if moves.len() == 0 {
        g
    } else {
        grid_play(grid_play_all(g, moves.drop_last()), moves.last())
    }
}

/// Coordinates or a value out of range get every move refused.
pub proof fn lemma_out_of_range_refused(g: Grid, x: u8, y: u8, v: u8, init: bool)
    requires
        g.len() > 0,
    ensures
        !in_range(x, y, v) ==> grid_try_assign(g, x, y, v, init) is None,
        !in_range(x, y, v) ==> grid_try_cross_out(g, x, y, v) is None,
        !(x < 9 && y < 9) ==> grid_try_unassign(g, x, y) is None,
{
    assert(grid_can_unassign(g, x, y) ==> g[0].can_unassign(x, y));
}

/// No value can be assigned to a cell that holds one.
pub proof fn lemma_assigned_once(g: Grid, x: u8, y: u8, v: u8, init: bool)
    requires
        grid_wf(g),
        x < 9,
        y < 9,
        g[index_of(x, y)].assignment is Some,
    ensures
        grid_try_assign(g, x, y, v, init) is None,
{
    lemma_can_assign(g, x, y, v);
}

/// Every move keeps the invariant of a grid.
pub proof fn lemma_play_wf(g: Grid, m: Move)
    requires
        grid_wf(g),
    ensures
        grid_wf(grid_play(g, m)),
{
    match m {
        Move::Assign(x, y, v, init) => {
            if grid_can_assign(g, x, y, v) {
                lemma_assign_wf(g, x, y, v, init);
            }
        },
        Move::Unassign(x, y) => {
            lemma_unassign_wf(g, x, y);
        },
        Move::CrossOut(x, y, v) => {
            if grid_can_cross_out(g, x, y, v) {
                lemma_cross_out_wf(g, x, y, v);
            }
        },
        Move::AutoFill => {
            lemma_filled_wf(g, 81);
        },
    }
}

/// No move touches the value of a clue, or makes it a value of the player's.
pub proof fn lemma_clue_stays(g: Grid, i: int, m: Move)
    requires
        grid_wf(g),
        0 <= i < 81,
        g[i].init,
    ensures
        grid_play(g, m)[i].init,
        grid_play(g, m)[i].assignment == g[i].assignment,
{
    assert(cell_wf(g, i));
    match m {
        Move::AutoFill => {
            if has_forced(g) {
                lemma_forced_value(g, i);
            }
        },
        _ => {},
    }
}

/// A clue is for good: once a value is assigned as a clue, the cell holds
/// it as a clue after any moves whatever, and clearing the cell is refused.
pub proof fn lemma_clue_is_permanent(g: Grid, x: u8, y: u8, v: u8, moves: Seq<Move>)
    requires
        grid_wf(g),
        grid_can_assign(g, x, y, v),
    ensures
        ({
            let later = grid_play_all(grid_assign(g, x, y, v, true), moves);
            &&& grid_wf(later)
            &&& later[index_of(x, y)].init
            &&& later[index_of(x, y)].assignment == Some(v)
            &&& grid_try_unassign(later, x, y) is None
        }),
    decreases moves.len(),
{
    let start = grid_assign(g, x, y, v, true);
    let t = index_of(x, y);
    lemma_can_assign(g, x, y, v);
    lemma_place(g, x, y);
    lemma_assign_wf(g, x, y, v, true);
    if moves.len() > 0 {
        let before = grid_play_all(start, moves.drop_last());
        lemma_clue_is_permanent(g, x, y, v, moves.drop_last());
        lemma_clue_stays(before, t, moves.last());
        lemma_play_wf(before, moves.last());
    }
    lemma_can_unassign(grid_play_all(start, moves), x, y);
}

/// The candidates of a tile that holds a value: that value alone, or
/// none; the value alone wherever no other tile that sees the tile holds
/// the same value.
pub proof fn lemma_assigned_candidates(g: Grid, i: int)
    requires
        grid_wf(g),
        0 <= i < 81,
        g[i].assignment is Some,
    ensures
        g[i].candidates == seq![g[i].assignment->0] || g[i].candidates == Seq::<u8>::empty(),
        permits(g, i, g[i].assignment->0) ==> g[i].candidates == seq![g[i].assignment->0],
{
    assert(cell_wf(g, i));
}

/// Two settled grids that agree on what each tile holds, on which tiles
/// are clues and on what is crossed out are the same grid.
pub proof fn lemma_settled_determined(g: Grid, h: Grid)
    requires
        settled(g),
        settled(h),
        same_marks(g, h),
    ensures
        g == h,
{
    lemma_settled_rederived(g);
    lemma_settled_rederived(h);
    lemma_rederived_agree(g, h);
}

/// Where every tile with a value has it as its one candidate, this is
/// still so after an assignment of a value that no tile that sees the
/// target holds.
pub proof fn lemma_assign_keeps_single(g: Grid, x: u8, y: u8, v: u8, init: bool)
    requires
        grid_wf(g),
        grid_can_assign(g, x, y, v),
        forall|i: int|
            0 <= i < 81 ==> ((#[trigger] g[i]).assignment matches Some(w) ==> g[i].candidates
                == seq![w]),
        forall|i: int| 0 <= i < 81 && (#[trigger] g[i]).sees(x, y) ==> g[i].assignment != Some(v),
    ensures
        forall|i: int|
            0 <= i < 81 ==> ((#[trigger] grid_assign(g, x, y, v, init)[i]).assignment matches Some(
                w,
            ) ==> grid_assign(g, x, y, v, init)[i].candidates == seq![w]),
{
    let h = grid_assign(g, x, y, v, init);
    assert forall|i: int| 0 <= i < 81 implies ((#[trigger] h[i]).assignment matches Some(w)
        ==> h[i].candidates == seq![w]) by {
        lemma_assign_tile(g, x, y, v, init, i);
        assert(g[i].sees(x, y) ==> g[i].assignment != Some(v));
    }
}

/// Whether no two tiles that see each other hold the same value.
pub open spec fn conflict_free(g: Grid) -> bool {
    forall|i: int, j: int|
        0 <= i < g.len() && 0 <= j < g.len() && i != j && (#[trigger] g[j]).sees(
            (#[trigger] g[i]).x,
            g[i].y,
        ) && g[i].assignment is Some ==> g[j].assignment != g[i].assignment
}

/// A grid without two tiles that see each other and hold the same value
/// is settled: each tile with a value has it as its one candidate.
pub proof fn lemma_conflict_free_settled(g: Grid)
    requires
        grid_wf(g),
        conflict_free(g),
    ensures
        settled(g),
        forall|i: int|
            0 <= i < 81 ==> ((#[trigger] g[i]).assignment matches Some(v) ==> g[i].candidates
                == seq![v]),
{
    assert forall|i: int| 0 <= i < 81 implies (#[trigger] g[i]).candidates == laid(g, i) && (
    g[i].assignment matches Some(v) ==> g[i].candidates == seq![v]) by {
        assert(cell_wf(g, i));
        if g[i].assignment is Some {
            let v = g[i].assignment->0;
            assert(permits(g, i, v));
            if later_rival(g, i) {
                let j = choose|j: int| #[trigger] rival_at(g, i, j);
                assert(g[j].sees(g[i].x, g[i].y));
            }
        }
    }
}

/// Clearing a cell undoes the assignment of a value of the player's to it
/// in every settled grid: what comes back is the grid from before the
/// assignment, tile for tile, the candidates and the crossed-out values
/// included. Whether the assigned value was ruled out at the cell does
/// not matter.
pub proof fn lemma_unassign_undoes_assign(g: Grid, x: u8, y: u8, v: u8)
    requires
        grid_wf(g),
        settled(g),
        grid_can_assign(g, x, y, v),
    ensures
        grid_try_unassign(grid_assign(g, x, y, v, false), x, y) == Some(g),
{
    let h = grid_assign(g, x, y, v, false);
    lemma_can_assign(g, x, y, v);
    lemma_place(g, x, y);
    lemma_assign_wf(g, x, y, v, false);
    lemma_can_unassign(h, x, y);
    assert(same_marks(grid_cleared(h, x, y), g)) by {
        assert forall|i: int| 0 <= i < 81 implies {
            let a = #[trigger] grid_cleared(h, x, y)[i];
            a.x == g[i].x && a.y == g[i].y && a.assignment == g[i].assignment && a.init
                == g[i].init && a.eliminated == g[i].eliminated
        } by {
            assert(cell_wf(g, i));
            lemma_assign_tile(g, x, y, v, false, i);
        }
    }
    lemma_rederived_agree(grid_cleared(h, x, y), g);
    lemma_settled_rederived(g);
}

/// Clearing a cell undoes an assignment that contradicts nothing, in a
/// grid in which nothing contradicts anything.
pub proof fn lemma_unassign_undoes_assign_without_conflict(g: Grid, x: u8, y: u8, v: u8)
    requires
        grid_wf(g),
        conflict_free(g),
        grid_can_assign(g, x, y, v),
    ensures
        grid_try_unassign(grid_assign(g, x, y, v, false), x, y) == Some(g),
{
    lemma_conflict_free_settled(g);
    lemma_unassign_undoes_assign(g, x, y, v);
}

/// Two assignments to different cells can be made in either order, unless
/// the cells see each other and the values are the same.
pub proof fn lemma_assign_commutes(
    g: Grid,
    x1: u8,
    y1: u8,
    v1: u8,
    init1: bool,
    x2: u8,
    y2: u8,
    v2: u8,
    init2: bool,
)
    requires
        grid_wf(g),
        grid_can_assign(g, x1, y1, v1),
        grid_can_assign(g, x2, y2, v2),
        x1 != x2 || y1 != y2,
        !(v1 == v2 && g[index_of(x1, y1)].sees(x2, y2)),
    ensures
        grid_can_assign(grid_assign(g, x1, y1, v1, init1), x2, y2, v2),
        grid_can_assign(grid_assign(g, x2, y2, v2, init2), x1, y1, v1),
        grid_assign(grid_assign(g, x1, y1, v1, init1), x2, y2, v2, init2) == grid_assign(
            grid_assign(g, x2, y2, v2, init2),
            x1,
            y1,
            v1,
            init1,
        ),
{
    let a = grid_assign(g, x1, y1, v1, init1);
    let b = grid_assign(g, x2, y2, v2, init2);
    let t1 = index_of(x1, y1);
    let t2 = index_of(x2, y2);
    lemma_can_assign(g, x1, y1, v1);
    lemma_can_assign(g, x2, y2, v2);
    lemma_place(g, x1, y1);
    lemma_place(g, x2, y2);
    lemma_assign_wf(g, x1, y1, v1, init1);
    lemma_assign_wf(g, x2, y2, v2, init2);
    lemma_can_assign(a, x2, y2, v2);
    lemma_can_assign(b, x1, y1, v1);
    lemma_assign_wf(a, x2, y2, v2, init2);
    lemma_assign_wf(b, x1, y1, v1, init1);
    lemma_sees_symmetric(g[t1], g[t2]);
    let ab = grid_assign(a, x2, y2, v2, init2);
    let ba = grid_assign(b, x1, y1, v1, init1);
    assert(same_assignments(ab, ba)) by {
        assert forall|i: int| 0 <= i < 81 implies (#[trigger] ab[i]).x == ba[i].x && ab[i].y
            == ba[i].y && ab[i].assignment == ba[i].assignment by {
            assert(cell_wf(g, i));
        }
    }
    assert forall|i: int| 0 <= i < 81 implies ab[i] == ba[i] by {
        assert(cell_wf(g, i));
        lemma_assign_tile(g, x1, y1, v1, init1, i);
        lemma_assign_tile(g, x2, y2, v2, init2, i);
        lemma_assign_tile(a, x2, y2, v2, init2, i);
        lemma_assign_tile(b, x1, y1, v1, init1, i);
        if i != t1 && i != t2 && g[i].assignment is None {
            lemma_propagated_agree(ab, ba, i);
        }
    }
    assert(ab =~= ba);
}

/// An accepted move cuts the history off after the current snapshot and
/// appends the new grid, which becomes the current one; the snapshots up
/// to the current one stay. A refused move, undo and redo leave every
/// snapshot where it is.
pub proof fn lemma_history_truncation(h: HistoryView, g: Grid)
    requires
        h.wf(),
        grid_wf(g),
    ensures
        h.apply(Some(g)).wf(),
        h.apply(Some(g)).snapshots.len() == h.index + 2,
        h.apply(Some(g)).index == h.index + 1,
        h.apply(Some(g)).current() == g,
        forall|i: int| 0 <= i <= h.index ==> h.apply(Some(g)).snapshots[i] == h.snapshots[i],
        h.apply(None) == h,
        h.undo().wf() && h.undo().snapshots == h.snapshots,
        h.redo().wf() && h.redo().snapshots == h.snapshots,
{
}

/// Redo takes back what undo did, wherever undo did anything.
pub proof fn lemma_redo_after_undo(h: HistoryView)
    requires
        h.wf(),
        h.index > 0,
    ensures
        h.undo().redo() == h,
{
}

} // verus!
