//! The grid as a mathematical value: 81 tiles in row-major order, the moves
//! on them, and the invariant that ties the candidates of every tile to
//! the values assigned around it.

use vstd::prelude::*;
use crate::tile::{TileView, in_range};
use crate::values::{digits, is_not_value, lemma_filter_agree, lemma_filter_twice,
    lemma_filter_all, lemma_filter_members, lemma_without_single};

verus! {

/// A grid: its tiles, row by row from the top, each row from the left.
pub type Grid = Seq<TileView>;

/// The place of the cell `(x, y)` in a grid.
pub open spec fn index_of(x: u8, y: u8) -> int {
    y * 9 + x
}

/// The grid of 81 blank tiles.
pub open spec fn blank_grid() -> Grid {
    Seq::new(81, |i: int| TileView::blank((i % 9) as u8, (i / 9) as u8))
}

/// Whether the assignments of `g` leave `v` open at place `i`: the tile
/// there holds no other value, and no other tile that sees it holds `v`.
pub open spec fn permits(g: Grid, i: int, v: u8) -> bool {
    &&& (g[i].assignment is None || g[i].assignment == Some(v))
    &&& forall|j: int|
        0 <= j < g.len() && j != i && (#[trigger] g[j]).sees(g[i].x, g[i].y) ==> g[j].assignment
            != Some(v)
}

/// `permits` at place `i` of `g`, as a test on values.
pub open spec fn permitted(g: Grid, i: int) -> spec_fn(u8) -> bool {
    |v: u8| permits(g, i, v)
}

/// The candidates that the assignments of `g` leave at place `i`, ascending.
pub open spec fn propagated(g: Grid, i: int) -> Seq<u8> {
    digits().filter(permitted(g, i))
}

/// Whether `s` lists cell values, none of them twice.
pub open spec fn is_value_set(s: Seq<u8>) -> bool {
    &&& forall|k: int| 0 <= k < s.len() ==> 1 <= #[trigger] s[k] <= 9
    &&& forall|j: int, k: int| 0 <= j < k < s.len() ==> s[j] != s[k]
}

/// What holds of the tile at place `i` whatever its candidates: it sits
/// at its own coordinates, a value it holds is a cell value, only a tile
/// with a value is a clue, and what is crossed out are cell values, each
/// crossed out once.
pub open spec fn cell_frame(g: Grid, i: int) -> bool {
    &&& g[i].x == i % 9
    &&& g[i].y == i / 9
    &&& (g[i].assignment matches Some(v) ==> 1 <= v <= 9)
    &&& (g[i].init ==> g[i].assignment is Some)
    &&& is_value_set(g[i].eliminated)
}

/// What holds of the candidates of the tile at place `i`. An empty tile
/// has those that the assignments of the grid leave open. A tile with a
/// value has that value as its one candidate, or none; it has the value
/// wherever no other tile that sees it holds the same value.
pub open spec fn cell_narrowed(g: Grid, i: int) -> bool {
    match g[i].assignment {
        None => g[i].candidates == propagated(g, i),
        Some(v) => {
            &&& g[i].candidates == seq![v] || g[i].candidates == Seq::<u8>::empty()
            &&& permits(g, i, v) ==> g[i].candidates == seq![v]
        },
    }
}

/// What holds of the tile at place `i` of every grid that the moves produce.
pub open spec fn cell_wf(g: Grid, i: int) -> bool {
    cell_frame(g, i) && cell_narrowed(g, i)
}

/// Whether `g` has 81 tiles of which `cell_frame` holds.
pub open spec fn grid_frame(g: Grid) -> bool {
    &&& g.len() == 81
    &&& forall|i: int| 0 <= i < 81 ==> #[trigger] cell_frame(g, i)
}

/// The invariant of a grid.
pub open spec fn grid_wf(g: Grid) -> bool {
    &&& g.len() == 81
    &&& forall|i: int| 0 <= i < 81 ==> #[trigger] cell_wf(g, i)
}

/// Whether no tile objects to `v` being assigned at `(x, y)`.
pub open spec fn grid_can_assign(g: Grid, x: u8, y: u8, v: u8) -> bool {
    forall|i: int| 0 <= i < g.len() ==> (#[trigger] g[i]).can_assign(x, y, v)
}

/// `g` after `v` was assigned at `(x, y)`, every tile having taken note.
pub open spec fn grid_assign(g: Grid, x: u8, y: u8, v: u8, init: bool) -> Grid {
    Seq::new(g.len(), |i: int| g[i].assign(x, y, v, init))
}

/// Whether no tile objects to the cell at `(x, y)` being cleared.
pub open spec fn grid_can_unassign(g: Grid, x: u8, y: u8) -> bool {
    forall|i: int| 0 <= i < g.len() ==> (#[trigger] g[i]).can_unassign(x, y)
}

/// `g` with the tile at `(x, y)` emptied and nothing else touched.
pub open spec fn grid_cleared(g: Grid, x: u8, y: u8) -> Grid {
    Seq::new(
        g.len(),
        |i: int|
            if g[i].at(x, y) {
                TileView {
                    x: g[i].x,
                    y: g[i].y,
                    init: false,
                    assignment: None,
                    candidates: g[i].candidates,
                    eliminated: g[i].eliminated,
                }
            } else {
                g[i]
            },
    )
}

/// Whether the tile at place `j` comes after the one at place `i`, sees
/// it and holds the same value.
pub open spec fn rival_at(g: Grid, i: int, j: int) -> bool {
    &&& i < j < g.len()
    &&& g[j].sees(g[i].x, g[i].y)
    &&& g[i].assignment is Some
    &&& g[j].assignment == g[i].assignment
}

/// Whether a later tile that sees the tile at place `i` holds the same value.
pub open spec fn later_rival(g: Grid, i: int) -> bool {
    exists|j: int| #[trigger] rival_at(g, i, j)
}

/// The candidates of the tile at place `i` once the values of `g` have
/// been assigned to a reset grid in the order of the tiles: an empty tile
/// has what the assignments leave open; a tile with a value has that
/// value, unless a later tile that sees it took it away.
pub open spec fn laid(g: Grid, i: int) -> Seq<u8> {
    match g[i].assignment {
        None => propagated(g, i),
        Some(v) => if later_rival(g, i) {
            Seq::empty()
        } else {
            seq![v]
        },
    }
}

/// `g` with every candidate list as assigning its values anew, in the
/// order of the tiles, leaves it.
pub open spec fn grid_rederived(g: Grid) -> Grid {
    Seq::new(
        g.len(),
        |i: int|
            TileView {
                x: g[i].x,
                y: g[i].y,
                init: g[i].init,
                assignment: g[i].assignment,
                candidates: laid(g, i),
                eliminated: g[i].eliminated,
            },
    )
}

/// Whether the candidates of `g` are what assigning its values in the
/// order of the tiles leaves. Every grid without two tiles that see each
/// other and hold the same value is such a grid.
pub open spec fn settled(g: Grid) -> bool {
    forall|i: int| 0 <= i < g.len() ==> (#[trigger] g[i]).candidates == laid(g, i)
}

/// `m` with the value `v` written into the tile at place `t`, the
/// candidate lists left as they were.
pub open spec fn grid_marked_at(m: Grid, t: int, v: u8, init: bool) -> Grid {
    m.update(
        t,
        TileView {
            x: m[t].x,
            y: m[t].y,
            init,
            assignment: Some(v),
            candidates: m[t].candidates,
            eliminated: m[t].eliminated,
        },
    )
}

/// Two grids that differ in their candidate lists at most.
pub open spec fn same_marks(g: Grid, h: Grid) -> bool {
    &&& g.len() == h.len()
    &&& forall|i: int|
        0 <= i < g.len() ==> (#[trigger] g[i]).x == h[i].x && g[i].y == h[i].y && g[i].assignment
            == h[i].assignment && g[i].init == h[i].init && g[i].eliminated == h[i].eliminated
}

/// The marks of the grid in which the assignments of the first `n` tiles,
/// but for the one at `(x, y)`, are made again.
pub open spec fn replay_marks(g: Grid, x: u8, y: u8, n: int) -> Grid {
    Seq::new(
        g.len(),
        |i: int|
            if i < n && !g[i].at(x, y) {
                g[i]
            } else {
                g[i].fresh()
            },
    )
}

/// `g` after the cell at `(x, y)` was cleared: the tile there is empty
/// again, and every candidate list is what making the remaining
/// assignments again, row by row, leaves.
pub open spec fn grid_unassign(g: Grid, x: u8, y: u8) -> Grid {
    grid_rederived(grid_cleared(g, x, y))
}

/// `g` with every tile reset: nothing assigned, every value open, what
/// was crossed out kept.
pub open spec fn grid_fresh(g: Grid) -> Grid {
    Seq::new(g.len(), |i: int| g[i].fresh())
}

/// `g` with every tile reset and the assignments of the first `n` tiles,
/// but for the one at `(x, y)`, made again in the order of the tiles.
pub open spec fn grid_replayed(g: Grid, x: u8, y: u8, n: int) -> Grid {
    grid_rederived(replay_marks(g, x, y, n))
}

/// Whether no tile objects to `v` being crossed out at `(x, y)`.
pub open spec fn grid_can_cross_out(g: Grid, x: u8, y: u8, v: u8) -> bool {
    forall|i: int| 0 <= i < g.len() ==> (#[trigger] g[i]).can_cross_out(x, y, v)
}

/// `g` after `v` was crossed out at `(x, y)`.
pub open spec fn grid_cross_out(g: Grid, x: u8, y: u8, v: u8) -> Grid {
    Seq::new(g.len(), |i: int| g[i].cross_out(x, y, v))
}

/// What an attempt to assign `v` at `(x, y)` comes back with.
pub open spec fn grid_try_assign(g: Grid, x: u8, y: u8, v: u8, init: bool) -> Option<Grid> {
    if grid_can_assign(g, x, y, v) {
        Some(grid_assign(g, x, y, v, init))
    } else {
        None
    }
}

/// What an attempt to clear the cell at `(x, y)` comes back with.
pub open spec fn grid_try_unassign(g: Grid, x: u8, y: u8) -> Option<Grid> {
    if grid_can_unassign(g, x, y) {
        Some(grid_unassign(g, x, y))
    } else {
        None
    }
}

/// What an attempt to cross `v` out at `(x, y)` comes back with.
pub open spec fn grid_try_cross_out(g: Grid, x: u8, y: u8, v: u8) -> Option<Grid> {
    if grid_can_cross_out(g, x, y, v) {
        Some(grid_cross_out(g, x, y, v))
    } else {
        None
    }
}

/// Two grids whose tiles sit at the same coordinates and hold the same values.
pub open spec fn same_assignments(g: Grid, h: Grid) -> bool {
    &&& g.len() == h.len()
    &&& forall|i: int|
        0 <= i < g.len() ==> (#[trigger] g[i]).x == h[i].x && g[i].y == h[i].y && g[i].assignment
            == h[i].assignment
}

/// In a grid whose tiles sit at their coordinates, the tile at `(x, y)`
/// is the one at place `index_of(x, y)`, and no other.
pub proof fn lemma_place(g: Grid, x: u8, y: u8)
    requires
        grid_frame(g) || grid_wf(g),
        x < 9,
        y < 9,
    ensures
        0 <= index_of(x, y) < 81,
        g[index_of(x, y)].at(x, y),
        forall|i: int| 0 <= i < 81 && (#[trigger] g[i]).at(x, y) ==> i == index_of(x, y),
{
    let t = index_of(x, y);
    assert(cell_frame(g, t)) by {
        if grid_wf(g) {
            assert(cell_wf(g, t));
        }
    }
    assert forall|i: int| 0 <= i < 81 && (#[trigger] g[i]).at(x, y) implies i == t by {
        if grid_wf(g) {
            assert(cell_wf(g, i));
        } else {
            assert(cell_frame(g, i));
        }
    }
}

/// Seeing is mutual.
pub proof fn lemma_sees_symmetric(a: TileView, b: TileView)
    ensures
        a.sees(b.x, b.y) == b.sees(a.x, a.y),
{
}

/// Grids with the same assignments leave the same values open.
pub proof fn lemma_permits_agree(g: Grid, h: Grid, i: int, w: u8)
    requires
        same_assignments(g, h),
        0 <= i < g.len(),
    ensures
        permits(g, i, w) == permits(h, i, w),
{
    assert(g[i].x == h[i].x && g[i].assignment == h[i].assignment);
    if permits(g, i, w) {
        assert forall|j: int|
            0 <= j < h.len() && j != i && (#[trigger] h[j]).sees(h[i].x, h[i].y)
            implies h[j].assignment != Some(w) by {
            assert(g[j].x == h[j].x);
        }
    }
    if permits(h, i, w) {
        assert forall|j: int|
            0 <= j < g.len() && j != i && (#[trigger] g[j]).sees(g[i].x, g[i].y)
            implies g[j].assignment != Some(w) by {
            assert(g[j].x == h[j].x);
            assert(h[j].sees(h[i].x, h[i].y));
        }
    }
}

/// Grids with the same assignments leave the same candidates open.
pub proof fn lemma_propagated_agree(g: Grid, h: Grid, i: int)
    requires
        same_assignments(g, h),
        0 <= i < g.len(),
    ensures
        propagated(g, i) == propagated(h, i),
{
    assert forall|w: u8| permits(g, i, w) == permits(h, i, w) by {
        lemma_permits_agree(g, h, i, w);
    }
    lemma_filter_agree(digits(), permitted(g, i), permitted(h, i));
}

/// Grids with the same assignments have the same rivals.
pub proof fn lemma_later_rival_agree(g: Grid, h: Grid, i: int)
    requires
        same_assignments(g, h),
        0 <= i < g.len(),
    ensures
        later_rival(g, i) == later_rival(h, i),
{
    assert(g[i].x == h[i].x);
    if later_rival(g, i) {
        let j = choose|j: int| #[trigger] rival_at(g, i, j);
        assert(g[j].x == h[j].x);
        assert(rival_at(h, i, j));
    }
    if later_rival(h, i) {
        let j = choose|j: int| #[trigger] rival_at(h, i, j);
        assert(g[j].x == h[j].x);
        assert(rival_at(g, i, j));
    }
}

/// Grids with the same assignments are left with the same candidates.
pub proof fn lemma_laid_agree(g: Grid, h: Grid, i: int)
    requires
        same_assignments(g, h),
        0 <= i < g.len(),
    ensures
        laid(g, i) == laid(h, i),
{
    assert(g[i].assignment == h[i].assignment);
    lemma_propagated_agree(g, h, i);
    lemma_later_rival_agree(g, h, i);
}

/// Grids that differ in their candidates at most are the same once the
/// candidates are computed anew.
pub proof fn lemma_rederived_agree(g: Grid, h: Grid)
    requires
        same_marks(g, h),
    ensures
        grid_rederived(g) == grid_rederived(h),
{
    assert(same_assignments(g, h));
    assert forall|i: int| 0 <= i < g.len() implies grid_rederived(g)[i] == grid_rederived(h)[i] by {
        assert(g[i].x == h[i].x);
        lemma_laid_agree(g, h, i);
    }
    assert(grid_rederived(g) =~= grid_rederived(h));
}

/// A settled grid is the one that computing its candidates anew gives.
pub proof fn lemma_settled_rederived(g: Grid)
    requires
        settled(g),
    ensures
        grid_rederived(g) == g,
{
    assert forall|i: int| 0 <= i < g.len() implies grid_rederived(g)[i] == g[i] by {
        assert(g[i].candidates == laid(g, i));
    }
    assert(grid_rederived(g) =~= g);
}

/// Computing the candidates anew gives a settled grid that obeys the
/// invariant.
pub proof fn lemma_rederived_wf(m: Grid)
    requires
        grid_frame(m),
    ensures
        grid_wf(grid_rederived(m)),
        settled(grid_rederived(m)),
        same_marks(m, grid_rederived(m)),
{
    let r = grid_rederived(m);
    assert(same_assignments(m, r));
    assert forall|i: int| 0 <= i < 81 implies (#[trigger] r[i]).candidates == laid(r, i) by {
        lemma_laid_agree(m, r, i);
    }
    assert forall|i: int| 0 <= i < 81 implies #[trigger] cell_wf(r, i) by {
        assert(cell_frame(m, i));
        lemma_propagated_agree(m, r, i);
        if m[i].assignment is Some {
            let v = m[i].assignment->0;
            if later_rival(m, i) {
                let j = choose|j: int| #[trigger] rival_at(m, i, j);
                assert(r[j].sees(r[i].x, r[i].y) && r[j].assignment == Some(v));
                assert(!permits(r, i, v));
            }
        }
    }
}

/// The blank grid obeys the invariant.
pub proof fn lemma_blank_wf()
    ensures
        grid_wf(blank_grid()),
{
    let g = blank_grid();
    assert forall|i: int| 0 <= i < 81 implies #[trigger] cell_wf(g, i) by {
        lemma_unassigned_all_open(g, i);
    }
}

/// Where no tile holds a value, every value is open.
pub proof fn lemma_unassigned_all_open(g: Grid, i: int)
    requires
        0 <= i < g.len(),
        forall|j: int| 0 <= j < g.len() ==> (#[trigger] g[j]).assignment is None,
    ensures
        propagated(g, i) == digits(),
{
    assert forall|k: int| 0 <= k < digits().len() implies permitted(g, i)(
        #[trigger] digits()[k],
    ) by {
        assert(g[i].assignment is None);
    }
    lemma_filter_all(digits(), permitted(g, i));
}

/// How an accepted assignment changes what the other tiles hold to be
/// open: a value is open at a tile afterwards if it was before and, where
/// the tile sees the target, is not the assigned one.
proof fn lemma_assign_permits(g: Grid, x: u8, y: u8, v: u8, init: bool, i: int, w: u8)
    requires
        grid_wf(g),
        in_range(x, y, v),
        g[index_of(x, y)].assignment is None,
        0 <= i < 81,
        i != index_of(x, y),
    ensures
        permits(grid_assign(g, x, y, v, init), i, w) == (permits(g, i, w) && !(g[i].sees(x, y) && w
            == v)),
{
    let h = grid_assign(g, x, y, v, init);
    let t = index_of(x, y);
    lemma_place(g, x, y);
    assert(cell_wf(g, i));
    assert forall|j: int| 0 <= j < 81 implies (#[trigger] h[j]).x == g[j].x && h[j].y == g[j].y && (
    j != t ==> h[j].assignment == g[j].assignment) by {}
    assert(h[t].assignment == Some(v));
    lemma_sees_symmetric(g[i], g[t]);
    if permits(h, i, w) {
        assert(h[t].sees(h[i].x, h[i].y) ==> w != v);
        assert forall|j: int|
            0 <= j < g.len() && j != i && (#[trigger] g[j]).sees(g[i].x, g[i].y)
            implies g[j].assignment != Some(w) by {
            assert(h[j].sees(h[i].x, h[i].y));
        }
    }
    if permits(g, i, w) && !(g[i].sees(x, y) && w == v) {
        assert forall|j: int|
            0 <= j < h.len() && j != i && (#[trigger] h[j]).sees(h[i].x, h[i].y)
            implies h[j].assignment != Some(w) by {
            assert(g[j].sees(g[i].x, g[i].y));
        }
    }
}

/// What an accepted assignment does to the tile at place `i`: the target
/// holds the value as its one candidate; an empty tile has what the new
/// assignments leave open; a tile with a value loses its candidate if it
/// sees the target and holds the assigned value, and keeps it if not.
pub proof fn lemma_assign_tile(g: Grid, x: u8, y: u8, v: u8, init: bool, i: int)
    requires
        grid_wf(g),
        grid_can_assign(g, x, y, v),
        0 <= i < 81,
    ensures
        ({
            let h = grid_assign(g, x, y, v, init);
            &&& h[i].x == g[i].x && h[i].y == g[i].y && h[i].eliminated == g[i].eliminated
            &&& i == index_of(x, y) ==> h[i].assignment == Some(v) && h[i].init == init
                && h[i].candidates == seq![v]
            &&& i != index_of(x, y) ==> h[i].assignment == g[i].assignment && h[i].init == g[i].init
            &&& i != index_of(x, y) && g[i].assignment is None ==> h[i].candidates == propagated(
                h,
                i,
            )
            &&& i != index_of(x, y) ==> (g[i].assignment matches Some(w) ==> h[i].candidates
                == if g[i].sees(x, y) && w == v {
                Seq::<u8>::empty()
            } else {
                g[i].candidates
            })
        }),
{
    let h = grid_assign(g, x, y, v, init);
    let t = index_of(x, y);
    lemma_can_assign(g, x, y, v);
    lemma_place(g, x, y);
    assert(cell_wf(g, i));
    if i != t {
        match g[i].assignment {
            None => {
                assert forall|w: u8| permits(h, i, w) == (permits(g, i, w) && !(g[i].sees(x, y)
                    && w == v)) by {
                    lemma_assign_permits(g, x, y, v, init, i, w);
                }
                if g[i].sees(x, y) {
                    lemma_filter_twice(
                        digits(),
                        permitted(g, i),
                        is_not_value(v),
                        permitted(h, i),
                    );
                } else {
                    lemma_filter_agree(digits(), permitted(g, i), permitted(h, i));
                }
            },
            Some(w) => {
                lemma_without_single(w, v);
            },
        }
    }
}

/// An accepted assignment keeps the invariant.
pub proof fn lemma_assign_wf(g: Grid, x: u8, y: u8, v: u8, init: bool)
    requires
        grid_wf(g),
        grid_can_assign(g, x, y, v),
    ensures
        grid_wf(grid_assign(g, x, y, v, init)),
{
    let h = grid_assign(g, x, y, v, init);
    let t = index_of(x, y);
    lemma_can_assign(g, x, y, v);
    lemma_place(g, x, y);
    assert forall|i: int| 0 <= i < 81 implies #[trigger] cell_wf(h, i) by {
        assert(cell_wf(g, i));
        lemma_assign_tile(g, x, y, v, init, i);
        if i != t {
            if g[i].assignment is Some {
                lemma_assign_permits(g, x, y, v, init, i, g[i].assignment->0);
            }
        }
    }
}

/// An accepted cross-out keeps the invariant.
pub proof fn lemma_cross_out_wf(g: Grid, x: u8, y: u8, v: u8)
    requires
        grid_wf(g),
        grid_can_cross_out(g, x, y, v),
    ensures
        grid_wf(grid_cross_out(g, x, y, v)),
{
    let h = grid_cross_out(g, x, y, v);
    assert(same_assignments(g, h));
    assert forall|i: int| 0 <= i < 81 implies #[trigger] cell_wf(h, i) by {
        assert(cell_wf(g, i));
        assert(g[i].can_cross_out(x, y, v));
        lemma_propagated_agree(g, h, i);
        if g[i].assignment is Some {
            lemma_permits_agree(g, h, i, g[i].assignment->0);
        }
    }
}

/// Clearing a cell gives a settled grid that obeys the invariant.
pub proof fn lemma_unassign_wf(g: Grid, x: u8, y: u8)
    requires
        grid_wf(g),
    ensures
        grid_wf(grid_unassign(g, x, y)),
        settled(grid_unassign(g, x, y)),
{
    let c = grid_cleared(g, x, y);
    assert forall|i: int| 0 <= i < 81 implies #[trigger] cell_frame(c, i) by {
        assert(cell_wf(g, i));
    }
    lemma_rederived_wf(c);
}

/// Playing assignments again on the reset grid gives a settled grid that
/// obeys the invariant.
pub proof fn lemma_replayed_wf(g: Grid, x: u8, y: u8, n: int)
    requires
        grid_wf(g),
    ensures
        grid_wf(grid_replayed(g, x, y, n)),
        settled(grid_replayed(g, x, y, n)),
        grid_frame(replay_marks(g, x, y, n)),
{
    let marks = replay_marks(g, x, y, n);
    assert forall|i: int| 0 <= i < 81 implies #[trigger] cell_frame(marks, i) by {
        assert(cell_wf(g, i));
    }
    lemma_rederived_wf(marks);
}

/// Before any assignment is made again, the grid is the reset one.
pub proof fn lemma_replay_start(g: Grid, x: u8, y: u8)
    requires
        grid_wf(g),
    ensures
        grid_replayed(g, x, y, 0) == grid_fresh(g),
{
    let h = grid_replayed(g, x, y, 0);
    assert forall|i: int| 0 <= i < 81 implies h[i] == grid_fresh(g)[i] by {
        lemma_unassigned_all_open(replay_marks(g, x, y, 0), i);
    }
    assert(h =~= grid_fresh(g));
}

/// Which tiles have a later rival once the empty tile at place `t` holds
/// `v`: those that had one, and the earlier tiles that see the tile at
/// `t` and hold `v`.
pub proof fn lemma_later_rival_marked(m: Grid, t: int, v: u8, init: bool, i: int)
    requires
        0 <= t < m.len(),
        0 <= i < m.len(),
        i != t,
        m[t].assignment is None,
        m[i].assignment is Some,
    ensures
        later_rival(grid_marked_at(m, t, v, init), i) <==> later_rival(m, i) || (i < t
            && m[t].sees(m[i].x, m[i].y) && m[i].assignment == Some(v)),
{
    let n = grid_marked_at(m, t, v, init);
    if later_rival(n, i) {
        let j = choose|j: int| #[trigger] rival_at(n, i, j);
        if j != t {
            assert(rival_at(m, i, j));
        }
    }
    if later_rival(m, i) {
        let j = choose|j: int| #[trigger] rival_at(m, i, j);
        assert(rival_at(n, i, j));
    }
    if i < t && m[t].sees(m[i].x, m[i].y) && m[i].assignment == Some(v) {
        assert(rival_at(n, i, t));
    }
}

/// Assigning a value to the first tile after which no tile holds one is
/// accepted, and leads from the grid laid out for the marks `m` to the
/// grid laid out for `m` with that value written in.
pub proof fn lemma_assign_next(m: Grid, t: int, v: u8, init: bool)
    requires
        grid_frame(m),
        0 <= t < 81,
        1 <= v <= 9,
        forall|j: int| t <= j < 81 ==> (#[trigger] m[j]).assignment is None,
    ensures
        grid_can_assign(grid_rederived(m), m[t].x, m[t].y, v),
        grid_assign(grid_rederived(m), m[t].x, m[t].y, v, init) == grid_rederived(
            grid_marked_at(m, t, v, init),
        ),
{
    let r = grid_rederived(m);
    let x = m[t].x;
    let y = m[t].y;
    let n = grid_marked_at(m, t, v, init);
    let want = grid_rederived(n);
    assert(cell_frame(m, t));
    assert(m[t].assignment is None);
    lemma_rederived_wf(m);
    lemma_can_assign(r, x, y, v);
    lemma_place(r, x, y);
    let next = grid_assign(r, x, y, v, init);
    lemma_assign_wf(r, x, y, v, init);
    assert(same_assignments(next, n)) by {
        assert forall|i: int| 0 <= i < 81 implies (#[trigger] next[i]).x == n[i].x && next[i].y
            == n[i].y && next[i].assignment == n[i].assignment by {
            lemma_assign_tile(r, x, y, v, init, i);
        }
    }
    assert forall|i: int| 0 <= i < 81 implies next[i] == want[i] by {
        lemma_assign_tile(r, x, y, v, init, i);
        assert(cell_frame(m, i));
        if i == t {
            if later_rival(n, t) {
                let j = choose|j: int| #[trigger] rival_at(n, t, j);
                assert(m[j].assignment is None);
            }
        } else {
            match m[i].assignment {
                None => {
                    lemma_propagated_agree(next, n, i);
                },
                Some(w) => {
                    lemma_later_rival_marked(m, t, v, init, i);
                    lemma_sees_symmetric(m[i], m[t]);
                },
            }
        }
    }
    assert(next =~= want);
}

/// Making the assignment of the tile at place `n` again is accepted, and
/// leads from the grid with the first `n` assignments to the one with the
/// first `n + 1`; a tile that holds no value, and the one at `(x, y)`,
/// change nothing.
pub proof fn lemma_replay_step(g: Grid, x: u8, y: u8, n: int)
    requires
        grid_wf(g),
        0 <= n < 81,
    ensures
        grid_replayed(g, x, y, n + 1) == match g[n].assignment {
            Some(v) if !g[n].at(x, y) => grid_assign(
                grid_replayed(g, x, y, n),
                g[n].x,
                g[n].y,
                v,
                g[n].init,
            ),
            _ => grid_replayed(g, x, y, n),
        },
        g[n].assignment matches Some(v) ==> !g[n].at(x, y) ==> grid_can_assign(
            grid_replayed(g, x, y, n),
            g[n].x,
            g[n].y,
            v,
        ),
{
    let before = replay_marks(g, x, y, n);
    let after = replay_marks(g, x, y, n + 1);
    lemma_replayed_wf(g, x, y, n);
    assert(cell_wf(g, n));
    match g[n].assignment {
        Some(v) if !g[n].at(x, y) => {
            lemma_assign_next(before, n, v, g[n].init);
            assert(same_marks(grid_marked_at(before, n, v, g[n].init), after));
            lemma_rederived_agree(grid_marked_at(before, n, v, g[n].init), after);
        },
        _ => {
            assert(same_marks(before, after));
            lemma_rederived_agree(before, after);
        },
    }
}

/// Once every other assignment is made again, the grid is the one with
/// the cell at `(x, y)` cleared.
pub proof fn lemma_replay_end(g: Grid, x: u8, y: u8)
    requires
        grid_wf(g),
    ensures
        grid_replayed(g, x, y, 81) == grid_unassign(g, x, y),
{
    assert(same_marks(replay_marks(g, x, y, 81), grid_cleared(g, x, y))) by {
        assert forall|i: int| 0 <= i < 81 implies {
            let a = #[trigger] replay_marks(g, x, y, 81)[i];
            let b = grid_cleared(g, x, y)[i];
            a.x == b.x && a.y == b.y && a.assignment == b.assignment && a.init == b.init
                && a.eliminated == b.eliminated
        } by {
            assert(cell_wf(g, i));
        }
    }
    lemma_rederived_agree(replay_marks(g, x, y, 81), grid_cleared(g, x, y));
}

/// Only a free target lets an assignment through, and only one in range.
pub proof fn lemma_can_assign(g: Grid, x: u8, y: u8, v: u8)
    requires
        grid_wf(g),
    ensures
        grid_can_assign(g, x, y, v) <==> in_range(x, y, v) && g[index_of(x, y)].assignment is None,
{
    assert(g[0].can_assign(x, y, v) ==> in_range(x, y, v));
    if in_range(x, y, v) {
        lemma_place(g, x, y);
        assert(grid_can_assign(g, x, y, v) ==> g[index_of(x, y)].can_assign(x, y, v));
    }
}

/// Only a target that holds a value of the player's lets a clearing through.
pub proof fn lemma_can_unassign(g: Grid, x: u8, y: u8)
    requires
        grid_wf(g),
    ensures
        grid_can_unassign(g, x, y) <==> x < 9 && y < 9 && !g[index_of(x, y)].init && g[index_of(
            x,
            y,
        )].assignment is Some,
{
    assert(g[0].can_unassign(x, y) ==> x < 9 && y < 9);
    if x < 9 && y < 9 {
        lemma_place(g, x, y);
        assert(grid_can_unassign(g, x, y) ==> g[index_of(x, y)].can_unassign(x, y));
    }
}

/// Only an empty target where the value is still open lets a cross-out through.
pub proof fn lemma_can_cross_out(g: Grid, x: u8, y: u8, v: u8)
    requires
        grid_wf(g),
    ensures
        grid_can_cross_out(g, x, y, v) <==> in_range(x, y, v) && g[index_of(
            x,
            y,
        )].assignment is None && g[index_of(x, y)].is_live(v),
{
    assert(g[0].can_cross_out(x, y, v) ==> in_range(x, y, v));
    if in_range(x, y, v) {
        lemma_place(g, x, y);
        assert(cell_wf(g, index_of(x, y)));
        assert(grid_can_cross_out(g, x, y, v) ==> g[index_of(x, y)].can_cross_out(x, y, v));
    }
}

/// An assignment takes the value from the candidates of every other tile
/// that sees the target, and leaves the tiles that do not see it as they were.
pub proof fn lemma_assign_propagates(g: Grid, x: u8, y: u8, v: u8, init: bool)
    ensures
        forall|i: int|
            0 <= i < g.len() && !g[i].at(x, y) && g[i].sees(x, y) ==> !(#[trigger] grid_assign(
                g,
                x,
                y,
                v,
                init,
            )[i]).candidates.contains(v),
        forall|i: int|
            0 <= i < g.len() && !g[i].sees(x, y) ==> #[trigger] grid_assign(g, x, y, v, init)[i]
                == g[i],
{
    let h = grid_assign(g, x, y, v, init);
    assert forall|i: int| 0 <= i < g.len() && !g[i].at(x, y) && g[i].sees(x, y) implies !(
    #[trigger] h[i]).candidates.contains(v) by {
        lemma_filter_members(g[i].candidates, is_not_value(v));
    }
}

/// An accepted assignment leaves the target with the value as its one
/// candidate.
pub proof fn lemma_assign_target(g: Grid, x: u8, y: u8, v: u8, init: bool)
    requires
        grid_wf(g),
        grid_can_assign(g, x, y, v),
    ensures
        grid_assign(g, x, y, v, init)[index_of(x, y)].candidates == seq![v],
{
    lemma_can_assign(g, x, y, v);
    lemma_place(g, x, y);
}

} // verus!
