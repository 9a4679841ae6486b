//! The grid of 81 tiles and the player's moves on it.

use vstd::prelude::*;
use crate::tile::{Tile, TileView, in_range};
use crate::values::contains;
use crate::singles::{unique_in_row, unique_in_col, unique_in_block, grid_is_unique, is_forced,
    first_from, forced_value, forced_moves, grid_assign_all, grid_autofill,
    lemma_filled_only_forced, lemma_assign_all_forced, lemma_forced_moves_len,
    lemma_assign_all_refused};
use crate::grid::{Grid, index_of, blank_grid, grid_wf, grid_can_assign, grid_assign,
    grid_can_unassign, grid_fresh, grid_replayed, grid_can_cross_out, grid_cross_out,
    grid_try_assign, grid_try_unassign, grid_try_cross_out, lemma_blank_wf, lemma_assign_wf,
    lemma_cross_out_wf, lemma_place,
    lemma_can_assign, lemma_can_unassign, lemma_can_cross_out, lemma_assign_propagates,
    lemma_assign_target, lemma_replayed_wf, lemma_replay_start, lemma_replay_step,
    lemma_replay_end};

verus! {

/// The views of a row of tiles.
pub open spec fn grid_of(tiles: Seq<Tile>) -> Grid {
    Seq::new(tiles.len(), |i: int| tiles[i]@)
}

/// The grid that a move came back with, if it came back with a board.
pub open spec fn result_view(r: Option<Board>) -> Option<Grid> {
    match r {
        Some(b) => Some(b@),
        None => None,
    }
}

/// A grid of 81 tiles. A board is never changed: every move returns a new one.
pub struct Board {
    tiles: Vec<Tile>,
}

impl View for Board {
    type V = Grid;

    closed spec fn view(&self) -> Grid {
        grid_of(self.tiles@)
    }
}

impl Board {
    /// Every board obeys the invariant of a grid.
    #[verifier::type_invariant]
    pub open spec fn wf(&self) -> bool {
        grid_wf(self@)
    }

    /// The board of 81 blank tiles.
    pub fn new() -> (b: Board)
        ensures
            b@ == blank_grid(),
    {
        let mut ts: Vec<Tile> = Vec::new();
        let mut y: u8 = 0;
        while y < 9
            invariant
                y <= 9,
                ts.len() == y * 9,
                forall|k: int|
                    0 <= k < ts.len() ==> (#[trigger] ts@[k])@ == TileView::blank(
                        (k % 9) as u8,
                        (k / 9) as u8,
                    ),
            decreases 9 - y,
        {
            let mut x: u8 = 0;
            while x < 9
                invariant
                    y < 9,
                    x <= 9,
                    ts.len() == y * 9 + x,
                    forall|k: int|
                        0 <= k < ts.len() ==> (#[trigger] ts@[k])@ == TileView::blank(
                            (k % 9) as u8,
                            (k / 9) as u8,
                        ),
                decreases 9 - x,
            {
                ts.push(Tile::new(x, y));
                x += 1;
            }
            y += 1;
        }
        proof {
            lemma_blank_wf();
            assert(grid_of(ts@) =~= blank_grid());
        }
        Board { tiles: ts }
    }

    /// Whether no tile objects to `v` being assigned at `(x, y)`.
    pub fn is_valid_assign_value(&self, x: u8, y: u8, v: u8) -> (r: bool)
        ensures
            r == grid_can_assign(self@, x, y, v),
    {
        let mut i: usize = 0;
        while i < self.tiles.len()
            invariant
                i <= self.tiles.len(),
                forall|k: int| 0 <= k < i ==> (#[trigger] self@[k]).can_assign(x, y, v),
            decreases self.tiles.len() - i,
        {
            if !self.tiles[i].is_valid_assign_value(x, y, v) {
                assert(!self@[i as int].can_assign(x, y, v));
                return false;
            }
            i += 1;
        }
        true
    }

    /// Assigns `v` at `(x, y)`, as a clue if `init` is set. The move is
    /// accepted if the coordinates and the value are in range and the cell is
    /// empty. The cell then has `v` as its one candidate, and every other
    /// tile that sees the cell loses `v` as a candidate, one that holds `v`
    /// too.
    pub fn assign_value(&self, x: u8, y: u8, v: u8, init: bool) -> (r: Option<Board>)
        ensures
            result_view(r) == grid_try_assign(self@, x, y, v, init),
            r is Some <==> in_range(x, y, v) && self@[index_of(x, y)].assignment is None,
            r matches Some(b) ==> b@[index_of(x, y)].candidates == seq![v],
            r matches Some(b) ==> forall|i: int|
                0 <= i < 81 && !self@[i].at(x, y) && self@[i].sees(x, y) ==> !(
                #[trigger] b@[i]).candidates.contains(v),
            r matches Some(b) ==> forall|i: int|
                0 <= i < 81 && !self@[i].sees(x, y) ==> #[trigger] b@[i] == self@[i],
    {
        proof {
            use_type_invariant(self);
            lemma_can_assign(self@, x, y, v);
        }
        if self.is_valid_assign_value(x, y, v) {
            let mut ts: Vec<Tile> = Vec::new();
            let mut i: usize = 0;
            while i < self.tiles.len()
                invariant
                    i <= self.tiles.len(),
                    ts.len() == i,
                    grid_can_assign(self@, x, y, v),
                    forall|k: int|
                        0 <= k < i ==> (#[trigger] ts@[k])@ == self@[k].assign(x, y, v, init),
                decreases self.tiles.len() - i,
            {
                assert(self@[i as int].can_assign(x, y, v));
                let new_t = self.tiles[i].assign_value(x, y, v, init);
                ts.push(new_t);
                i += 1;
            }
            proof {
                lemma_assign_wf(self@, x, y, v, init);
                lemma_assign_propagates(self@, x, y, v, init);
                lemma_assign_target(self@, x, y, v, init);
                assert(grid_of(ts@) =~= grid_assign(self@, x, y, v, init));
            }
            Some(Board { tiles: ts })
        } else {
            None
        }
    }

    /// Whether no tile objects to the cell at `(x, y)` being cleared.
    pub fn is_valid_unassign_value(&self, x: u8, y: u8) -> (r: bool)
        ensures
            r == grid_can_unassign(self@, x, y),
    {
        let mut i: usize = 0;
        while i < self.tiles.len()
            invariant
                i <= self.tiles.len(),
                forall|k: int| 0 <= k < i ==> (#[trigger] self@[k]).can_unassign(x, y),
            decreases self.tiles.len() - i,
        {
            if !self.tiles[i].is_valid_unassign_value(x, y) {
                assert(!self@[i as int].can_unassign(x, y));
                return false;
            }
            i += 1;
        }
        true
    }

    /// Clears the cell at `(x, y)`. The move is accepted if the coordinates
    /// are in range and the cell holds a value that is not a clue. Every
    /// tile is then reset, its crossed-out values kept, and the other
    /// assignments are made again on the reset board, row by row from the
    /// top and each row from the left, so that each tile is left with the
    /// candidates that the remaining assignments, made in that order, allow.
    pub fn unassign_value(&self, x: u8, y: u8) -> (r: Option<Board>)
        ensures
            result_view(r) == grid_try_unassign(self@, x, y),
            r is Some <==> x < 9 && y < 9 && !self@[index_of(x, y)].init && self@[index_of(
                x,
                y,
            )].assignment is Some,
    {
        proof {
            use_type_invariant(self);
            lemma_can_unassign(self@, x, y);
        }
        if self.is_valid_unassign_value(x, y) {
            let ghost g = self@;
            let mut ts: Vec<Tile> = Vec::new();
            let mut i: usize = 0;
            while i < self.tiles.len()
                invariant
                    i <= self.tiles.len(),
                    ts.len() == i,
                    forall|k: int| 0 <= k < i ==> (#[trigger] ts@[k])@ == self@[k].fresh(),
                decreases self.tiles.len() - i,
            {
                ts.push(Tile::new_with_eliminated(&self.tiles[i]));
                i += 1;
            }
            proof {
                lemma_replay_start(g, x, y);
                lemma_replayed_wf(g, x, y, 0);
                assert(grid_of(ts@) =~= grid_fresh(g));
            }
            let mut b = Board { tiles: ts };
            let mut i: usize = 0;
            while i < self.tiles.len()
                invariant
                    i <= self.tiles.len(),
                    self.tiles.len() == 81,
                    g == self@,
                    grid_wf(g),
                    b@ == grid_replayed(g, x, y, i as int),
                decreases self.tiles.len() - i,
            {
                let t = &self.tiles[i];
                proof {
                    lemma_replay_step(g, x, y, i as int);
                }
                if !(t.x == x && t.y == y) {
                    if let Some(v) = t.assignment {
                        b = b.assign_value(t.x, t.y, v, t.is_init()).unwrap();
                    }
                }
                i += 1;
            }
            proof {
                lemma_replay_end(g, x, y);
            }
            Some(b)
        } else {
            None
        }
    }

    /// Whether no tile objects to `v` being crossed out at `(x, y)`.
    pub fn is_valid_cross_out_value(&self, x: u8, y: u8, v: u8) -> (r: bool)
        ensures
            r == grid_can_cross_out(self@, x, y, v),
    {
        let mut i: usize = 0;
        while i < self.tiles.len()
            invariant
                i <= self.tiles.len(),
                forall|k: int| 0 <= k < i ==> (#[trigger] self@[k]).can_cross_out(x, y, v),
            decreases self.tiles.len() - i,
        {
            if !self.tiles[i].is_valid_cross_out_value(x, y, v) {
                assert(!self@[i as int].can_cross_out(x, y, v));
                return false;
            }
            i += 1;
        }
        true
    }

    /// Crosses `v` out at `(x, y)`. The move is accepted if the coordinates
    /// and the value are in range, the cell is empty, and `v` is still open
    /// there: a candidate that is not crossed out yet. Only the tile at
    /// `(x, y)` changes.
    pub fn cross_out_value(&self, x: u8, y: u8, v: u8) -> (r: Option<Board>)
        ensures
            result_view(r) == grid_try_cross_out(self@, x, y, v),
            r is Some <==> in_range(x, y, v) && self@[index_of(x, y)].assignment is None
                && self@[index_of(x, y)].is_live(v),
    {
        proof {
            use_type_invariant(self);
            lemma_can_cross_out(self@, x, y, v);
        }
        if self.is_valid_cross_out_value(x, y, v) {
            let mut ts: Vec<Tile> = Vec::new();
            let mut i: usize = 0;
            while i < self.tiles.len()
                invariant
                    i <= self.tiles.len(),
                    ts.len() == i,
                    grid_can_cross_out(self@, x, y, v),
                    forall|k: int|
                        0 <= k < i ==> (#[trigger] ts@[k])@ == self@[k].cross_out(x, y, v),
                decreases self.tiles.len() - i,
            {
                assert(self@[i as int].can_cross_out(x, y, v));
                let new_t = self.tiles[i].cross_out_value(x, y, v);
                ts.push(new_t);
                i += 1;
            }
            proof {
                lemma_cross_out_wf(self@, x, y, v);
                assert(grid_of(ts@) =~= grid_cross_out(self@, x, y, v));
            }
            Some(Board { tiles: ts })
        } else {
            None
        }
    }

    /// The tile at `(x, y)`, if there is such a cell.
    pub fn get(&self, x: u8, y: u8) -> (r: Option<&Tile>)
        ensures
            r is Some <==> x < 9 && y < 9,
            r matches Some(t) ==> t@ == self@[index_of(x, y)] && t.x == x && t.y == y,
    {
        proof {
            use_type_invariant(self);
        }
        if x < 9 && y < 9 {
            let i: usize = y as usize * 9 + x as usize;
            proof {
                lemma_place(self@, x, y);
            }
            Some(&self.tiles[i])
        } else {
            None
        }
    }

    /// Whether `value` is forced at the place of `tile`: it is the one
    /// value still open in `tile` (a naked single), or no other tile of the
    /// row, of the column or of the block of `tile` can still take it (a
    /// hidden single).
    pub fn is_unique(&self, tile: &Tile, value: u8) -> (r: bool)
        ensures
            r == grid_is_unique(self@, tile@, value),
    {
        tile.is_remaining_candidate(value) || self.is_unique_in_row(tile.x, tile.y, value)
            || self.is_unique_in_col(tile.x, tile.y, value) || self.is_unique_in_block(
            tile.x,
            tile.y,
            value,
        )
    }

    /// Whether no tile of row `y` but the one at `(x, y)` can still take `value`.
    pub fn is_unique_in_row(&self, x: u8, y: u8, value: u8) -> (r: bool)
        ensures
            r == unique_in_row(self@, x, y, value),
    {
        let mut i: usize = 0;
        while i < self.tiles.len()
            invariant
                i <= self.tiles.len(),
                forall|k: int|
                    0 <= k < i && (#[trigger] self@[k]).y == y && self@[k].x != x
                        ==> !self@[k].is_live(value),
            decreases self.tiles.len() - i,
        {
            let t = &self.tiles[i];
            if t.y == y && t.x != x && t.is_live(value) {
                assert(self@[i as int].is_live(value));
                return false;
            }
            i += 1;
        }
        true
    }

    /// Whether no tile of column `x` but the one at `(x, y)` can still take `value`.
    pub fn is_unique_in_col(&self, x: u8, y: u8, value: u8) -> (r: bool)
        ensures
            r == unique_in_col(self@, x, y, value),
    {
        let mut i: usize = 0;
        while i < self.tiles.len()
            invariant
                i <= self.tiles.len(),
                forall|k: int|
                    0 <= k < i && (#[trigger] self@[k]).x == x && self@[k].y != y
                        ==> !self@[k].is_live(value),
            decreases self.tiles.len() - i,
        {
            let t = &self.tiles[i];
            if t.x == x && t.y != y && t.is_live(value) {
                assert(self@[i as int].is_live(value));
                return false;
            }
            i += 1;
        }
        true
    }

    /// Whether no tile of the block of `(x, y)` but the one at `(x, y)` can
    /// still take `value`.
    pub fn is_unique_in_block(&self, x: u8, y: u8, value: u8) -> (r: bool)
        ensures
            r == unique_in_block(self@, x, y, value),
    {
        let mut i: usize = 0;
        while i < self.tiles.len()
            invariant
                i <= self.tiles.len(),
                forall|k: int|
                    0 <= k < i && !(#[trigger] self@[k]).at(x, y) && self@[k].is_in_same_block(
                        x,
                        y,
                    ) ==> !self@[k].is_live(value),
            decreases self.tiles.len() - i,
        {
            let t = &self.tiles[i];
            if !(t.x == x && t.y == y) && t.is_in_same_block(x, y) && t.is_live(value) {
                assert(self@[i as int].is_live(value));
                return false;
            }
            i += 1;
        }
        true
    }

    /// The value that the scan picks for the tile at place `i`: none for a
    /// tile that holds a value, else its first candidate that is not
    /// crossed out and is forced there.
    fn forced_choice(&self, i: usize) -> (r: Option<u8>)
        requires
            i < 81,
        ensures
            r == forced_value(self@, i as int),
    {
        proof {
            use_type_invariant(self);
        }
        let t = &self.tiles[i];
        if t.assignment.is_some() {
            return None;
        }
        let ghost p = is_forced(self@, i as int);
        let mut j: usize = 0;
        while j < t.candidates.len()
            invariant
                j <= t.candidates.len(),
                i < self@.len(),
                t@ == self@[i as int],
                t.assignment is None,
                p == is_forced(self@, i as int),
                first_from(t.candidates@, p, 0) == first_from(t.candidates@, p, j as int),
            decreases t.candidates.len() - j,
        {
            let v = t.candidates[j];
            if !contains(&t.eliminated, v) && self.is_unique(t, v) {
                return Some(v);
            }
            j += 1;
        }
        None
    }

    /// Fills in every forced value. Each empty tile is asked, in row-major
    /// order, for its first candidate that is not crossed out and is forced
    /// there, all on the board as it stands; the values found are then
    /// assigned one after the other as values of the player's. Nothing
    /// comes back if no tile has a forced value. The result is a function
    /// of the board alone.
    pub fn autofill(&self) -> (r: Option<Board>)
        ensures
            result_view(r) == grid_autofill(self@),
            r matches Some(b) ==> forall|i: int|
                0 <= i < 81 && (#[trigger] b@[i]).assignment != self@[i].assignment ==> {
                    &&& self@[i].assignment is None
                    &&& b@[i].assignment matches Some(v) && self@[i].is_live(v) && grid_is_unique(
                        self@,
                        self@[i],
                        v,
                    )
                },
    {
        proof {
            use_type_invariant(self);
        }
        let ghost g = self@;
        let mut unique_list: Vec<(u8, u8, u8)> = Vec::new();
        let mut i: usize = 0;
        while i < self.tiles.len()
            invariant
                i <= self.tiles.len(),
                self.tiles.len() == 81,
                g == self@,
                unique_list@ == forced_moves(g, i as int),
            decreases self.tiles.len() - i,
        {
            if let Some(v) = self.forced_choice(i) {
                let t = &self.tiles[i];
                unique_list.push((t.x, t.y, v));
            }
            i += 1;
        }
        proof {
            lemma_forced_moves_len(g, 81);
            lemma_assign_all_forced(g, 81);
            lemma_filled_only_forced(g);
        }
        let mut board: Option<Board> = None;
        let mut k: usize = 0;
        while k < unique_list.len()
            invariant
                k <= unique_list.len(),
                g == self@,
                board is None <==> k == 0,
                grid_assign_all(g, unique_list@) is Some,
                grid_assign_all(g, unique_list@.take(k as int)) == Some(
                    match board {
                        Some(b) => b@,
                        None => g,
                    },
                ),
            decreases unique_list.len() - k,
        {
            let (x, y, v) = unique_list[k];
            proof {
                let moves = unique_list@.take(k + 1);
                assert(moves.drop_last() =~= unique_list@.take(k as int));
            }
            let next = match &board {
                Some(b) => b.assign_value(x, y, v, false),
                None => self.assign_value(x, y, v, false),
            };
            match next {
                Some(b) => {
                    board = Some(b);
                },
                None => {
                    proof {
                        lemma_assign_all_refused(g, unique_list@, k + 1);
                    }
                    return None;
                },
            }
            k += 1;
        }
        proof {
            assert(unique_list@.take(k as int) =~= unique_list@);
        }
        board
    }
}

} // verus!
