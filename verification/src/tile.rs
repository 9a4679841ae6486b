//! One cell of the grid.

use vstd::prelude::*;
use crate::values::{digits, without, contains, remove_value, copy_values};

verus! {

/// One of the 81 positions of the grid.
pub struct Tile {
    /// The column, counted from the left.
    pub x: u8,
    /// The row, counted from the top.
    pub y: u8,
    /// Whether the value was given with the puzzle.
    pub init: bool,
    /// The value committed to this cell, if any.
    pub assignment: Option<u8>,
    /// The values still open here: those that no assignment around an
    /// empty tile has ruled out; the value of a tile that holds one, until
    /// a tile that sees it is given the same value.
    pub candidates: Vec<u8>,
    /// The values that the player has crossed out.
    pub eliminated: Vec<u8>,
}

/// A tile as a mathematical value.
pub struct TileView {
    pub x: u8,
    pub y: u8,
    pub init: bool,
    pub assignment: Option<u8>,
    pub candidates: Seq<u8>,
    pub eliminated: Seq<u8>,
}

/// Whether `(x, y)` names a cell of the grid and `value` is a cell value.
pub open spec fn in_range(x: u8, y: u8, value: u8) -> bool {
    x < 9 && y < 9 && 1 <= value <= 9
}

impl TileView {
    /// The unassigned tile at `(x, y)` with every value open.
    pub open spec fn blank(x: u8, y: u8) -> TileView {
        TileView {
            x,
            y,
            init: false,
            assignment: None,
            candidates: digits(),
            eliminated: Seq::empty(),
        }
    }

    /// Whether this is the tile at `(x, y)`.
    pub open spec fn at(self, x: u8, y: u8) -> bool {
        self.x == x && self.y == y
    }

    /// Whether `(x, y)` lies in the 3x3 block of this tile.
    pub open spec fn is_in_same_block(self, x: u8, y: u8) -> bool {
        self.x / 3 == x / 3 && self.y / 3 == y / 3
    }

    /// Whether `(x, y)` lies in the row, the column or the block of this tile.
    pub open spec fn sees(self, x: u8, y: u8) -> bool {
        self.x == x || self.y == y || self.is_in_same_block(x, y)
    }

    /// Whether this tile has no objection to `value` being assigned at `(x, y)`.
    pub open spec fn can_assign(self, x: u8, y: u8, value: u8) -> bool {
        in_range(x, y, value) && (!self.at(x, y) || self.assignment is None)
    }

    /// This tile after `value` was assigned at `(x, y)`: the target takes the
    /// value and has it as its one candidate, a tile that sees the target
    /// loses the value as a candidate, any other tile stays as it is.
    pub open spec fn assign(self, x: u8, y: u8, value: u8, init: bool) -> TileView {
        if self.at(x, y) {
            TileView {
                x: self.x,
                y: self.y,
                init,
                assignment: Some(value),
                candidates: seq![value],
                eliminated: self.eliminated,
            }
        } else if self.sees(x, y) {
            TileView {
                x: self.x,
                y: self.y,
                init: self.init,
                assignment: self.assignment,
                candidates: without(self.candidates, value),
                eliminated: self.eliminated,
            }
        } else {
            self
        }
    }

    /// Whether this tile has no objection to the cell at `(x, y)` being cleared.
    pub open spec fn can_unassign(self, x: u8, y: u8) -> bool {
        x < 9 && y < 9 && (!self.at(x, y) || (!self.init && self.assignment is Some))
    }

    /// This tile with its assignment and all narrowing forgotten, the
    /// crossed-out values kept.
    pub open spec fn fresh(self) -> TileView {
        TileView {
            x: self.x,
            y: self.y,
            init: false,
            assignment: None,
            candidates: digits(),
            eliminated: self.eliminated,
        }
    }

    /// Whether `value` is still open here: a candidate that is not crossed out.
    pub open spec fn is_live(self, value: u8) -> bool {
        self.candidates.contains(value) && !self.eliminated.contains(value)
    }

    /// Whether this tile has no objection to `value` being crossed out at `(x, y)`.
    pub open spec fn can_cross_out(self, x: u8, y: u8, value: u8) -> bool {
        in_range(x, y, value) && (!self.at(x, y) || (!self.init && self.assignment is None
            && self.is_live(value)))
    }

    /// This tile after `value` was crossed out at `(x, y)`.
    pub open spec fn cross_out(self, x: u8, y: u8, value: u8) -> TileView {
        if self.at(x, y) {
            TileView {
                x: self.x,
                y: self.y,
                init: self.init,
                assignment: self.assignment,
                candidates: self.candidates,
                eliminated: self.eliminated.push(value),
            }
        } else {
            self
        }
    }

    /// Whether the tile holds a value that is still among its candidates.
    pub open spec fn is_guess(self) -> bool {
        match self.assignment {
            Some(value) => self.candidates.contains(value),
            None => false,
        }
    }

    /// Whether `value` is the one value still open here.
    pub open spec fn is_forced_single(self, value: u8) -> bool {
        self.is_live(value) && forall|w: u8| self.is_live(w) ==> w == value
    }
}

impl View for Tile {
    type V = TileView;

    open spec fn view(&self) -> TileView {
        TileView {
            x: self.x,
            y: self.y,
            init: self.init,
            assignment: self.assignment,
            candidates: self.candidates@,
            eliminated: self.eliminated@,
        }
    }
}

impl Tile {
    /// The unassigned tile at `(x, y)` with every value open.
    pub fn new(x: u8, y: u8) -> (t: Tile)
        ensures
            t@ == TileView::blank(x, y),
    {
        let candidates: Vec<u8> = vec![1, 2, 3, 4, 5, 6, 7, 8, 9];
        let eliminated: Vec<u8> = Vec::new();
        Tile { x, y, init: false, assignment: None, candidates, eliminated }
    }

    /// A tile at the place of `tile` with its assignment and all narrowing
    /// forgotten, the crossed-out values kept.
    pub fn new_with_eliminated(tile: &Tile) -> (t: Tile)
        ensures
            t@ == tile@.fresh(),
    {
        let candidates: Vec<u8> = vec![1, 2, 3, 4, 5, 6, 7, 8, 9];
        Tile {
            x: tile.x,
            y: tile.y,
            init: false,
            assignment: None,
            candidates,
            eliminated: copy_values(&tile.eliminated),
        }
    }

    /// Whether `(x, y)` lies in the 3x3 block of this tile.
    pub fn is_in_same_block(&self, x: u8, y: u8) -> (r: bool)
        ensures
            r == self@.is_in_same_block(x, y),
    {
        self.x / 3 == x / 3 && self.y / 3 == y / 3
    }

    /// Whether this tile has no objection to `value` being assigned at
    /// `(x, y)`. Coordinates or a value out of range are objected to by
    /// every tile.
    pub fn is_valid_assign_value(&self, x: u8, y: u8, value: u8) -> (r: bool)
        ensures
            r == self@.can_assign(x, y, value),
            !in_range(x, y, value) ==> !r,
    {
        x < 9 && y < 9 && (1 <= value && value <= 9) && (self.x != x || self.y != y
            || self.assignment.is_none())
    }

    /// This tile after `value` was assigned at `(x, y)`.
    pub fn assign_value(&self, x: u8, y: u8, value: u8, init: bool) -> (t: Tile)
        requires
            in_range(x, y, value),
            self@.at(x, y) ==> self.assignment is None,
        ensures
            t@ == self@.assign(x, y, value, init),
    {
        if self.x == x && self.y == y {
            let candidates: Vec<u8> = vec![value];
            assert(candidates@ =~= seq![value]);
            Tile {
                x: self.x,
                y: self.y,
                init,
                assignment: Some(value),
                candidates,
                eliminated: copy_values(&self.eliminated),
            }
        } else if self.x == x || self.y == y || self.is_in_same_block(x, y) {
            Tile {
                x: self.x,
                y: self.y,
                init: self.init,
                assignment: self.assignment,
                candidates: remove_value(&self.candidates, value),
                eliminated: copy_values(&self.eliminated),
            }
        } else {
            Tile {
                x: self.x,
                y: self.y,
                init: self.init,
                assignment: self.assignment,
                candidates: copy_values(&self.candidates),
                eliminated: copy_values(&self.eliminated),
            }
        }
    }

    /// Whether this tile has no objection to the cell at `(x, y)` being
    /// cleared: the target objects if it is a clue or holds no value.
    pub fn is_valid_unassign_value(&self, x: u8, y: u8) -> (r: bool)
        ensures
            r == self@.can_unassign(x, y),
            !(x < 9 && y < 9) ==> !r,
    {
        x < 9 && y < 9 && (self.x != x || self.y != y || (!self.init
            && self.assignment.is_some()))
    }

    /// Whether this tile has no objection to `value` being crossed out at
    /// `(x, y)`: the target objects if it is a clue, holds a value, or if
    /// `value` is no longer open there.
    pub fn is_valid_cross_out_value(&self, x: u8, y: u8, value: u8) -> (r: bool)
        ensures
            r == self@.can_cross_out(x, y, value),
            !in_range(x, y, value) ==> !r,
    {
        x < 9 && y < 9 && (1 <= value && value <= 9) && (self.x != x || self.y != y || (
        !self.init && self.assignment.is_none() && contains(&self.candidates, value)
            && !contains(&self.eliminated, value)))
    }

    /// This tile after `value` was crossed out at `(x, y)`.
    pub fn cross_out_value(&self, x: u8, y: u8, value: u8) -> (t: Tile)
        requires
            in_range(x, y, value),
            self@.at(x, y) ==> self.assignment != Some(value),
        ensures
            t@ == self@.cross_out(x, y, value),
    {
        let mut eliminated = copy_values(&self.eliminated);
        if self.x == x && self.y == y {
            eliminated.push(value);
        }
        Tile {
            x: self.x,
            y: self.y,
            init: self.init,
            assignment: self.assignment,
            candidates: copy_values(&self.candidates),
            eliminated,
        }
    }

    /// Whether the value was given with the puzzle.
    pub fn is_init(&self) -> (r: bool)
        ensures
            r == self.init,
    {
        self.init
    }

    /// Whether the tile holds a value that is still among its candidates.
    pub fn is_guess(&self) -> (r: bool)
        ensures
            r == self@.is_guess(),
    {
        match self.assignment {
            Some(value) => contains(&self.candidates, value),
            None => false,
        }
    }

    /// Whether the player has crossed `value` out here.
    pub fn is_crossed_out(&self, value: u8) -> (r: bool)
        ensures
            r == self@.eliminated.contains(value),
    {
        contains(&self.eliminated, value)
    }

    /// Whether `value` is still open here: a candidate that is not crossed out.
    pub fn is_live(&self, value: u8) -> (r: bool)
        ensures
            r == self@.is_live(value),
    {
        contains(&self.candidates, value) && !contains(&self.eliminated, value)
    }

    /// Whether `value` is the one value still open here.
    pub fn is_remaining_candidate(&self, value: u8) -> (r: bool)
        ensures
            r == self@.is_forced_single(value),
    {
        let mut found = false;
        let mut i: usize = 0;
        while i < self.candidates.len()
            invariant
                i <= self.candidates.len(),
                found ==> self@.is_live(value),
                !found ==> forall|j: int|
                    0 <= j < i ==> !self@.is_live(#[trigger] self.candidates@[j]),
                forall|j: int|
                    0 <= j < i && self@.is_live(#[trigger] self.candidates@[j])
                        ==> self.candidates@[j] == value,
            decreases self.candidates.len() - i,
        {
            let v = self.candidates[i];
            if !contains(&self.eliminated, v) {
                if v == value {
                    found = true;
                } else {
                    assert(self.candidates@[i as int] == v && self@.is_live(v));
                    return false;
                }
            }
            i += 1;
        }
        found
    }
}

} // verus!
