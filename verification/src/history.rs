//! The undo/redo history: a row of board snapshots and a position in it.

use vstd::prelude::*;
use crate::action::SudokuAction;
use crate::board::{Board, result_view};
use crate::grid::{Grid, blank_grid, grid_wf, grid_try_assign, grid_try_unassign,
    grid_try_cross_out};
use crate::singles::grid_autofill;

verus! {

/// A history as a mathematical value.
pub struct HistoryView {
    /// The snapshots, the oldest first.
    pub snapshots: Seq<Grid>,
    /// The place of the current snapshot.
    pub index: int,
}

impl HistoryView {
    /// The history that holds `g` and nothing else.
    pub open spec fn single(g: Grid) -> HistoryView {
        HistoryView { snapshots: seq![g], index: 0 }
    }

    /// Whether the position names a snapshot, and every snapshot obeys the
    /// invariant of a grid.
    pub open spec fn wf(self) -> bool {
        &&& 0 <= self.index < self.snapshots.len()
        &&& forall|i: int| 0 <= i < self.snapshots.len() ==> grid_wf(#[trigger] self.snapshots[i])
    }

    /// The snapshot that the position names.
    pub open spec fn current(self) -> Grid {
        self.snapshots[self.index]
    }

    /// The history after a move came back with `result`: unchanged if the
    /// move was refused; else every snapshot after the current one is
    /// dropped, the new grid is appended and becomes the current one.
    pub open spec fn apply(self, result: Option<Grid>) -> HistoryView {
        match result {
            Some(g) => HistoryView {
                snapshots: self.snapshots.take(self.index + 1).push(g),
                index: self.index + 1,
            },
            None => self,
        }
    }

    /// One step back, if there is one.
    pub open spec fn undo(self) -> HistoryView {
        HistoryView {
            snapshots: self.snapshots,
            index: if self.index > 0 {
                self.index - 1
            } else {
                self.index
            },
        }
    }

    /// One step forward, if there is one.
    pub open spec fn redo(self) -> HistoryView {
        HistoryView {
            snapshots: self.snapshots,
            index: if self.index + 1 < self.snapshots.len() {
                self.index + 1
            } else {
                self.index
            },
        }
    }

    /// The history after `action`. `puzzle` is the grid that was read
    /// for an action that starts over from a file, if reading succeeded.
    pub open spec fn step(self, action: SudokuAction, puzzle: Option<Grid>) -> HistoryView {
        match action {
            SudokuAction::NoOp => self,
            SudokuAction::Quit => self,
            SudokuAction::New(Some(_)) => match puzzle {
                Some(g) => HistoryView::single(g),
                None => self,
            },
            SudokuAction::New(None) => HistoryView::single(blank_grid()),
            SudokuAction::Undo => self.undo(),
            SudokuAction::Redo => self.redo(),
            SudokuAction::AssignValue(x, y, v) => self.apply(
                grid_try_assign(self.current(), x, y, v, false),
            ),
            SudokuAction::UnassignValue(x, y) => self.apply(
                grid_try_unassign(self.current(), x, y),
            ),
            SudokuAction::CrossOutValue(x, y, v) => self.apply(
                grid_try_cross_out(self.current(), x, y, v),
            ),
            SudokuAction::AutoFill => self.apply(grid_autofill(self.current())),
        }
    }
}

/// A row of board snapshots, never empty, and the place of the current one.
pub struct History {
    boards: Vec<Board>,
    index: usize,
}

impl View for History {
    type V = HistoryView;

    closed spec fn view(&self) -> HistoryView {
        HistoryView {
            snapshots: Seq::new(self.boards@.len(), |i: int| self.boards@[i]@),
            index: self.index as int,
        }
    }
}

impl History {
    /// The invariant of a history: the position names a snapshot, and
    /// every snapshot obeys the invariant of a grid.
    pub open spec fn wf(&self) -> bool {
        self@.wf()
    }

    /// The history that holds `board` and nothing else.
    pub fn new(board: Board) -> (h: History)
        ensures
            h.wf(),
            h@ == HistoryView::single(board@),
    {
        proof {
            use_type_invariant(&board);
        }
        let mut boards: Vec<Board> = Vec::new();
        boards.push(board);
        let h = History { boards, index: 0 };
        assert(h@.snapshots =~= seq![board@]);
        h
    }

    /// The number of snapshots.
    pub fn len(&self) -> (n: usize)
        requires
            self.wf(),
        ensures
            n == self@.snapshots.len(),
            n > 0,
    {
        self.boards.len()
    }

    /// The place of the current snapshot.
    pub fn index(&self) -> (i: usize)
        requires
            self.wf(),
        ensures
            i == self@.index,
            i < self@.snapshots.len(),
    {
        self.index
    }

    /// The current snapshot.
    pub fn current(&self) -> (b: &Board)
        requires
            self.wf(),
        ensures
            b@ == self@.current(),
    {
        &self.boards[self.index]
    }

    /// Takes note of the result of a move on the current snapshot. A
    /// refused move changes nothing. An accepted one drops every snapshot
    /// after the current one, appends the new board and makes it current.
    pub fn apply(&mut self, result: Option<Board>)
        requires
            old(self).wf(),
        ensures
            final(self).wf(),
            final(self)@ == old(self)@.apply(result_view(result)),
            result is None ==> final(self)@ == old(self)@,
            result is Some ==> final(self)@.snapshots.len() == old(self)@.index + 2
                && final(self)@.index == final(self)@.snapshots.len() - 1,
    {
        assert(self.index < self.boards.len());
        if let Some(board) = result {
            proof {
                use_type_invariant(&board);
            }
            let ghost before = self@;
            self.boards.truncate(self.index + 1);
            self.boards.push(board);
            self.index = self.index + 1;
            assert(self@.snapshots =~= before.snapshots.take(before.index + 1).push(board@));
        }
    }

    /// Goes back one snapshot, if there is an earlier one. No snapshot is
    /// dropped.
    pub fn undo(&mut self)
        requires
            old(self).wf(),
        ensures
            final(self).wf(),
            final(self)@ == old(self)@.undo(),
            final(self)@.snapshots == old(self)@.snapshots,
    {
        if self.index > 0 {
            self.index = self.index - 1;
        }
    }

    /// Goes forward one snapshot, if there is a later one. No snapshot is
    /// dropped.
    pub fn redo(&mut self)
        requires
            old(self).wf(),
        ensures
            final(self).wf(),
            final(self)@ == old(self)@.redo(),
            final(self)@.snapshots == old(self)@.snapshots,
    {
        assert(self.index < self.boards.len());
        if self.index + 1 < self.boards.len() {
            self.index = self.index + 1;
        }
    }

    /// Starts over: `board` becomes the only snapshot.
    pub fn load(&mut self, board: Board)
        ensures
            final(self).wf(),
            final(self)@ == HistoryView::single(board@),
    {
        proof {
            use_type_invariant(&board);
        }
        self.index = 0;
        self.boards.truncate(0);
        self.boards.push(board);
        assert(self@.snapshots =~= seq![board@]);
    }

    /// Carries out `action` and says whether the player asked to leave.
    /// `puzzle` is the board that was read for an action that starts over
    /// from a file; where reading failed, such an action changes nothing.
    pub fn step(&mut self, action: &SudokuAction, puzzle: Option<Board>) -> (quit: bool)
        requires
            old(self).wf(),
        ensures
            final(self).wf(),
            final(self)@ == old(self)@.step(*action, result_view(puzzle)),
            quit == (*action is Quit),
    {
        match action {
            SudokuAction::NoOp => false,
            SudokuAction::Quit => true,
            SudokuAction::New(Some(_)) => {
                if let Some(board) = puzzle {
                    self.load(board);
                }
                false
            },
            SudokuAction::New(None) => {
                self.load(Board::new());
                false
            },
            SudokuAction::Undo => {
                self.undo();
                false
            },
            SudokuAction::Redo => {
                self.redo();
                false
            },
            SudokuAction::AssignValue(x, y, v) => {
                let r = self.current().assign_value(*x, *y, *v, false);
                self.apply(r);
                false
            },
            SudokuAction::UnassignValue(x, y) => {
                let r = self.current().unassign_value(*x, *y);
                self.apply(r);
                false
            },
            SudokuAction::CrossOutValue(x, y, v) => {
                let r = self.current().cross_out_value(*x, *y, *v);
                self.apply(r);
                false
            },
            SudokuAction::AutoFill => {
                let r = self.current().autofill();
                self.apply(r);
                false
            },
        }
    }
}

} // verus!
