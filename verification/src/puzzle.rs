//! Puzzle text: 81 cells, row by row, with optional layout characters
//! between them.

use vstd::prelude::*;
use crate::board::Board;
use crate::tile::TileView;
use crate::values::digits;
use crate::grid::{Grid, blank_grid, grid_frame, cell_frame, grid_can_assign,
    grid_assign, grid_rederived, grid_marked_at, lemma_unassigned_all_open,
    lemma_assign_next};

verus! {

/// Whether `c` stands for an empty cell: `0` or `.`.
pub open spec fn is_empty_cell(c: u8) -> bool {
    c == 0x30 || c == 0x2e
}

/// Whether `c` stands for a clue: one of `1` to `9`.
pub open spec fn is_clue_cell(c: u8) -> bool {
    0x31 <= c <= 0x39
}

/// Whether `c` is skipped: `|`, `-`, a space, a newline or a tab.
pub open spec fn is_layout(c: u8) -> bool {
    c == 0x7c || c == 0x2d || c == 0x20 || c == 0x0a || c == 0x09
}

/// The 81 cells of a puzzle, read from place `pos` of `text` on after
/// `cells`: 0 for an empty cell, else the clue. Reading stops with the 81st
/// cell; it fails at a character that is neither a cell nor layout, and
/// where the text ends early.
pub open spec fn scan_cells(text: Seq<u8>, pos: int, cells: Seq<u8>) -> Option<Seq<u8>>
    decreases text.len() - pos,
{
    if cells.len() >= 81 {
        Some(cells)
    } else if pos < 0 || pos >= text.len() {
        None
    } else if is_empty_cell(text[pos]) {
        scan_cells(text, pos + 1, cells.push(0))
    } else if is_clue_cell(text[pos]) {
        scan_cells(text, pos + 1, cells.push((text[pos] - 0x30) as u8))
    } else if is_layout(text[pos]) {
        scan_cells(text, pos + 1, cells)
    } else {
        None
    }
}

/// The 81 cells of the puzzle that `text` holds, if it holds one.
pub open spec fn puzzle_cells(text: Seq<u8>) -> Option<Seq<u8>> {
    scan_cells(text, 0, Seq::empty())
}

/// The blank grid with the clues among `cells` written into their tiles,
/// the candidate lists not narrowed yet.
pub open spec fn clue_marks(cells: Seq<u8>) -> Grid {
    Seq::new(
        81,
        |i: int|
            if i < cells.len() && cells[i] != 0 {
                TileView {
                    x: (i % 9) as u8,
                    y: (i / 9) as u8,
                    init: true,
                    assignment: Some(cells[i]),
                    candidates: digits(),
                    eliminated: Seq::empty(),
                }
            } else {
                TileView::blank((i % 9) as u8, (i / 9) as u8)
            },
    )
}

/// The grid of a puzzle: each clue among `cells` sits in its tile, nothing
/// is crossed out, and every tile has the candidates that the clues leave.
pub open spec fn clue_grid(cells: Seq<u8>) -> Grid {
    grid_rederived(clue_marks(cells))
}

/// The clues written into the blank grid leave its tiles in place.
pub proof fn lemma_clue_marks_frame(cells: Seq<u8>)
    requires
        forall|k: int| 0 <= k < cells.len() ==> #[trigger] cells[k] <= 9,
    ensures
        grid_frame(clue_marks(cells)),
{
    assert forall|i: int| 0 <= i < 81 implies #[trigger] cell_frame(clue_marks(cells), i) by {
        if i < cells.len() {
            assert(cells[i] <= 9);
        }
    }
}

/// The grid of the puzzle without a cell is the blank grid.
pub proof fn lemma_clue_grid_blank()
    ensures
        clue_grid(Seq::empty()) == blank_grid(),
{
    let cells = Seq::<u8>::empty();
    assert forall|i: int| 0 <= i < 81 implies clue_grid(cells)[i] == blank_grid()[i] by {
        lemma_unassigned_all_open(clue_marks(cells), i);
    }
    assert(clue_grid(cells) =~= blank_grid());
}

/// A clue for the next cell is accepted, and leads from the grid of the
/// cells so far to the grid of the cells with that clue.
pub proof fn lemma_clue_next(cells: Seq<u8>, v: u8)
    requires
        cells.len() < 81,
        1 <= v <= 9,
        forall|k: int| 0 <= k < cells.len() ==> #[trigger] cells[k] <= 9,
    ensures
        ({
            let x = (cells.len() % 9) as u8;
            let y = (cells.len() / 9) as u8;
            &&& grid_can_assign(clue_grid(cells), x, y, v)
            &&& grid_assign(clue_grid(cells), x, y, v, true) == clue_grid(cells.push(v))
        }),
{
    let marks = clue_marks(cells);
    let n = cells.len() as int;
    lemma_clue_marks_frame(cells);
    lemma_assign_next(marks, n, v, true);
    assert(grid_marked_at(marks, n, v, true) =~= clue_marks(cells.push(v)));
}

/// Reads a puzzle. `0` and `.` stand for an empty cell, `1` to `9` for a
/// clue; `|`, `-`, spaces, newlines and tabs are skipped. The cells fill
/// the grid row by row from the top, each row from the left. Reading ends
/// with the 81st cell, whatever follows it. Nothing comes back where
/// another character stands before that, or where the text ends early.
/// Clues that contradict each other are taken as they stand: each cell is
/// written once, so no clue is refused.
pub fn parse_puzzle(text: &[u8]) -> (r: Option<Board>)
    ensures
        r is Some <==> puzzle_cells(text@) is Some,
        r matches Some(b) ==> b@ == clue_grid(puzzle_cells(text@).unwrap()),
{
    let mut board = Board::new();
    let mut x: u8 = 0;
    let mut y: u8 = 0;
    let mut pos: usize = 0;
    let ghost mut cells: Seq<u8> = Seq::empty();
    proof {
        lemma_clue_grid_blank();
    }
    while pos < text.len()
        invariant
            pos <= text.len(),
            x < 9,
            y < 9,
            cells.len() == y * 9 + x,
            forall|k: int| 0 <= k < cells.len() ==> #[trigger] cells[k] <= 9,
            board@ == clue_grid(cells),
            scan_cells(text@, pos as int, cells) == puzzle_cells(text@),
        decreases text.len() - pos,
    {
        let c = text[pos];
        let mut next_col = false;
        if c == 0x30 || c == 0x2e {
            proof {
                assert(clue_marks(cells.push(0)) =~= clue_marks(cells));
                cells = cells.push(0);
            }
            next_col = true;
        } else if 0x31 <= c && c <= 0x39 {
            let v: u8 = c - 0x30;
            proof {
                lemma_clue_next(cells, v);
            }
            match board.assign_value(x, y, v, true) {
                Some(new_board) => {
                    proof {
                        cells = cells.push(v);
                    }
                    board = new_board;
                    next_col = true;
                },
                None => {
                    return None;
                },
            }
        } else if c == 0x7c || c == 0x2d || c == 0x20 || c == 0x0a || c == 0x09 {
        } else {
            return None;
        }
        if next_col {
            x = x + 1;
            if x >= 9 {
                x = 0;
                y = y + 1;
                if y >= 9 {
                    assert(scan_cells(text@, pos + 1, cells) == Some(cells));
                    return Some(board);
                }
            }
        }
        pos += 1;
    }
    None
}

} // verus!
