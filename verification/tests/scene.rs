use sudoku::board::Board;
use sudoku::gfx::{Rect, Res};
use sudoku::input::{Brush, GuiState, Widget, WidgetType};
use sudoku::layout::{calc_screen_size_and_scale, make_widgets};
use sudoku::scene::{
    draw_board_hline, draw_board_vline, draw_scene, draw_sprite, draw_tile, draw_widget, DrawOp,
    Paint,
};
use sudoku::tile::Tile;

fn rect(x: i32, y: i32, w: u32, h: u32) -> Rect {
    Rect { x, y, w, h }
}

fn selection(brush: Brush, value: u8) -> GuiState {
    GuiState { selected_brush: brush, selected_value: value }
}

#[test]
fn paints_have_their_colours() {
    assert_eq!(Paint::White.rgb(), (0xd0, 0xd0, 0xd0));
    assert_eq!(Paint::LightGrey.rgb(), (0x98, 0x98, 0x98));
    assert_eq!(Paint::DarkGrey.rgb(), (0x58, 0x58, 0x58));
    assert_eq!(Paint::Rose.rgb(), (0xc2, 0xbc, 0xbc));
}

#[test]
fn sprite_is_drawn_where_the_sheet_has_it() {
    let mut ops = vec![DrawOp::Clear];
    draw_sprite(&mut ops, Res::ToolbarUndo, rect(1, 2, 3, 4));
    assert_eq!(ops, vec![DrawOp::Clear, DrawOp::Sprite(rect(54, 0, 8, 9), rect(1, 2, 3, 4))]);
    draw_sprite(&mut ops, Res::TileGuess(0), rect(1, 2, 3, 4));
    assert_eq!(ops.len(), 2);
}

#[test]
fn empty_tile_is_drawn_as_pips() {
    let mut ops = Vec::new();
    draw_tile(&mut ops, 1, &Tile::new(0, 0), rect(38, 9, 15, 15));
    assert_eq!(ops.len(), 10);
    assert_eq!(ops[0], DrawOp::SetColor(Paint::DarkGrey));
    assert_eq!(ops[1], DrawOp::FillRect(rect(42, 19, 1, 1)));
    assert_eq!(ops[2], DrawOp::FillRect(rect(45, 19, 1, 1)));
    assert_eq!(ops[3], DrawOp::FillRect(rect(48, 19, 1, 1)));
    assert_eq!(ops[4], DrawOp::FillRect(rect(42, 16, 1, 1)));
    assert_eq!(ops[5], DrawOp::FillRect(rect(45, 16, 1, 1)));
    assert_eq!(ops[9], DrawOp::FillRect(rect(48, 13, 1, 1)));
}

#[test]
fn pips_show_the_open_values_only() {
    let t = Tile::new(2, 0)
        .assign_value(2, 8, 1, false)
        .cross_out_value(2, 0, 5)
        .assign_value(0, 0, 9, false);
    let mut ops = Vec::new();
    draw_tile(&mut ops, 2, &t, rect(153, 18, 30, 30));
    // open: 2, 3, 4, 6, 7, 8
    assert_eq!(ops.len(), 7);
    assert_eq!(ops[0], DrawOp::SetColor(Paint::DarkGrey));
    assert_eq!(ops[1], DrawOp::FillRect(rect(168, 39, 2, 2)));
    assert_eq!(ops[5], DrawOp::FillRect(rect(162, 27, 2, 2)));
    assert_eq!(ops[6], DrawOp::FillRect(rect(168, 27, 2, 2)));
}

#[test]
fn odd_tile_gets_a_backdrop() {
    let mut ops = Vec::new();
    draw_tile(&mut ops, 2, &Tile::new(1, 0), rect(191, 18, 30, 30));
    assert_eq!(ops.len(), 12);
    assert_eq!(ops[0], DrawOp::SetColor(Paint::Rose));
    assert_eq!(ops[1], DrawOp::FillRect(rect(189, 16, 34, 34)));
    assert_eq!(ops[2], DrawOp::SetColor(Paint::DarkGrey));
    let mut even = Vec::new();
    draw_tile(&mut even, 2, &Tile::new(1, 1), rect(191, 56, 30, 30));
    assert_eq!(even.len(), 10);
    assert_eq!(even[0], DrawOp::SetColor(Paint::DarkGrey));
}

#[test]
fn tile_with_a_value_is_drawn_as_clue_guess_or_conflict() {
    let dst = rect(38, 9, 15, 15);
    let clue = Tile::new(0, 0).assign_value(0, 0, 4, true);
    let mut ops = Vec::new();
    draw_tile(&mut ops, 1, &clue, dst);
    assert_eq!(ops, vec![DrawOp::Sprite(rect(45, 50, 15, 15), dst)]);
    let guess = Tile::new(0, 0).assign_value(0, 0, 4, false);
    let mut ops = Vec::new();
    draw_tile(&mut ops, 1, &guess, dst);
    assert_eq!(ops, vec![DrawOp::Sprite(rect(45, 65, 15, 15), dst)]);
    let conflict = guess.assign_value(0, 5, 4, false);
    let mut ops = Vec::new();
    draw_tile(&mut ops, 1, &conflict, dst);
    assert_eq!(ops, vec![DrawOp::Sprite(rect(45, 80, 15, 15), dst)]);
    // a value that was ruled out when it was assigned has itself as candidate
    let late = Tile::new(0, 0).assign_value(0, 5, 4, false).assign_value(0, 0, 4, false);
    let mut ops = Vec::new();
    draw_tile(&mut ops, 1, &late, dst);
    assert_eq!(ops, vec![DrawOp::Sprite(rect(45, 65, 15, 15), dst)]);
    // a clue stays a clue where it is contradicted
    let contradicted = clue.assign_value(0, 5, 4, false);
    let mut ops = Vec::new();
    draw_tile(&mut ops, 1, &contradicted, dst);
    assert_eq!(ops, vec![DrawOp::Sprite(rect(45, 50, 15, 15), dst)]);
}

#[test]
fn toolbar_widgets_show_the_selection() {
    let board = Board::new();
    let dst = rect(5, 6, 7, 8);
    let pencil = Widget {
        mode: WidgetType::ToolbarBrush(
            Brush::Pencil,
            Res::ToolbarActivePencil,
            Res::ToolbarInactivePencil,
        ),
        rect: dst,
    };
    let mut ops = Vec::new();
    draw_widget(&mut ops, 1, &pencil, &board, &selection(Brush::Pencil, 3));
    assert_eq!(ops, vec![DrawOp::Sprite(rect(0, 10, 53, 9), dst)]);
    let mut ops = Vec::new();
    draw_widget(&mut ops, 1, &pencil, &board, &selection(Brush::CrossOut, 3));
    assert_eq!(ops, vec![DrawOp::Sprite(rect(0, 20, 53, 9), dst)]);
    let three = Widget { mode: WidgetType::ToolbarNumber(3), rect: dst };
    let mut ops = Vec::new();
    draw_widget(&mut ops, 1, &three, &board, &selection(Brush::CrossOut, 3));
    assert_eq!(ops, vec![DrawOp::Sprite(rect(24, 30, 13, 9), dst)]);
    let mut ops = Vec::new();
    draw_widget(&mut ops, 1, &three, &board, &selection(Brush::CrossOut, 4));
    assert_eq!(ops, vec![DrawOp::Sprite(rect(24, 40, 13, 9), dst)]);
}

#[test]
fn plain_widgets_have_one_picture() {
    let board = Board::new();
    let state = selection(Brush::Pencil, 1);
    let dst = rect(5, 6, 7, 8);
    let mut ops = Vec::new();
    draw_widget(&mut ops, 1, &Widget { mode: WidgetType::Label, rect: dst }, &board, &state);
    draw_widget(&mut ops, 1, &Widget { mode: WidgetType::Undo, rect: dst }, &board, &state);
    draw_widget(&mut ops, 1, &Widget { mode: WidgetType::Redo, rect: dst }, &board, &state);
    assert_eq!(
        ops,
        vec![
            DrawOp::Sprite(rect(0, 0, 53, 9), dst),
            DrawOp::Sprite(rect(54, 0, 8, 9), dst),
            DrawOp::Sprite(rect(64, 0, 8, 9), dst),
        ]
    );
}

#[test]
fn tile_widget_draws_the_tile_of_the_board() {
    let board = Board::new().assign_value(3, 4, 6, false).unwrap();
    let state = selection(Brush::Pencil, 1);
    let dst = rect(50, 60, 15, 15);
    let mut ops = Vec::new();
    draw_widget(&mut ops, 1, &Widget { mode: WidgetType::Tile(3, 4), rect: dst }, &board, &state);
    assert_eq!(
        ops,
        vec![
            DrawOp::SetColor(Paint::Rose),
            DrawOp::FillRect(rect(49, 59, 17, 17)),
            DrawOp::Sprite(rect(75, 65, 15, 15), dst),
        ]
    );
    let mut ops = Vec::new();
    draw_widget(&mut ops, 1, &Widget { mode: WidgetType::Tile(9, 4), rect: dst }, &board, &state);
    assert_eq!(ops, Vec::new());
}

#[test]
fn lines_are_filled_rectangles() {
    let s = calc_screen_size_and_scale(640, 400);
    let mut ops = Vec::new();
    draw_board_hline(&mut ops, s, 9);
    draw_board_vline(&mut ops, s, 3);
    assert_eq!(
        ops,
        vec![DrawOp::FillRect(rect(147, 354, 346, 4)), DrawOp::FillRect(rect(261, 12, 4, 346))]
    );
}

#[test]
fn scene_of_a_blank_board() {
    let s = calc_screen_size_and_scale(244, 200);
    let ws = make_widgets(s);
    let ops = draw_scene(s, &ws, &Board::new(), &selection(Brush::Pencil, 1));
    assert_eq!(ops.len(), 932);
    assert_eq!(ops[0], DrawOp::SetColor(Paint::White));
    assert_eq!(ops[1], DrawOp::Clear);
    assert_eq!(ops[2], DrawOp::SetColor(Paint::LightGrey));
    // thin lines: 1, 2, 4, 5, 7, 8 across, then down
    assert_eq!(ops[3], DrawOp::FillRect(rect(35, 6 + 19, 173, 2)));
    assert_eq!(ops[8], DrawOp::FillRect(rect(35, 6 + 19 * 8, 173, 2)));
    assert_eq!(ops[9], DrawOp::FillRect(rect(35 + 19, 6, 2, 173)));
    assert_eq!(ops[14], DrawOp::FillRect(rect(35 + 19 * 8, 6, 2, 173)));
    assert_eq!(ops[15], DrawOp::SetColor(Paint::DarkGrey));
    // thick lines: 0, 3, 6, 9
    assert_eq!(ops[16], DrawOp::FillRect(rect(35, 6, 173, 2)));
    assert_eq!(ops[19], DrawOp::FillRect(rect(35, 177, 173, 2)));
    assert_eq!(ops[20], DrawOp::FillRect(rect(35, 6, 2, 173)));
    assert_eq!(ops[23], DrawOp::FillRect(rect(35 + 171, 6, 2, 173)));
    // toolbar
    assert_eq!(ops[24], DrawOp::SetColor(Paint::LightGrey));
    assert_eq!(ops[25], DrawOp::FillRect(rect(0, 185, 244, 15)));
    assert_eq!(ops[26], DrawOp::SetColor(Paint::DarkGrey));
    assert_eq!(ops[27], DrawOp::DrawRect(rect(0, 185, 244, 15)));
    // widgets: undo, redo, pencil (selected), cross-out
    assert_eq!(ops[28], DrawOp::Sprite(rect(54, 0, 8, 9), rect(3, 188, 8, 9)));
    assert_eq!(ops[29], DrawOp::Sprite(rect(64, 0, 8, 9), rect(13, 188, 8, 9)));
    assert_eq!(ops[30], DrawOp::Sprite(rect(0, 10, 53, 9), rect(23, 188, 53, 9)));
    assert_eq!(ops[31], DrawOp::Sprite(rect(54, 20, 53, 9), rect(78, 188, 53, 9)));
    // first tile
    assert_eq!(ops[32], DrawOp::SetColor(Paint::DarkGrey));
    assert_eq!(ops[33], DrawOp::FillRect(rect(42, 19, 1, 1)));
    // numbers at the end: 1 is selected
    assert_eq!(ops[922], DrawOp::Sprite(rect(0, 30, 13, 9), rect(132, 188, 13, 9)));
    assert_eq!(ops[923], DrawOp::Sprite(rect(12, 40, 13, 9), rect(144, 188, 13, 9)));
    assert_eq!(ops[930], DrawOp::Sprite(rect(96, 40, 13, 9), rect(228, 188, 13, 9)));
    assert_eq!(ops[931], DrawOp::Present);
}

#[test]
fn scene_shows_the_values_of_the_board() {
    let s = calc_screen_size_and_scale(640, 400);
    let ws = make_widgets(s);
    let board = Board::new().assign_value(0, 0, 5, true).unwrap();
    let ops = draw_scene(s, &ws, &board, &selection(Brush::CrossOut, 5));
    // 28 steps, then the label and four buttons, then the first tile
    assert_eq!(ops[28], DrawOp::Sprite(rect(0, 0, 53, 9), rect(6, 376, 106, 18)));
    assert_eq!(ops[31], DrawOp::Sprite(rect(0, 20, 53, 9), rect(179, 376, 106, 18)));
    assert_eq!(ops[32], DrawOp::Sprite(rect(54, 10, 53, 9), rect(289, 376, 106, 18)));
    assert_eq!(ops[33], DrawOp::Sprite(rect(60, 50, 15, 15), rect(153, 18, 30, 30)));
    assert_eq!(ops[34], DrawOp::SetColor(Paint::Rose));
    assert_eq!(*ops.last().unwrap(), DrawOp::Present);
}
