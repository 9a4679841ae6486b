use sudoku::action::SudokuAction;
use sudoku::board::Board;
use sudoku::input::{Brush, GuiState, Key, WidgetType};
use sudoku::layout::{calc_screen_size_and_scale, make_widgets};
use sudoku::scene::{draw_scene, DrawOp};
use sudoku::ui::{Event, Ui};

#[test]
fn ui_starts_with_the_default_window() {
    let ui = Ui::new();
    assert_eq!(ui.screen_size(), calc_screen_size_and_scale(640, 400));
    assert_eq!(*ui.widgets(), make_widgets(calc_screen_size_and_scale(640, 400)));
    assert_eq!(ui.state(), GuiState::new());
}

#[test]
fn poll_waits_for_the_rest_of_the_frame() {
    let mut ui = Ui::new();
    ui.drawn(100);
    assert_eq!(ui.poll(100), Some(16));
    assert_eq!(ui.poll(110), Some(6));
    assert_eq!(ui.poll(115), Some(1));
    assert_eq!(ui.poll(116), None);
    assert_eq!(ui.poll(500), None);
    assert_eq!(ui.poll(0), Some(116));
}

#[test]
fn frame_is_drawn_when_due_only() {
    let board = Board::new();
    let mut ui = Ui::new();
    assert!(ui.frame(&board).is_some());
    assert!(ui.frame(&board).is_some());
    ui.drawn(100);
    assert!(ui.frame(&board).is_none());
    assert_eq!(ui.poll(110), Some(6));
    assert!(ui.frame(&board).is_none());
    assert_eq!(ui.poll(116), None);
    assert!(ui.frame(&board).is_some());
}

#[test]
fn frame_is_the_scene_of_the_board() {
    let board = Board::new().assign_value(2, 2, 2, false).unwrap();
    let mut ui = Ui::new();
    ui.on_event(Event::KeyDown(Key::Num2));
    let ops = ui.frame(&board).unwrap();
    let size = calc_screen_size_and_scale(640, 400);
    let state = GuiState { selected_brush: Brush::Pencil, selected_value: 2 };
    assert_eq!(ops, draw_scene(size, &make_widgets(size), &board, &state));
    assert_eq!(ops[0], DrawOp::SetColor(sudoku::scene::Paint::White));
}

#[test]
fn resize_is_taken_up_by_the_next_frame() {
    let board = Board::new();
    let mut ui = Ui::new();
    ui.drawn(0);
    assert!(matches!(ui.on_event(Event::Resized(1280, 720)), SudokuAction::NoOp));
    assert_eq!(ui.screen_size(), calc_screen_size_and_scale(640, 400));
    assert!(ui.frame(&board).is_none());
    assert_eq!(ui.screen_size(), calc_screen_size_and_scale(640, 400));
    assert_eq!(ui.poll(16), None);
    let ops = ui.frame(&board).unwrap();
    let size = calc_screen_size_and_scale(1280, 720);
    assert_eq!(ui.screen_size(), size);
    assert_eq!(*ui.widgets(), make_widgets(size));
    assert_eq!(ops, draw_scene(size, &make_widgets(size), &board, &GuiState::new()));
    // laid out once
    ui.on_event(Event::Resized(244, 200));
    ui.on_event(Event::Resized(300, 203));
    ui.frame(&board);
    assert_eq!(ui.screen_size(), calc_screen_size_and_scale(300, 203));
    ui.frame(&board);
    assert_eq!(ui.screen_size(), calc_screen_size_and_scale(300, 203));
}

#[test]
fn quit_and_mouse_buttons() {
    let mut ui = Ui::new();
    assert!(matches!(ui.on_event(Event::Quit), SudokuAction::Quit));
    assert!(matches!(ui.on_event(Event::BackDown), SudokuAction::Undo));
    assert!(matches!(ui.on_event(Event::ForwardDown), SudokuAction::Redo));
    assert!(matches!(ui.on_event(Event::Other), SudokuAction::NoOp));
    assert_eq!(ui.state(), GuiState::new());
}

#[test]
fn keys_reach_the_selection() {
    let mut ui = Ui::new();
    assert!(matches!(ui.on_event(Event::KeyDown(Key::Z)), SudokuAction::Undo));
    assert!(matches!(ui.on_event(Event::KeyDown(Key::X)), SudokuAction::Redo));
    assert!(matches!(ui.on_event(Event::KeyDown(Key::V)), SudokuAction::NoOp));
    assert!(matches!(ui.on_event(Event::KeyDown(Key::Num7)), SudokuAction::NoOp));
    assert_eq!(ui.state(), GuiState { selected_brush: Brush::CrossOut, selected_value: 7 });
    assert!(matches!(ui.on_event(Event::Wheel(-2)), SudokuAction::NoOp));
    assert_eq!(ui.state().selected_value, 5);
    assert!(matches!(ui.on_event(Event::Wheel(100)), SudokuAction::NoOp));
    assert_eq!(ui.state().selected_value, 9);
}

#[test]
fn clicks_go_to_the_widget_under_the_pointer() {
    let mut ui = Ui::new();
    // the tile (4, 4) of the default window lies at (305, 170)
    assert!(matches!(ui.on_event(Event::LeftDown(320, 185)), SudokuAction::AssignValue(4, 4, 1)));
    assert!(matches!(ui.on_event(Event::RightDown(320, 185)), SudokuAction::UnassignValue(4, 4)));
    // the cross-out button lies at (289, 376), the number 9 at (608, 376)
    assert!(matches!(ui.on_event(Event::LeftDown(300, 380)), SudokuAction::NoOp));
    assert_eq!(ui.state().selected_brush, Brush::CrossOut);
    assert!(matches!(ui.on_event(Event::LeftDown(620, 380)), SudokuAction::NoOp));
    assert_eq!(ui.state().selected_value, 9);
    assert!(matches!(
        ui.on_event(Event::LeftDown(320, 185)),
        SudokuAction::CrossOutValue(4, 4, 9)
    ));
    // a right click on a button does nothing
    assert!(matches!(ui.on_event(Event::RightDown(183, 380)), SudokuAction::NoOp));
    assert_eq!(ui.state().selected_brush, Brush::CrossOut);
    // undo and redo
    assert!(matches!(ui.on_event(Event::LeftDown(120, 380)), SudokuAction::Undo));
    assert!(matches!(ui.on_event(Event::LeftDown(140, 380)), SudokuAction::Redo));
    // nothing under the pointer
    assert!(matches!(ui.on_event(Event::LeftDown(0, 0)), SudokuAction::NoOp));
    assert!(matches!(ui.on_event(Event::RightDown(0, 0)), SudokuAction::NoOp));
    assert_eq!(
        ui.widgets().iter().filter(|w| matches!(w.mode, WidgetType::Tile(_, _))).count(),
        81
    );
}

#[test]
fn dropped_file_starts_a_new_puzzle() {
    let mut ui = Ui::new();
    let a = ui.on_event(Event::DropFile(String::from("easy.txt")));
    match a {
        SudokuAction::New(Some(name)) => assert_eq!(name, "easy.txt"),
        _ => panic!("not a new puzzle"),
    }
}
