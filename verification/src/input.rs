//! What the player has selected, and what a key or a click means.

use vstd::prelude::*;
use crate::action::SudokuAction;
use crate::gfx::{Rect, Res};

verus! {

/// What a click on a tile does.
#[derive(Clone, Copy, PartialEq, Eq, Structural, Debug)]
pub enum Brush {
    /// It assigns the selected value.
    Pencil,
    /// It crosses the selected value out.
    CrossOut,
}

/// A key that was pressed.
#[derive(Clone, Copy, PartialEq, Eq, Structural, Debug)]
pub enum Key {
    Z,
    X,
    C,
    V,
    Num1,
    Num2,
    Num3,
    Num4,
    Num5,
    Num6,
    Num7,
    Num8,
    Num9,
    /// Any other key.
    Other,
}

/// What a widget is for.
#[derive(Clone, Copy, PartialEq, Eq, Structural, Debug)]
pub enum WidgetType {
    /// The name of the game.
    Label,
    Undo,
    Redo,
    /// The tile at a column and a row.
    Tile(u8, u8),
    /// The button of a brush, with its pictures when selected and when not.
    ToolbarBrush(Brush, Res, Res),
    /// The button of a value.
    ToolbarNumber(u8),
}

/// Something on the screen that can be drawn and clicked.
#[derive(Clone, Copy, PartialEq, Eq, Structural, Debug)]
pub struct Widget {
    pub mode: WidgetType,
    pub rect: Rect,
}

/// The brush and the value that the player has selected.
#[derive(Clone, Copy, PartialEq, Eq, Structural, Debug)]
pub struct GuiState {
    pub selected_brush: Brush,
    pub selected_value: u8,
}

/// The value that a number key selects.
pub open spec fn key_value(key: Key) -> Option<u8> {
    match key {
        Key::Num1 => Some(1u8),
        Key::Num2 => Some(2u8),
        Key::Num3 => Some(3u8),
        Key::Num4 => Some(4u8),
        Key::Num5 => Some(5u8),
        Key::Num6 => Some(6u8),
        Key::Num7 => Some(7u8),
        Key::Num8 => Some(8u8),
        Key::Num9 => Some(9u8),
        _ => None,
    }
}

/// The brush that a key selects.
pub open spec fn key_brush(key: Key) -> Option<Brush> {
    match key {
        Key::C => Some(Brush::Pencil),
        Key::V => Some(Brush::CrossOut),
        _ => None,
    }
}

/// `n` brought into the range of the cell values.
pub open spec fn clamp_value(n: int) -> u8 {
    if n < 1 {
        1u8
    } else if n > 9 {
        9u8
    } else {
        n as u8
    }
}

impl GuiState {
    /// The selection at the start: the pencil and the value 1.
    pub open spec fn initial() -> GuiState {
        GuiState { selected_brush: Brush::Pencil, selected_value: 1 }
    }

    /// The selection after `key`: `C` and `V` select a brush, a number key
    /// a value.
    pub open spec fn after_key(self, key: Key) -> GuiState {
        GuiState {
            selected_brush: match key_brush(key) {
                Some(brush) => brush,
                None => self.selected_brush,
            },
            selected_value: match key_value(key) {
                Some(value) => value,
                None => self.selected_value,
            },
        }
    }

    /// What `key` asks for: `Z` undoes, `X` redoes.
    pub open spec fn key_action(key: Key) -> SudokuAction {
        match key {
            Key::Z => SudokuAction::Undo,
            Key::X => SudokuAction::Redo,
            _ => SudokuAction::NoOp,
        }
    }

    /// The selection after a left click on a widget: a button of the
    /// toolbar selects its brush or its value.
    pub open spec fn after_click(self, mode: WidgetType) -> GuiState {
        match mode {
            WidgetType::ToolbarBrush(brush, _, _) => GuiState {
                selected_brush: brush,
                selected_value: self.selected_value,
            },
            WidgetType::ToolbarNumber(value) => GuiState {
                selected_brush: self.selected_brush,
                selected_value: value,
            },
            _ => self,
        }
    }

    /// What a left click on a widget asks for: on a tile, the move of the
    /// selected brush with the selected value.
    pub open spec fn click_action(self, mode: WidgetType) -> SudokuAction {
        match mode {
            WidgetType::Undo => SudokuAction::Undo,
            WidgetType::Redo => SudokuAction::Redo,
            WidgetType::Tile(x, y) => match self.selected_brush {
                Brush::Pencil => SudokuAction::AssignValue(x, y, self.selected_value),
                Brush::CrossOut => SudokuAction::CrossOutValue(x, y, self.selected_value),
            },
            _ => SudokuAction::NoOp,
        }
    }

    /// What a right click on a widget asks for: on a tile, to clear it.
    pub open spec fn right_click_action(mode: WidgetType) -> SudokuAction {
        match mode {
            WidgetType::Tile(x, y) => SudokuAction::UnassignValue(x, y),
            _ => SudokuAction::NoOp,
        }
    }

    /// The selection after the wheel moved by `delta`: the selected value
    /// goes up or down with it and stops at 1 and at 9.
    pub open spec fn after_wheel(self, delta: i32) -> GuiState {
        GuiState {
            selected_brush: self.selected_brush,
            selected_value: clamp_value(self.selected_value + delta),
        }
    }

    /// The selection at the start.
    pub fn new() -> (s: GuiState)
        ensures
            s == GuiState::initial(),
    {
        GuiState { selected_brush: Brush::Pencil, selected_value: 1 }
    }

    /// Takes note of a key, and says what it asks for.
    pub fn on_key_down(&mut self, key: Key) -> (a: SudokuAction)
        ensures
            *final(self) == old(self).after_key(key),
            a == GuiState::key_action(key),
    {
        match key {
            Key::Z => {
                return SudokuAction::Undo;
            },
            Key::X => {
                return SudokuAction::Redo;
            },
            Key::C => {
                self.selected_brush = Brush::Pencil;
            },
            Key::V => {
                self.selected_brush = Brush::CrossOut;
            },
            Key::Num1 => {
                self.selected_value = 1;
            },
            Key::Num2 => {
                self.selected_value = 2;
            },
            Key::Num3 => {
                self.selected_value = 3;
            },
            Key::Num4 => {
                self.selected_value = 4;
            },
            Key::Num5 => {
                self.selected_value = 5;
            },
            Key::Num6 => {
                self.selected_value = 6;
            },
            Key::Num7 => {
                self.selected_value = 7;
            },
            Key::Num8 => {
                self.selected_value = 8;
            },
            Key::Num9 => {
                self.selected_value = 9;
            },
            Key::Other => {},
        }
        SudokuAction::NoOp
    }

    /// Takes note of a left click on `widget`, and says what it asks for.
    pub fn on_lmb(&mut self, widget: &Widget) -> (a: SudokuAction)
        ensures
            *final(self) == old(self).after_click(widget.mode),
            a == old(self).click_action(widget.mode),
    {
        match widget.mode {
            WidgetType::Label => {},
            WidgetType::Undo => {
                return SudokuAction::Undo;
            },
            WidgetType::Redo => {
                return SudokuAction::Redo;
            },
            WidgetType::Tile(x, y) => match self.selected_brush {
                Brush::Pencil => {
                    return SudokuAction::AssignValue(x, y, self.selected_value);
                },
                Brush::CrossOut => {
                    return SudokuAction::CrossOutValue(x, y, self.selected_value);
                },
            },
            WidgetType::ToolbarBrush(brush, _, _) => {
                self.selected_brush = brush;
            },
            WidgetType::ToolbarNumber(value) => {
                self.selected_value = value;
            },
        }
        SudokuAction::NoOp
    }

    /// Says what a right click on `widget` asks for. The selection stays.
    pub fn on_rmb(&mut self, widget: &Widget) -> (a: SudokuAction)
        ensures
            *final(self) == *old(self),
            a == GuiState::right_click_action(widget.mode),
    {
        match widget.mode {
            WidgetType::Tile(x, y) => SudokuAction::UnassignValue(x, y),
            _ => SudokuAction::NoOp,
        }
    }

    /// Takes note of the wheel having moved by `delta`.
    pub fn on_wheel(&mut self, delta: i32)
        ensures
            *final(self) == old(self).after_wheel(delta),
    {
        let moved: i64 = self.selected_value as i64 + delta as i64;
        self.selected_value = if moved < 1 {
            1
        } else if moved > 9 {
            9
        } else {
            moved as u8
        };
    }
}

} // verus!
