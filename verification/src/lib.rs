//! A 9x9 Sudoku game without its window.
//!
//! The engine: tiles with their candidates ([`tile`]), the board that
//! passes every assignment on to the tiles that see it ([`board`]), the
//! undo/redo history of boards ([`history`]) and the reader of puzzle text
//! ([`puzzle`]). Boards are described by grids, their mathematical values
//! ([`grid`], [`singles`]); what holds of the moves taken together is
//! proved in [`laws`].
//!
//! The window's side, up to the calls that open, read and paint a window:
//! the sprite sheet ([`gfx`]), the selection ([`input`]), the layout
//! ([`layout`]), the drawing steps ([`scene`]), and events and frames
//! ([`ui`]).

pub mod values;
pub mod tile;
pub mod grid;
pub mod singles;
pub mod board;
pub mod action;
pub mod history;
pub mod puzzle;
pub mod laws;
pub mod gfx;
pub mod input;
pub mod layout;
pub mod scene;
pub mod ui;
