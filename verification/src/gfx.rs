//! The sprite sheet: what is on it and where, and how its indexed pixels
//! become colours.

use vstd::prelude::*;

verus! {

/// A picture on the sprite sheet.
#[derive(Clone, Copy, PartialEq, Eq, Structural, Hash, Debug)]
pub enum Res {
    ToolbarSudoku,
    ToolbarUndo,
    ToolbarRedo,
    ToolbarActivePencil,
    ToolbarInactivePencil,
    ToolbarActiveCrossOut,
    ToolbarInactiveCrossOut,
    /// A number button of the toolbar, selected.
    ToolbarActiveNumber(u8),
    /// A number button of the toolbar, not selected.
    ToolbarInactiveNumber(u8),
    /// The value of a clue.
    TileInit(u8),
    /// A value of the player's that nothing contradicts.
    TileGuess(u8),
    /// A value of the player's that another value rules out.
    TileConflict(u8),
}

/// A rectangle of pixels: the left and top edge, the width and the height.
#[derive(Clone, Copy, PartialEq, Eq, Structural, Debug)]
pub struct Rect {
    pub x: i32,
    pub y: i32,
    pub w: u32,
    pub h: u32,
}

pub const TILE_NUMBER_HEIGHT: u32 = 15;

pub const TILE_NUMBER_WIDTH: u32 = 15;

pub const TOOLBAR_BUTTON_HEIGHT: u32 = 9;

pub const TOOLBAR_BUTTON_WIDTH: u32 = 53;

pub const TOOLBAR_NUMBER_WIDTH: u32 = 13;

pub const TOOLBAR_UNDO_REDO_WIDTH: u32 = 8;

/// Where `res` is on the sprite sheet. A number picture exists for the
/// values 1 to 9 only.
pub open spec fn sprite_of(res: Res) -> Option<Rect> {
    match res {
        Res::ToolbarSudoku => Some(
            Rect { x: 0, y: 0, w: TOOLBAR_BUTTON_WIDTH, h: TOOLBAR_BUTTON_HEIGHT },
        ),
        Res::ToolbarUndo => Some(
            Rect { x: 54, y: 0, w: TOOLBAR_UNDO_REDO_WIDTH, h: TOOLBAR_BUTTON_HEIGHT },
        ),
        Res::ToolbarRedo => Some(
            Rect { x: 64, y: 0, w: TOOLBAR_UNDO_REDO_WIDTH, h: TOOLBAR_BUTTON_HEIGHT },
        ),
        Res::ToolbarActivePencil => Some(
            Rect { x: 0, y: 10, w: TOOLBAR_BUTTON_WIDTH, h: TOOLBAR_BUTTON_HEIGHT },
        ),
        Res::ToolbarInactivePencil => Some(
            Rect { x: 0, y: 20, w: TOOLBAR_BUTTON_WIDTH, h: TOOLBAR_BUTTON_HEIGHT },
        ),
        Res::ToolbarActiveCrossOut => Some(
            Rect { x: 54, y: 10, w: TOOLBAR_BUTTON_WIDTH, h: TOOLBAR_BUTTON_HEIGHT },
        ),
        Res::ToolbarInactiveCrossOut => Some(
            Rect { x: 54, y: 20, w: TOOLBAR_BUTTON_WIDTH, h: TOOLBAR_BUTTON_HEIGHT },
        ),
        Res::ToolbarActiveNumber(v) => number_sprite(v, 30),
        Res::ToolbarInactiveNumber(v) => number_sprite(v, 40),
        Res::TileInit(v) => value_sprite(v, 50),
        Res::TileGuess(v) => value_sprite(v, 65),
        Res::TileConflict(v) => value_sprite(v, 80),
    }
}

/// The toolbar number `v` in the row of the sheet that starts at `y`. The
/// numbers overlap by one pixel.
pub open spec fn number_sprite(v: u8, y: i32) -> Option<Rect> {
    if 1 <= v <= 9 {
        Some(
            Rect {
                x: ((TOOLBAR_NUMBER_WIDTH - 1) * (v - 1)) as i32,
                y,
                w: TOOLBAR_NUMBER_WIDTH,
                h: TOOLBAR_BUTTON_HEIGHT,
            },
        )
    } else {
        None
    }
}

/// The tile value `v` in the row of the sheet that starts at `y`.
pub open spec fn value_sprite(v: u8, y: i32) -> Option<Rect> {
    if 1 <= v <= 9 {
        Some(
            Rect {
                x: (TILE_NUMBER_WIDTH * (v - 1)) as i32,
                y,
                w: TILE_NUMBER_WIDTH,
                h: TILE_NUMBER_HEIGHT,
            },
        )
    } else {
        None
    }
}

fn number_rect(v: u8, y: i32) -> (r: Option<Rect>)
    ensures
        r == number_sprite(v, y),
{
    if 1 <= v && v <= 9 {
        let x: u32 = (TOOLBAR_NUMBER_WIDTH - 1) * ((v - 1) as u32);
        Some(Rect { x: x as i32, y, w: TOOLBAR_NUMBER_WIDTH, h: TOOLBAR_BUTTON_HEIGHT })
    } else {
        None
    }
}

fn value_rect(v: u8, y: i32) -> (r: Option<Rect>)
    ensures
        r == value_sprite(v, y),
{
    if 1 <= v && v <= 9 {
        let x: u32 = TILE_NUMBER_WIDTH * ((v - 1) as u32);
        Some(Rect { x: x as i32, y, w: TILE_NUMBER_WIDTH, h: TILE_NUMBER_HEIGHT })
    } else {
        None
    }
}

/// Where `res` is on the sprite sheet, if it is there.
pub fn sprite_rect(res: Res) -> (r: Option<Rect>)
    ensures
        r == sprite_of(res),
{
    match res {
        Res::ToolbarSudoku => Some(
            Rect { x: 0, y: 0, w: TOOLBAR_BUTTON_WIDTH, h: TOOLBAR_BUTTON_HEIGHT },
        ),
        Res::ToolbarUndo => Some(
            Rect { x: 54, y: 0, w: TOOLBAR_UNDO_REDO_WIDTH, h: TOOLBAR_BUTTON_HEIGHT },
        ),
        Res::ToolbarRedo => Some(
            Rect { x: 64, y: 0, w: TOOLBAR_UNDO_REDO_WIDTH, h: TOOLBAR_BUTTON_HEIGHT },
        ),
        Res::ToolbarActivePencil => Some(
            Rect { x: 0, y: 10, w: TOOLBAR_BUTTON_WIDTH, h: TOOLBAR_BUTTON_HEIGHT },
        ),
        Res::ToolbarInactivePencil => Some(
            Rect { x: 0, y: 20, w: TOOLBAR_BUTTON_WIDTH, h: TOOLBAR_BUTTON_HEIGHT },
        ),
        Res::ToolbarActiveCrossOut => Some(
            Rect { x: 54, y: 10, w: TOOLBAR_BUTTON_WIDTH, h: TOOLBAR_BUTTON_HEIGHT },
        ),
        Res::ToolbarInactiveCrossOut => Some(
            Rect { x: 54, y: 20, w: TOOLBAR_BUTTON_WIDTH, h: TOOLBAR_BUTTON_HEIGHT },
        ),
        Res::ToolbarActiveNumber(v) => number_rect(v, 30),
        Res::ToolbarInactiveNumber(v) => number_rect(v, 40),
        Res::TileInit(v) => value_rect(v, 50),
        Res::TileGuess(v) => value_rect(v, 65),
        Res::TileConflict(v) => value_rect(v, 80),
    }
}

/// The four bytes of a pixel with palette index `c`: red, green and blue
/// from the palette, which holds three bytes for each index, then alpha.
/// Index 0 is transparent, every other index opaque.
pub open spec fn rgba_of(pal: Seq<u8>, c: u8) -> Seq<u8> {
    seq![pal[3 * c], pal[3 * c + 1], pal[3 * c + 2], if c == 0 {
        0u8
    } else {
        255u8
    }]
}

/// Turns a frame of `w` by `h` palette indices, row after row, into rows
/// of four-byte pixels.
pub fn indexed_to_rgba(w: usize, h: usize, buf: &[u8], pal: &[u8]) -> (out: Vec<u8>)
    requires
        w * h <= buf.len(),
        pal.len() >= 3 * 256,
        4 * (w * h) <= usize::MAX,
    ensures
        out@.len() == 4 * (w * h),
        forall|i: int, k: int|
            0 <= i < w * h && 0 <= k < 4 ==> out@[4 * i + k] == rgba_of(pal@, buf@[i])[k],
{
    let n: usize = w * h;
    let mut out: Vec<u8> = Vec::new();
    let mut i: usize = 0;
    while i < n
        invariant
            i <= n,
            n <= buf.len(),
            4 * n <= usize::MAX,
            pal.len() >= 3 * 256,
            out@.len() == 4 * i,
            forall|j: int, k: int|
                0 <= j < i && 0 <= k < 4 ==> out@[4 * j + k] == rgba_of(pal@, buf@[j])[k],
        decreases n - i,
    {
        let c: usize = buf[i] as usize;
        out.push(pal[3 * c]);
        out.push(pal[3 * c + 1]);
        out.push(pal[3 * c + 2]);
        out.push(if c == 0 { 0 } else { 255 });
        proof {
            assert forall|j: int, k: int| 0 <= j < i + 1 && 0 <= k < 4 implies out@[4 * j + k]
                == rgba_of(pal@, buf@[j])[k] by {}
        }
        i += 1;
    }
    out
}

} // verus!
