//! What is drawn: the board, the toolbar and the widgets as a row of
//! drawing steps, to be carried out in order.

use vstd::prelude::*;
use crate::board::Board;
use crate::gfx::{Rect, Res, sprite_of, sprite_rect};
use crate::grid::{Grid, index_of};
use crate::input::{GuiState, Widget, WidgetType};
use crate::layout::{ScreenSize, board_hline, board_vline, toolbar_rect};
use crate::tile::{Tile, TileView};

verus! {

/// The distance from one pip of a tile to the next, unscaled.
pub const PIP_SPACING: u32 = 3;

/// A colour to draw with.
#[derive(Clone, Copy, PartialEq, Eq, Structural, Debug)]
pub enum Paint {
    /// The background of the window.
    White,
    /// The thin lines of the board and the body of the toolbar.
    LightGrey,
    /// The thick lines of the board, the frame of the toolbar, the pips.
    DarkGrey,
    /// The backdrop of every other tile.
    Rose,
}

/// A step of drawing.
#[derive(Clone, Copy, PartialEq, Eq, Structural, Debug)]
pub enum DrawOp {
    /// Draw with this colour from now on.
    SetColor(Paint),
    /// Fill the window.
    Clear,
    /// Fill a rectangle.
    FillRect(Rect),
    /// Draw the outline of a rectangle.
    DrawRect(Rect),
    /// Copy a rectangle of the sprite sheet to a rectangle of the window.
    Sprite(Rect, Rect),
    /// Show what was drawn.
    Present,
}

impl Paint {
    /// The red, green and blue of the colour.
    pub open spec fn rgb_of(self) -> (u8, u8, u8) {
        match self {
            Paint::White => (0xd0u8, 0xd0u8, 0xd0u8),
            Paint::LightGrey => (0x98u8, 0x98u8, 0x98u8),
            Paint::DarkGrey => (0x58u8, 0x58u8, 0x58u8),
            Paint::Rose => (0xc2u8, 0xbcu8, 0xbcu8),
        }
    }

    /// The red, green and blue of the colour.
    pub fn rgb(self) -> (c: (u8, u8, u8))
        ensures
            c == self.rgb_of(),
    {
        match self {
            Paint::White => (0xd0, 0xd0, 0xd0),
            Paint::LightGrey => (0x98, 0x98, 0x98),
            Paint::DarkGrey => (0x58, 0x58, 0x58),
            Paint::Rose => (0xc2, 0xbc, 0xbc),
        }
    }
}

/// The step that draws the picture `res` at `dst`: none if the sprite
/// sheet has no such picture.
pub open spec fn sprite_ops(res: Res, dst: Rect) -> Seq<DrawOp> {
    match sprite_of(res) {
        Some(src) => seq![DrawOp::Sprite(src, dst)],
        None => Seq::empty(),
    }
}

/// Whether a tile can be drawn at `dst` at `scale`: the rectangle has room
/// for three rows of three pips, and it lies, with a margin of `scale`
/// around it, where coordinates do not overflow.
pub open spec fn tile_area_ok(scale: u32, dst: Rect) -> bool {
    &&& 1 <= scale
    &&& 6 * scale <= dst.w
    &&& 6 * scale <= dst.h
    &&& 0 <= dst.x
    &&& 0 <= dst.y
    &&& dst.x + dst.w + scale <= i32::MAX
    &&& dst.y + dst.h + scale <= i32::MAX
}

/// `dst` with a margin of `scale` around it.
pub open spec fn backdrop(scale: u32, dst: Rect) -> Rect {
    Rect {
        x: (dst.x - scale) as i32,
        y: (dst.y - scale) as i32,
        w: (dst.w + 2 * scale) as u32,
        h: (dst.h + 2 * scale) as u32,
    }
}

/// The pip of the value `v` in a tile drawn at `dst`: the pips stand in
/// three rows of three around the middle of the tile, 1 at the bottom
/// left, 9 at the top right.
pub open spec fn pip_rect(scale: u32, dst: Rect, v: u8) -> Rect {
    Rect {
        x: (dst.x + (dst.w / 2 - scale * PIP_SPACING) + scale * PIP_SPACING * ((v - 1) % 3))
            as i32,
        y: (dst.y + (dst.h / 2 - scale * PIP_SPACING) + scale * PIP_SPACING * (2 - (v - 1) / 3))
            as i32,
        w: scale,
        h: scale,
    }
}

/// The pips of the first `k` candidates of `t`: one for each that is a
/// cell value and is not crossed out.
pub open spec fn pip_ops(scale: u32, t: TileView, dst: Rect, k: int) -> Seq<DrawOp>
    decreases k,
{
    if k <= 0 {
        Seq::empty()
    } else {
        let v = t.candidates[k - 1];
        if !t.eliminated.contains(v) && 1 <= v <= 9 {
            pip_ops(scale, t, dst, k - 1).push(DrawOp::FillRect(pip_rect(scale, dst, v)))
        } else {
            pip_ops(scale, t, dst, k - 1)
        }
    }
}

/// The picture of the value that `t` holds: that of a clue, of a value
/// that is still among the candidates, or of one that is not.
pub open spec fn value_res(t: TileView, v: u8) -> Res {
    if t.init {
        Res::TileInit(v)
    } else if t.is_guess() {
        Res::TileGuess(v)
    } else {
        Res::TileConflict(v)
    }
}

/// The steps that draw the tile `t` at `dst`: a backdrop where column
/// plus row is odd, then the value, or else the pips of the open values.
pub open spec fn tile_ops(scale: u32, t: TileView, dst: Rect) -> Seq<DrawOp> {
    let chequer = if (t.x + t.y) % 2 != 0 {
        seq![DrawOp::SetColor(Paint::Rose), DrawOp::FillRect(backdrop(scale, dst))]
    } else {
        Seq::empty()
    };
    match t.assignment {
        Some(v) => chequer + sprite_ops(value_res(t, v), dst),
        None => chequer + seq![DrawOp::SetColor(Paint::DarkGrey)] + pip_ops(
            scale,
            t,
            dst,
            t.candidates.len() as int,
        ),
    }
}

/// The steps that draw `widget`: a tile of the grid, or the picture of a
/// button as the selection has it. A tile widget for a cell that the grid
/// does not have draws nothing.
pub open spec fn widget_ops(scale: u32, widget: Widget, g: Grid, state: GuiState) -> Seq<DrawOp> {
    match widget.mode {
        WidgetType::Label => sprite_ops(Res::ToolbarSudoku, widget.rect),
        WidgetType::Undo => sprite_ops(Res::ToolbarUndo, widget.rect),
        WidgetType::Redo => sprite_ops(Res::ToolbarRedo, widget.rect),
        WidgetType::Tile(x, y) => if x < 9 && y < 9 {
            tile_ops(scale, g[index_of(x, y)], widget.rect)
        } else {
            Seq::empty()
        },
        WidgetType::ToolbarBrush(brush, active, inactive) => sprite_ops(
            if state.selected_brush == brush {
                active
            } else {
                inactive
            },
            widget.rect,
        ),
        WidgetType::ToolbarNumber(v) => sprite_ops(
            if state.selected_value == v {
                Res::ToolbarActiveNumber(v)
            } else {
                Res::ToolbarInactiveNumber(v)
            },
            widget.rect,
        ),
    }
}

/// Whether `widget` can be drawn at `scale`: a tile needs its room.
pub open spec fn widget_ok(scale: u32, widget: Widget) -> bool {
    widget.mode is Tile ==> tile_area_ok(scale, widget.rect)
}

/// The steps that draw the first `k` of `widgets`.
pub open spec fn widgets_ops(
    scale: u32,
    widgets: Seq<Widget>,
    g: Grid,
    state: GuiState,
    k: int,
) -> Seq<DrawOp>
    decreases k,
{
    if k <= 0 {
        Seq::empty()
    } else {
        widgets_ops(scale, widgets, g, state, k - 1) + widget_ops(scale, widgets[k - 1], g, state)
    }
}

/// The steps that draw the horizontal lines of the board numbered in `lines`.
pub open spec fn across_ops(size: ScreenSize, lines: Seq<u32>) -> Seq<DrawOp> {
    Seq::new(lines.len(), |i: int| DrawOp::FillRect(size.hline(lines[i] as int)))
}

/// The steps that draw the vertical lines of the board numbered in `lines`.
pub open spec fn down_ops(size: ScreenSize, lines: Seq<u32>) -> Seq<DrawOp> {
    Seq::new(lines.len(), |i: int| DrawOp::FillRect(size.vline(lines[i] as int)))
}

/// The steps that draw the lines of the board numbered in `lines`, the
/// horizontal ones first.
pub open spec fn line_ops(size: ScreenSize, lines: Seq<u32>) -> Seq<DrawOp> {
    across_ops(size, lines) + down_ops(size, lines)
}

/// The lines inside the blocks.
pub open spec fn thin_lines() -> Seq<u32> {
    seq![1u32, 2u32, 4u32, 5u32, 7u32, 8u32]
}

/// The lines between the blocks and around the board.
pub open spec fn thick_lines() -> Seq<u32> {
    seq![0u32, 3u32, 6u32, 9u32]
}

/// The steps that draw the window: the background, the thin and then the
/// thick lines of the board, the toolbar with its frame, the widgets in
/// their order, and the presentation.
pub open spec fn scene_ops(size: ScreenSize, widgets: Seq<Widget>, g: Grid, state: GuiState) -> Seq<
    DrawOp,
> {
    seq![DrawOp::SetColor(Paint::White), DrawOp::Clear, DrawOp::SetColor(Paint::LightGrey)]
        + line_ops(size, thin_lines()) + seq![DrawOp::SetColor(Paint::DarkGrey)] + line_ops(
        size,
        thick_lines(),
    ) + seq![
        DrawOp::SetColor(Paint::LightGrey),
        DrawOp::FillRect(size.toolbar()),
        DrawOp::SetColor(Paint::DarkGrey),
        DrawOp::DrawRect(size.toolbar()),
    ] + widgets_ops(size.board_scale, widgets, g, state, widgets.len() as int) + seq![
        DrawOp::Present,
    ]
}

/// Adds the step that draws the picture `res` at `dst`, if the sprite
/// sheet has such a picture.
pub fn draw_sprite(ops: &mut Vec<DrawOp>, res: Res, dst: Rect)
    ensures
        final(ops)@ == old(ops)@ + sprite_ops(res, dst),
{
    if let Some(src) = sprite_rect(res) {
        ops.push(DrawOp::Sprite(src, dst));
    }
}

/// Adds the steps that draw `tile` at `dst`.
pub fn draw_tile(ops: &mut Vec<DrawOp>, scale: u32, tile: &Tile, dst: Rect)
    requires
        tile_area_ok(scale, dst),
    ensures
        final(ops)@ == old(ops)@ + tile_ops(scale, tile@, dst),
{
    let ghost chequer = if (tile.x + tile.y) % 2 != 0 {
        seq![DrawOp::SetColor(Paint::Rose), DrawOp::FillRect(backdrop(scale, dst))]
    } else {
        Seq::empty()
    };
    if (tile.x as u32 + tile.y as u32) % 2 != 0 {
        ops.push(DrawOp::SetColor(Paint::Rose));
        ops.push(
            DrawOp::FillRect(
                Rect {
                    x: dst.x - scale as i32,
                    y: dst.y - scale as i32,
                    w: dst.w + scale * 2,
                    h: dst.h + scale * 2,
                },
            ),
        );
    }
    if let Some(v) = tile.assignment {
        let res = if tile.is_init() {
            Res::TileInit(v)
        } else if tile.is_guess() {
            Res::TileGuess(v)
        } else {
            Res::TileConflict(v)
        };
        draw_sprite(ops, res, dst);
    } else {
        let x0: i32 = dst.x + (dst.w / 2 - scale * PIP_SPACING) as i32;
        let y0: i32 = dst.y + (dst.h / 2 - scale * PIP_SPACING) as i32;
        ops.push(DrawOp::SetColor(Paint::DarkGrey));
        let ghost start = old(ops)@ + chequer + seq![DrawOp::SetColor(Paint::DarkGrey)];
        let mut k: usize = 0;
        while k < tile.candidates.len()
            invariant
                k <= tile.candidates.len(),
                tile_area_ok(scale, dst),
                x0 == dst.x + (dst.w / 2 - scale * PIP_SPACING),
                y0 == dst.y + (dst.h / 2 - scale * PIP_SPACING),
                ops@ == start + pip_ops(scale, tile@, dst, k as int),
            decreases tile.candidates.len() - k,
        {
            let v = tile.candidates[k];
            if !tile.is_crossed_out(v) && 1 <= v && v <= 9 {
                let x: u32 = ((v - 1) % 3) as u32;
                let y: u32 = (2 - (v - 1) / 3) as u32;
                assert(scale * PIP_SPACING * x <= scale * 6) by (nonlinear_arith)
                    requires
                        x <= 2,
                        scale >= 0,
                        PIP_SPACING == 3,
                ;
                assert(scale * PIP_SPACING * y <= scale * 6) by (nonlinear_arith)
                    requires
                        y <= 2,
                        scale >= 0,
                        PIP_SPACING == 3,
                ;
                ops.push(
                    DrawOp::FillRect(
                        Rect {
                            x: x0 + (scale * PIP_SPACING * x) as i32,
                            y: y0 + (scale * PIP_SPACING * y) as i32,
                            w: scale,
                            h: scale,
                        },
                    ),
                );
            }
            k += 1;
        }
        assert(ops@ =~= old(ops)@ + (chequer + seq![DrawOp::SetColor(Paint::DarkGrey)] + pip_ops(
            scale,
            tile@,
            dst,
            tile.candidates.len() as int,
        )));
    }
}

/// Adds the steps that draw `widget`.
pub fn draw_widget(
    ops: &mut Vec<DrawOp>,
    scale: u32,
    widget: &Widget,
    board: &Board,
    state: &GuiState,
)
    requires
        widget_ok(scale, *widget),
    ensures
        final(ops)@ == old(ops)@ + widget_ops(scale, *widget, board@, *state),
{
    let res = match widget.mode {
        WidgetType::Label => Res::ToolbarSudoku,
        WidgetType::Undo => Res::ToolbarUndo,
        WidgetType::Redo => Res::ToolbarRedo,
        WidgetType::Tile(x, y) => {
            if let Some(t) = board.get(x, y) {
                draw_tile(ops, scale, t, widget.rect);
            }
            return ;
        },
        WidgetType::ToolbarBrush(b, active, inactive) => if state.selected_brush == b {
            active
        } else {
            inactive
        },
        WidgetType::ToolbarNumber(v) => if state.selected_value == v {
            Res::ToolbarActiveNumber(v)
        } else {
            Res::ToolbarInactiveNumber(v)
        },
    };
    draw_sprite(ops, res, widget.rect);
}

/// Adds the steps that draw the horizontal line `y` of the board.
pub fn draw_board_hline(ops: &mut Vec<DrawOp>, size: ScreenSize, y: u32)
    requires
        size.wf(),
        y <= 9,
    ensures
        final(ops)@ == old(ops)@.push(DrawOp::FillRect(size.hline(y as int))),
{
    ops.push(DrawOp::FillRect(board_hline(size, y)));
}

/// Adds the steps that draw the vertical line `x` of the board.
pub fn draw_board_vline(ops: &mut Vec<DrawOp>, size: ScreenSize, x: u32)
    requires
        size.wf(),
        x <= 9,
    ensures
        final(ops)@ == old(ops)@.push(DrawOp::FillRect(size.vline(x as int))),
{
    ops.push(DrawOp::FillRect(board_vline(size, x)));
}

/// Adds the steps that draw the lines numbered in `lines`, the horizontal
/// ones first.
fn draw_lines(ops: &mut Vec<DrawOp>, size: ScreenSize, lines: &Vec<u32>)
    requires
        size.wf(),
        forall|i: int| 0 <= i < lines@.len() ==> #[trigger] lines@[i] <= 9,
    ensures
        final(ops)@ == old(ops)@ + line_ops(size, lines@),
{
    let ghost across = across_ops(size, lines@);
    let ghost down = down_ops(size, lines@);
    let mut k: usize = 0;
    while k < lines.len()
        invariant
            k <= lines.len(),
            size.wf(),
            forall|i: int| 0 <= i < lines@.len() ==> #[trigger] lines@[i] <= 9,
            across == across_ops(size, lines@),
            ops@ == old(ops)@ + across.take(k as int),
        decreases lines.len() - k,
    {
        draw_board_hline(ops, size, lines[k]);
        k += 1;
    }
    let mut k: usize = 0;
    while k < lines.len()
        invariant
            k <= lines.len(),
            size.wf(),
            forall|i: int| 0 <= i < lines@.len() ==> #[trigger] lines@[i] <= 9,
            down == down_ops(size, lines@),
            ops@ == old(ops)@ + across + down.take(k as int),
        decreases lines.len() - k,
    {
        draw_board_vline(ops, size, lines[k]);
        k += 1;
    }
}

/// The steps that draw the window.
pub fn draw_scene(size: ScreenSize, widgets: &Vec<Widget>, board: &Board, state: &GuiState) -> (ops:
    Vec<DrawOp>)
    requires
        size.wf(),
        forall|i: int|
            0 <= i < widgets@.len() ==> widget_ok(size.board_scale, #[trigger] widgets@[i]),
    ensures
        ops@ == scene_ops(size, widgets@, board@, *state),
{
    let mut ops: Vec<DrawOp> = Vec::new();
    ops.push(DrawOp::SetColor(Paint::White));
    ops.push(DrawOp::Clear);
    ops.push(DrawOp::SetColor(Paint::LightGrey));
    let thin: Vec<u32> = vec![1, 2, 4, 5, 7, 8];
    draw_lines(&mut ops, size, &thin);
    ops.push(DrawOp::SetColor(Paint::DarkGrey));
    let thick: Vec<u32> = vec![0, 3, 6, 9];
    draw_lines(&mut ops, size, &thick);
    let bar = toolbar_rect(size);
    ops.push(DrawOp::SetColor(Paint::LightGrey));
    ops.push(DrawOp::FillRect(bar));
    ops.push(DrawOp::SetColor(Paint::DarkGrey));
    ops.push(DrawOp::DrawRect(bar));
    let ghost head = seq![
        DrawOp::SetColor(Paint::White),
        DrawOp::Clear,
        DrawOp::SetColor(Paint::LightGrey),
    ] + line_ops(size, thin_lines()) + seq![DrawOp::SetColor(Paint::DarkGrey)] + line_ops(
        size,
        thick_lines(),
    ) + seq![
        DrawOp::SetColor(Paint::LightGrey),
        DrawOp::FillRect(size.toolbar()),
        DrawOp::SetColor(Paint::DarkGrey),
        DrawOp::DrawRect(size.toolbar()),
    ];
    let mut k: usize = 0;
    while k < widgets.len()
        invariant
            k <= widgets.len(),
            forall|i: int|
                0 <= i < widgets@.len() ==> widget_ok(size.board_scale, #[trigger] widgets@[i]),
            ops@ == head + widgets_ops(size.board_scale, widgets@, board@, *state, k as int),
        decreases widgets.len() - k,
    {
        let ghost drawn = widgets_ops(size.board_scale, widgets@, board@, *state, k as int);
        draw_widget(&mut ops, size.board_scale, &widgets[k], board, state);
        assert(ops@ =~= head + (drawn + widget_ops(
            size.board_scale,
            widgets@[k as int],
            board@,
            *state,
        )));
        k += 1;
    }
    ops.push(DrawOp::Present);
    ops
}

} // verus!
