//! Where things are on the screen: the scales that fit the window, the
//! widgets, and the lines of the board.

use vstd::prelude::*;
use crate::gfx::{Rect, Res, TILE_NUMBER_HEIGHT, TILE_NUMBER_WIDTH, TOOLBAR_BUTTON_HEIGHT,
    TOOLBAR_BUTTON_WIDTH, TOOLBAR_NUMBER_WIDTH, TOOLBAR_UNDO_REDO_WIDTH};
use crate::input::{Brush, Widget, WidgetType};

verus! {

/// The width of the toolbar without the label, unscaled: a margin, undo,
/// redo, the two brushes, nine numbers that overlap by a pixel, a margin.
pub const MIN_TOOLBAR_WIDTH: u32 = 244;

pub const DEFAULT_SCREEN_WIDTH: u32 = 640;

pub const DEFAULT_SCREEN_HEIGHT: u32 = 400;

pub const MIN_SCREEN_WIDTH: u32 = MIN_TOOLBAR_WIDTH;

pub const MIN_SCREEN_HEIGHT: u32 = 200;

/// The distance from one tile to the next, unscaled.
pub const BOARD_SPACING: u32 = 19;

/// The width and the height of the board, unscaled: nine tiles and the
/// last line.
pub const BOARD_SIZE: u32 = 173;

/// The width of the toolbar with the label, unscaled.
pub const TOOLBAR_WIDTH: u32 = 300;

/// The height of the toolbar, unscaled.
pub const TOOLBAR_HEIGHT: u32 = 15;

/// The distance from one number button to the next, unscaled.
pub const TOOLBAR_SPACING: u32 = 12;

/// From the top of the buttons to the bottom of the window, unscaled.
pub const BUTTON_RISE: u32 = 12;

/// From the left margin past the label to the undo button, unscaled.
pub const LABEL_SPAN: u32 = 59;

/// From the undo button to the redo button, unscaled.
pub const UNDO_SPAN: u32 = 10;

/// From the redo button to where the brushes may begin, unscaled.
pub const REDO_SPAN: u32 = 12;

/// From the pencil button to the cross-out button, unscaled.
pub const BRUSH_SPAN: u32 = 55;

/// From the first number button to the right edge of the window, unscaled.
pub const NUMBERS_SPAN: u32 = 112;

/// The size of the window and the scales of the board and of the toolbar.
#[derive(Clone, Copy, PartialEq, Eq, Structural, Debug)]
pub struct ScreenSize {
    pub screen_w: u32,
    pub screen_h: u32,
    pub board_scale: u32,
    pub toolbar_scale: u32,
}

/// Whether a window of `screen_w` by `screen_h` has room for the board
/// above the toolbar, both unscaled.
pub open spec fn window_fits(screen_w: u32, screen_h: u32) -> bool {
    &&& BOARD_SIZE <= screen_w <= i32::MAX
    &&& BOARD_SIZE + TOOLBAR_HEIGHT <= screen_h <= i32::MAX
}

/// The larger of `a` and `b`.
pub open spec fn max_of(a: int, b: int) -> int {
    if a >= b {
        a
    } else {
        b
    }
}

/// The smaller of `a` and `b`.
pub open spec fn min_of(a: int, b: int) -> int {
    if a <= b {
        a
    } else {
        b
    }
}

/// The scale of the toolbar: the largest whole factor at which the toolbar
/// with its label is no wider than the window and leaves the unscaled
/// board room above it; at least 1.
pub open spec fn toolbar_scale_of(screen_w: u32, screen_h: u32) -> int {
    max_of(
        1,
        min_of(
            screen_w as int / TOOLBAR_WIDTH as int,
            (screen_h - BOARD_SIZE) / TOOLBAR_HEIGHT as int,
        ),
    )
}

/// The scale of the board: the largest whole factor at which the board is
/// no wider than the window and fits above the scaled toolbar; at least 1.
pub open spec fn board_scale_of(screen_w: u32, screen_h: u32) -> int {
    max_of(
        1,
        min_of(
            screen_w as int / BOARD_SIZE as int,
            (screen_h - toolbar_scale_of(screen_w, screen_h) * TOOLBAR_HEIGHT) / BOARD_SIZE as int,
        ),
    )
}

/// The layout for a window of `screen_w` by `screen_h`.
pub open spec fn layout_of(screen_w: u32, screen_h: u32) -> ScreenSize {
    ScreenSize {
        screen_w,
        screen_h,
        board_scale: board_scale_of(screen_w, screen_h) as u32,
        toolbar_scale: toolbar_scale_of(screen_w, screen_h) as u32,
    }
}

impl ScreenSize {
    /// Whether the scaled board and toolbar have room in the window.
    pub open spec fn wf(self) -> bool {
        &&& 1 <= self.board_scale
        &&& 1 <= self.toolbar_scale
        &&& self.screen_w <= i32::MAX
        &&& self.screen_h <= i32::MAX
        &&& self.board_scale * BOARD_SIZE <= self.screen_w
        &&& self.toolbar_scale * NUMBERS_SPAN <= self.screen_w
        &&& self.toolbar_scale * TOOLBAR_HEIGHT + self.board_scale * BOARD_SIZE <= self.screen_h
    }

    /// Whether the toolbar has room for the label.
    pub open spec fn label_visible(self) -> bool {
        self.screen_w >= self.toolbar_scale * TOOLBAR_WIDTH
    }

    /// The top edge of the buttons of the toolbar.
    pub open spec fn toolbar_y(self) -> int {
        self.screen_h - self.toolbar_scale * BUTTON_RISE
    }

    /// The left edge of the undo button: after the label, or at the margin.
    pub open spec fn undo_x(self) -> int {
        if self.label_visible() {
            self.toolbar_scale * LABEL_SPAN
        } else {
            3
        }
    }

    /// The left edge of the redo button.
    pub open spec fn redo_x(self) -> int {
        self.undo_x() + self.toolbar_scale * UNDO_SPAN
    }

    /// The left edge of the first number button: the numbers end at the
    /// right margin.
    pub open spec fn numbers_x(self) -> int {
        self.screen_w - self.toolbar_scale * NUMBERS_SPAN
    }

    /// The left edge of the cross-out button: the two brushes meet half
    /// way between redo and the numbers.
    pub open spec fn cross_out_x(self) -> int {
        (self.redo_x() + self.toolbar_scale * REDO_SPAN + self.numbers_x()) / 2
    }

    /// The left edge of the pencil button.
    pub open spec fn pencil_x(self) -> int {
        self.cross_out_x() - self.toolbar_scale * BRUSH_SPAN
    }

    /// The left edge of the board, which is centred in the window.
    pub open spec fn board_x(self) -> int {
        (self.screen_w - self.board_scale * BOARD_SIZE) / 2
    }

    /// The top edge of the board, which is centred above the toolbar.
    pub open spec fn board_y(self) -> int {
        (self.screen_h - self.toolbar_scale * TOOLBAR_HEIGHT - self.board_scale * BOARD_SIZE) / 2
    }

    /// A button of the toolbar with its left edge at `x`, `w` wide unscaled.
    pub open spec fn button(self, x: int, w: int) -> Rect {
        Rect {
            x: x as i32,
            y: self.toolbar_y() as i32,
            w: (self.toolbar_scale * w) as u32,
            h: (self.toolbar_scale * TOOLBAR_BUTTON_HEIGHT) as u32,
        }
    }

    /// The place of the label.
    pub open spec fn label_widget(self) -> Widget {
        Widget {
            mode: WidgetType::Label,
            rect: self.button(self.toolbar_scale * 3, TOOLBAR_BUTTON_WIDTH as int),
        }
    }

    /// The place of the undo button.
    pub open spec fn undo_widget(self) -> Widget {
        Widget {
            mode: WidgetType::Undo,
            rect: self.button(self.undo_x(), TOOLBAR_UNDO_REDO_WIDTH as int),
        }
    }

    /// The place of the redo button.
    pub open spec fn redo_widget(self) -> Widget {
        Widget {
            mode: WidgetType::Redo,
            rect: self.button(self.redo_x(), TOOLBAR_UNDO_REDO_WIDTH as int),
        }
    }

    /// The place of the pencil button.
    pub open spec fn pencil_widget(self) -> Widget {
        Widget {
            mode: WidgetType::ToolbarBrush(
                Brush::Pencil,
                Res::ToolbarActivePencil,
                Res::ToolbarInactivePencil,
            ),
            rect: self.button(self.pencil_x(), TOOLBAR_BUTTON_WIDTH as int),
        }
    }

    /// The place of the cross-out button.
    pub open spec fn cross_out_widget(self) -> Widget {
        Widget {
            mode: WidgetType::ToolbarBrush(
                Brush::CrossOut,
                Res::ToolbarActiveCrossOut,
                Res::ToolbarInactiveCrossOut,
            ),
            rect: self.button(self.cross_out_x(), TOOLBAR_BUTTON_WIDTH as int),
        }
    }

    /// The place of the tile in column `col` and row `row`.
    pub open spec fn tile_widget(self, col: int, row: int) -> Widget {
        Widget {
            mode: WidgetType::Tile(col as u8, row as u8),
            rect: Rect {
                x: (self.board_x() + self.board_scale * (3 + BOARD_SPACING * col)) as i32,
                y: (self.board_y() + self.board_scale * (3 + BOARD_SPACING * row)) as i32,
                w: (self.board_scale * TILE_NUMBER_WIDTH) as u32,
                h: (self.board_scale * TILE_NUMBER_HEIGHT) as u32,
            },
        }
    }

    /// The place of the button of the value `v`.
    pub open spec fn number_widget(self, v: int) -> Widget {
        Widget {
            mode: WidgetType::ToolbarNumber(v as u8),
            rect: self.button(
                self.numbers_x() + self.toolbar_scale * TOOLBAR_SPACING * (v - 1),
                TOOLBAR_NUMBER_WIDTH as int,
            ),
        }
    }

    /// The widgets of the toolbar that come before the tiles: the label
    /// where it has room, undo, redo, and the two brushes.
    pub open spec fn leading_widgets(self) -> Seq<Widget> {
        let buttons = seq![
            self.undo_widget(),
            self.redo_widget(),
            self.pencil_widget(),
            self.cross_out_widget(),
        ];
        if self.label_visible() {
            seq![self.label_widget()] + buttons
        } else {
            buttons
        }
    }

    /// The 81 tiles, row by row.
    pub open spec fn tile_widgets(self) -> Seq<Widget> {
        Seq::new(81, |i: int| self.tile_widget(i % 9, i / 9))
    }

    /// The nine number buttons.
    pub open spec fn number_widgets(self) -> Seq<Widget> {
        Seq::new(9, |i: int| self.number_widget(i + 1))
    }

    /// All the widgets, in the order in which they are drawn and looked up.
    pub open spec fn widgets(self) -> Seq<Widget> {
        self.leading_widgets() + self.tile_widgets() + self.number_widgets()
    }

    /// The horizontal line of the board above row `y`, or below the last row.
    pub open spec fn hline(self, y: int) -> Rect {
        Rect {
            x: self.board_x() as i32,
            y: (self.board_y() + self.board_scale * BOARD_SPACING * y) as i32,
            w: (self.board_scale * BOARD_SIZE) as u32,
            h: (self.board_scale * 2) as u32,
        }
    }

    /// The vertical line of the board left of column `x`, or right of the
    /// last column.
    pub open spec fn vline(self, x: int) -> Rect {
        Rect {
            x: (self.board_x() + self.board_scale * BOARD_SPACING * x) as i32,
            y: self.board_y() as i32,
            w: (self.board_scale * 2) as u32,
            h: (self.board_scale * BOARD_SIZE) as u32,
        }
    }

    /// The toolbar: the full width of the window, at its bottom.
    pub open spec fn toolbar(self) -> Rect {
        Rect {
            x: 0,
            y: (self.screen_h - self.toolbar_scale * TOOLBAR_HEIGHT) as i32,
            w: self.screen_w,
            h: (self.toolbar_scale * TOOLBAR_HEIGHT) as u32,
        }
    }
}

impl Rect {
    /// Whether the point `(x, y)` lies in the rectangle or on its edge.
    pub open spec fn touches(self, x: i32, y: i32) -> bool {
        &&& self.x <= x <= self.x + self.w
        &&& self.y <= y <= self.y + self.h
    }

    /// Whether the point `(x, y)` lies in the rectangle or on its edge.
    pub fn is_hit(&self, x: i32, y: i32) -> (r: bool)
        ensures
            r == self.touches(x, y),
    {
        self.x <= x && (x as i64) <= self.x as i64 + self.w as i64 && self.y <= y && (y as i64)
            <= self.y as i64 + self.h as i64
    }
}

/// The place in `widgets`, from `k` on, of the first widget that the point
/// `(x, y)` touches.
pub open spec fn first_hit(widgets: Seq<Widget>, x: i32, y: i32, k: int) -> Option<int>
    decreases widgets.len() - k,
{
    if k < 0 || k >= widgets.len() {
        None
    } else if widgets[k].rect.touches(x, y) {
        Some(k)
    } else {
        first_hit(widgets, x, y, k + 1)
    }
}

/// Whether a window of `screen_w` by `screen_h` has room for the board
/// above the toolbar, both unscaled.
pub fn fits_window(screen_w: u32, screen_h: u32) -> (r: bool)
    ensures
        r == window_fits(screen_w, screen_h),
{
    BOARD_SIZE <= screen_w && screen_w <= 0x7fff_ffff && BOARD_SIZE + TOOLBAR_HEIGHT <= screen_h
        && screen_h <= 0x7fff_ffff
}

/// The layout for a window of `screen_w` by `screen_h`.
pub fn calc_screen_size_and_scale(screen_w: u32, screen_h: u32) -> (s: ScreenSize)
    requires
        window_fits(screen_w, screen_h),
    ensures
        s == layout_of(screen_w, screen_h),
        s.wf(),
{
    let toolbar_x_scale: u32 = screen_w / TOOLBAR_WIDTH;
    let toolbar_y_scale: u32 = (screen_h - BOARD_SIZE) / TOOLBAR_HEIGHT;
    let toolbar_fit: u32 = if toolbar_x_scale <= toolbar_y_scale {
        toolbar_x_scale
    } else {
        toolbar_y_scale
    };
    let toolbar_scale: u32 = if toolbar_fit >= 1 {
        toolbar_fit
    } else {
        1
    };
    let board_x_scale: u32 = screen_w / BOARD_SIZE;
    let board_y_scale: u32 = (screen_h - toolbar_scale * TOOLBAR_HEIGHT) / BOARD_SIZE;
    let board_fit: u32 = if board_x_scale <= board_y_scale {
        board_x_scale
    } else {
        board_y_scale
    };
    let board_scale: u32 = if board_fit >= 1 {
        board_fit
    } else {
        1
    };
    ScreenSize { screen_w, screen_h, board_scale, toolbar_scale }
}

/// Whether the toolbar has room for the label.
pub fn is_sudoku_label_visible(size: ScreenSize) -> (r: bool)
    requires
        size.wf(),
    ensures
        r == size.label_visible(),
{
    size.screen_w as u64 >= size.toolbar_scale as u64 * TOOLBAR_WIDTH as u64
}

/// The left and the top edge of the board.
pub fn calc_board_xy(size: ScreenSize) -> (r: (i32, i32))
    requires
        size.wf(),
    ensures
        r.0 == size.board_x(),
        r.1 == size.board_y(),
{
    let x0: u32 = (size.screen_w - size.board_scale * BOARD_SIZE) / 2;
    let y0: u32 = (size.screen_h - size.toolbar_scale * TOOLBAR_HEIGHT - size.board_scale
        * BOARD_SIZE) / 2;
    (x0 as i32, y0 as i32)
}

/// All the widgets, in the order in which they are drawn and looked up:
/// the label where it has room, undo, redo, the two brushes, the 81 tiles
/// row by row, and the nine numbers.
pub fn make_widgets(size: ScreenSize) -> (ws: Vec<Widget>)
    requires
        size.wf(),
    ensures
        ws@ == size.widgets(),
{
    let mut ws: Vec<Widget> = Vec::new();
    let toolbar_scale = size.toolbar_scale;
    let board_scale = size.board_scale;
    let y: i32 = (size.screen_h - toolbar_scale * BUTTON_RISE) as i32;
    let label_visible = is_sudoku_label_visible(size);
    let x_undo: i32 = if label_visible {
        (toolbar_scale * LABEL_SPAN) as i32
    } else {
        3
    };
    let x_redo: i32 = x_undo + (toolbar_scale * UNDO_SPAN) as i32;
    let x_1: i32 = (size.screen_w - toolbar_scale * NUMBERS_SPAN) as i32;
    let x_crossout: i32 = (x_redo + (toolbar_scale * REDO_SPAN) as i32 + x_1) / 2;
    let x_pencil: i32 = x_crossout - (toolbar_scale * BRUSH_SPAN) as i32;
    let (board_x, board_y) = calc_board_xy(size);

    if label_visible {
        ws.push(
            Widget {
                mode: WidgetType::Label,
                rect: Rect {
                    x: (toolbar_scale * 3) as i32,
                    y,
                    w: toolbar_scale * TOOLBAR_BUTTON_WIDTH,
                    h: toolbar_scale * TOOLBAR_BUTTON_HEIGHT,
                },
            },
        );
    }
    ws.push(
        Widget {
            mode: WidgetType::Undo,
            rect: Rect {
                x: x_undo,
                y,
                w: toolbar_scale * TOOLBAR_UNDO_REDO_WIDTH,
                h: toolbar_scale * TOOLBAR_BUTTON_HEIGHT,
            },
        },
    );
    ws.push(
        Widget {
            mode: WidgetType::Redo,
            rect: Rect {
                x: x_redo,
                y,
                w: toolbar_scale * TOOLBAR_UNDO_REDO_WIDTH,
                h: toolbar_scale * TOOLBAR_BUTTON_HEIGHT,
            },
        },
    );
    ws.push(
        Widget {
            mode: WidgetType::ToolbarBrush(
                Brush::Pencil,
                Res::ToolbarActivePencil,
                Res::ToolbarInactivePencil,
            ),
            rect: Rect {
                x: x_pencil,
                y,
                w: toolbar_scale * TOOLBAR_BUTTON_WIDTH,
                h: toolbar_scale * TOOLBAR_BUTTON_HEIGHT,
            },
        },
    );
    ws.push(
        Widget {
            mode: WidgetType::ToolbarBrush(
                Brush::CrossOut,
                Res::ToolbarActiveCrossOut,
                Res::ToolbarInactiveCrossOut,
            ),
            rect: Rect {
                x: x_crossout,
                y,
                w: toolbar_scale * TOOLBAR_BUTTON_WIDTH,
                h: toolbar_scale * TOOLBAR_BUTTON_HEIGHT,
            },
        },
    );
    let ghost lead = ws@;

    let mut row: u32 = 0;
    while row < 9
        invariant
            size.wf(),
            row <= 9,
            board_scale == size.board_scale,
            board_x == size.board_x(),
            board_y == size.board_y(),
            ws@.len() == lead.len() + row * 9,
            ws@ =~= lead + size.tile_widgets().take(row * 9),
        decreases 9 - row,
    {
        let mut col: u32 = 0;
        while col < 9
            invariant
                size.wf(),
                row < 9,
                col <= 9,
                board_scale == size.board_scale,
                board_x == size.board_x(),
                board_y == size.board_y(),
                ws@.len() == lead.len() + row * 9 + col,
                ws@ =~= lead + size.tile_widgets().take(row * 9 + col),
            decreases 9 - col,
        {
            assert(board_scale * (3 + BOARD_SPACING * col) <= board_scale * 155)
                by (nonlinear_arith)
                requires
                    col <= 8,
                    board_scale >= 0,
            ;
            assert(board_scale * (3 + BOARD_SPACING * row) <= board_scale * 155)
                by (nonlinear_arith)
                requires
                    row <= 8,
                    board_scale >= 0,
            ;
            let x: i32 = board_x + (board_scale * (3 + BOARD_SPACING * col)) as i32;
            let y: i32 = board_y + (board_scale * (3 + BOARD_SPACING * row)) as i32;
            ws.push(
                Widget {
                    mode: WidgetType::Tile(col as u8, row as u8),
                    rect: Rect {
                        x,
                        y,
                        w: board_scale * TILE_NUMBER_WIDTH,
                        h: board_scale * TILE_NUMBER_HEIGHT,
                    },
                },
            );
            col += 1;
        }
        row += 1;
    }
    let ghost tiled = ws@;

    let mut v: u8 = 1;
    while v <= 9
        invariant
            size.wf(),
            1 <= v <= 10,
            toolbar_scale == size.toolbar_scale,
            x_1 == size.numbers_x(),
            y == size.toolbar_y(),
            tiled == lead + size.tile_widgets(),
            ws@.len() == tiled.len() + v - 1,
            ws@ =~= tiled + size.number_widgets().take(v - 1),
        decreases 10 - v,
    {
        assert(toolbar_scale * 12 * (v - 1) <= toolbar_scale * 96) by (nonlinear_arith)
            requires
                1 <= v <= 9,
                toolbar_scale >= 0,
        ;
        let x: i32 = x_1 + (toolbar_scale * TOOLBAR_SPACING * ((v - 1) as u32)) as i32;
        ws.push(
            Widget {
                mode: WidgetType::ToolbarNumber(v),
                rect: Rect {
                    x,
                    y,
                    w: toolbar_scale * TOOLBAR_NUMBER_WIDTH,
                    h: toolbar_scale * TOOLBAR_BUTTON_HEIGHT,
                },
            },
        );
        v += 1;
    }
    ws
}

/// The first of `widgets` that the point `(x, y)` touches.
pub fn find_widget(widgets: &Vec<Widget>, x: i32, y: i32) -> (r: Option<&Widget>)
    ensures
        r is Some <==> first_hit(widgets@, x, y, 0) is Some,
        r matches Some(w) ==> *w == widgets@[first_hit(widgets@, x, y, 0).unwrap()],
{
    let mut k: usize = 0;
    while k < widgets.len()
        invariant
            k <= widgets.len(),
            first_hit(widgets@, x, y, 0) == first_hit(widgets@, x, y, k as int),
        decreases widgets.len() - k,
    {
        if widgets[k].rect.is_hit(x, y) {
            return Some(&widgets[k]);
        }
        k += 1;
    }
    None
}

/// The horizontal line of the board above row `y`, or below the last row.
pub fn board_hline(size: ScreenSize, y: u32) -> (r: Rect)
    requires
        size.wf(),
        y <= 9,
    ensures
        r == size.hline(y as int),
{
    let scale = size.board_scale;
    let (board_x, board_y) = calc_board_xy(size);
    assert(scale * 19 * y <= scale * 171) by (nonlinear_arith)
        requires
            y <= 9,
            scale >= 0,
    ;
    Rect {
        x: board_x,
        y: board_y + (scale * BOARD_SPACING * y) as i32,
        w: scale * BOARD_SIZE,
        h: scale * 2,
    }
}

/// The vertical line of the board left of column `x`, or right of the last
/// column.
pub fn board_vline(size: ScreenSize, x: u32) -> (r: Rect)
    requires
        size.wf(),
        x <= 9,
    ensures
        r == size.vline(x as int),
{
    let scale = size.board_scale;
    let (board_x, board_y) = calc_board_xy(size);
    assert(scale * 19 * x <= scale * 171) by (nonlinear_arith)
        requires
            x <= 9,
            scale >= 0,
    ;
    Rect {
        x: board_x + (scale * BOARD_SPACING * x) as i32,
        y: board_y,
        w: scale * 2,
        h: scale * BOARD_SIZE,
    }
}

/// The toolbar: the full width of the window, at its bottom.
pub fn toolbar_rect(size: ScreenSize) -> (r: Rect)
    requires
        size.wf(),
    ensures
        r == size.toolbar(),
{
    Rect {
        x: 0,
        y: (size.screen_h - size.toolbar_scale * TOOLBAR_HEIGHT) as i32,
        w: size.screen_w,
        h: size.toolbar_scale * TOOLBAR_HEIGHT,
    }
}

/// How the offsets of two tiles in a row or a column compare: the tiles
/// lie in the board, and a later one begins after an earlier one has ended.
proof fn lemma_tile_offsets(scale: int, a: int, b: int)
    requires
        1 <= scale,
        0 <= a <= b <= 8,
    ensures
        0 <= scale * (3 + 19 * a),
        scale * (3 + 19 * b) + scale * 15 <= scale * 170,
        a < b ==> scale * (3 + 19 * a) + scale * 15 < scale * (3 + 19 * b),
{
    assert(0 <= scale * (3 + 19 * a)) by (nonlinear_arith)
        requires
            1 <= scale,
            0 <= a,
    ;
    assert(scale * (3 + 19 * b) + scale * 15 <= scale * 170) by (nonlinear_arith)
        requires
            1 <= scale,
            b <= 8,
    ;
    if a < b {
        assert(scale * (3 + 19 * a) + scale * 15 < scale * (3 + 19 * b)) by (nonlinear_arith)
            requires
                1 <= scale,
                0 <= a < b,
        ;
    }
}

/// Where the first `k` widgets are not touched and the next one is, that
/// one is the first hit.
proof fn lemma_first_hit_at(widgets: Seq<Widget>, x: i32, y: i32, k: int, from: int)
    requires
        0 <= from <= k < widgets.len(),
        forall|j: int| from <= j < k ==> !(#[trigger] widgets[j]).rect.touches(x, y),
        widgets[k].rect.touches(x, y),
    ensures
        first_hit(widgets, x, y, from) == Some(k),
    decreases k - from,
{
    if from < k {
        lemma_first_hit_at(widgets, x, y, k, from + 1);
    }
}

/// A point on a tile is looked up as that tile: the tiles lie apart from
/// each other and above the toolbar, so no widget that comes before the
/// tile is touched.
pub proof fn lemma_tile_is_hit(size: ScreenSize, col: int, row: int, x: i32, y: i32)
    requires
        size.wf(),
        0 <= col < 9,
        0 <= row < 9,
        size.tile_widget(col, row).rect.touches(x, y),
    ensures
        first_hit(size.widgets(), x, y, 0) matches Some(k) && size.widgets()[k] == size.tile_widget(
            col,
            row,
        ),
{
    let ws = size.widgets();
    let lead = size.leading_widgets();
    let scale = size.board_scale as int;
    let place = lead.len() + row * 9 + col;
    assert(ws[place] == size.tile_widgets()[row * 9 + col]);
    lemma_tile_offsets(scale, col, col);
    lemma_tile_offsets(scale, row, row);
    assert forall|j: int| 0 <= j < place implies !(#[trigger] ws[j]).rect.touches(x, y) by {
        if j < lead.len() {
        } else {
            let i = j - lead.len();
            let c = i % 9;
            let r = i / 9;
            lemma_tile_offsets(scale, c, c);
            lemma_tile_offsets(scale, r, r);
            if r < row {
                lemma_tile_offsets(scale, r, row);
            } else {
                lemma_tile_offsets(scale, c, col);
            }
        }
    }
    lemma_first_hit_at(ws, x, y, place, 0);
}

} // verus!
