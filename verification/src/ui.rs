//! The window's side of the game: the selection, the layout, when to draw,
//! and what an event asks for.

use vstd::prelude::*;
use crate::action::SudokuAction;
use crate::board::Board;
use crate::grid::Grid;
use crate::input::{GuiState, Key, Widget, WidgetType};
use crate::layout::{ScreenSize, DEFAULT_SCREEN_HEIGHT, DEFAULT_SCREEN_WIDTH, layout_of,
    window_fits, first_hit, calc_screen_size_and_scale, make_widgets, find_widget,
    lemma_tile_is_hit};
use crate::scene::{DrawOp, scene_ops, widget_ok, draw_scene};

verus! {

/// The milliseconds from one drawing to the next.
pub const FRAME_MS: u32 = 16;

/// What happened at the window.
pub enum Event {
    /// The window was asked to close.
    Quit,
    /// The window has a new width and height.
    Resized(u32, u32),
    /// A key went down.
    KeyDown(Key),
    /// The left button went down at a point.
    LeftDown(i32, i32),
    /// The right button went down at a point.
    RightDown(i32, i32),
    /// The back button of the mouse went down.
    BackDown,
    /// The forward button of the mouse went down.
    ForwardDown,
    /// The wheel moved.
    Wheel(i32),
    /// A file was dropped on the window.
    DropFile(String),
    /// Anything else.
    Other,
}

/// The window's side of the game as a mathematical value.
pub struct UiView {
    pub state: GuiState,
    pub widgets: Seq<Widget>,
    pub screen_size: ScreenSize,
    /// Whether the window is due to be drawn.
    pub redraw: bool,
    /// When the window was last drawn, in milliseconds.
    pub last_redraw: u32,
    /// The size that the window has taken since it was last laid out.
    pub resize: Option<(u32, u32)>,
}

/// The first of `widgets` that the point `(x, y)` touches.
pub open spec fn hit_widget(widgets: Seq<Widget>, x: i32, y: i32) -> Option<Widget> {
    match first_hit(widgets, x, y, 0) {
        Some(k) => Some(widgets[k]),
        None => None,
    }
}

impl UiView {
    /// The invariant: the widgets are those of the layout, the layout has
    /// room in its window, and so has a size that is yet to be taken up.
    pub open spec fn wf(self) -> bool {
        &&& self.screen_size.wf()
        &&& self.widgets == self.screen_size.widgets()
        &&& (self.resize matches Some((w, h)) ==> window_fits(w, h))
    }

    /// The start: the default window, due to be drawn.
    pub open spec fn initial() -> UiView {
        let size = layout_of(DEFAULT_SCREEN_WIDTH, DEFAULT_SCREEN_HEIGHT);
        UiView {
            state: GuiState::initial(),
            widgets: size.widgets(),
            screen_size: size,
            redraw: true,
            last_redraw: 0,
            resize: None,
        }
    }

    /// Whether, at the time `ticks`, a frame has passed since the last drawing.
    pub open spec fn is_due(self, ticks: u32) -> bool {
        ticks >= self.last_redraw + FRAME_MS
    }

    /// This value with another selection.
    pub open spec fn with_state(self, state: GuiState) -> UiView {
        UiView {
            state,
            widgets: self.widgets,
            screen_size: self.screen_size,
            redraw: self.redraw,
            last_redraw: self.last_redraw,
            resize: self.resize,
        }
    }

    /// This value after `event`: a new size is noted for the next drawing;
    /// a key, a left click on a widget and the wheel change the selection.
    pub open spec fn after_event(self, event: Event) -> UiView {
        match event {
            Event::Resized(w, h) => UiView {
                state: self.state,
                widgets: self.widgets,
                screen_size: self.screen_size,
                redraw: self.redraw,
                last_redraw: self.last_redraw,
                resize: Some((w, h)),
            },
            Event::KeyDown(key) => self.with_state(self.state.after_key(key)),
            Event::LeftDown(x, y) => match hit_widget(self.widgets, x, y) {
                Some(widget) => self.with_state(self.state.after_click(widget.mode)),
                None => self,
            },
            Event::Wheel(delta) => self.with_state(self.state.after_wheel(delta)),
            _ => self,
        }
    }

    /// What `event` asks for.
    pub open spec fn event_action(self, event: Event) -> SudokuAction {
        match event {
            Event::Quit => SudokuAction::Quit,
            Event::KeyDown(key) => GuiState::key_action(key),
            Event::LeftDown(x, y) => match hit_widget(self.widgets, x, y) {
                Some(widget) => self.state.click_action(widget.mode),
                None => SudokuAction::NoOp,
            },
            Event::RightDown(x, y) => match hit_widget(self.widgets, x, y) {
                Some(widget) => GuiState::right_click_action(widget.mode),
                None => SudokuAction::NoOp,
            },
            Event::BackDown => SudokuAction::Undo,
            Event::ForwardDown => SudokuAction::Redo,
            Event::DropFile(filename) => SudokuAction::New(Some(filename)),
            _ => SudokuAction::NoOp,
        }
    }

    /// This value laid out for the size that the window has taken, if any.
    pub open spec fn relaid(self) -> UiView {
        match self.resize {
            Some((w, h)) => UiView {
                state: self.state,
                widgets: layout_of(w, h).widgets(),
                screen_size: layout_of(w, h),
                redraw: self.redraw,
                last_redraw: self.last_redraw,
                resize: None,
            },
            None => self,
        }
    }

    /// The steps that draw the window over the grid `g`.
    pub open spec fn scene(self, g: Grid) -> Seq<DrawOp> {
        scene_ops(self.screen_size, self.widgets, g, self.state)
    }
}

/// The window's side of the game.
pub struct Ui {
    state: GuiState,
    widgets: Vec<Widget>,
    screen_size: ScreenSize,
    redraw: bool,
    last_redraw: u32,
    resize: Option<(u32, u32)>,
}

impl View for Ui {
    type V = UiView;

    closed spec fn view(&self) -> UiView {
        UiView {
            state: self.state,
            widgets: self.widgets@,
            screen_size: self.screen_size,
            redraw: self.redraw,
            last_redraw: self.last_redraw,
            resize: self.resize,
        }
    }
}

/// Every tile of a layout that has room in its window has room to be drawn.
pub proof fn lemma_widgets_ok(size: ScreenSize)
    requires
        size.wf(),
    ensures
        forall|i: int|
            0 <= i < size.widgets().len() ==> widget_ok(
                size.board_scale,
                #[trigger] size.widgets()[i],
            ),
{
    let lead = size.leading_widgets();
    let scale = size.board_scale;
    assert forall|i: int| 0 <= i < size.widgets().len() implies widget_ok(
        scale,
        #[trigger] size.widgets()[i],
    ) by {
        if lead.len() <= i < lead.len() + 81 {
            let k = i - lead.len();
            let col = k % 9;
            let row = k / 9;
            assert(scale * (3 + 19 * col) <= scale * 155 && scale * (3 + 19 * col) >= 0)
                by (nonlinear_arith)
                requires
                    0 <= col <= 8,
                    scale >= 0,
            ;
            assert(scale * (3 + 19 * row) <= scale * 155 && scale * (3 + 19 * row) >= 0)
                by (nonlinear_arith)
                requires
                    0 <= row <= 8,
                    scale >= 0,
            ;
        }
    }
}

/// A click on a tile reaches that tile: the left button asks for the
/// move of the selected brush with the selected value there and leaves
/// the selection as it is, the right button asks to clear the tile.
pub proof fn lemma_click_on_tile(ui: UiView, col: int, row: int, x: i32, y: i32)
    requires
        ui.wf(),
        0 <= col < 9,
        0 <= row < 9,
        ui.screen_size.tile_widget(col, row).rect.touches(x, y),
    ensures
        ui.event_action(Event::LeftDown(x, y)) == ui.state.click_action(
            WidgetType::Tile(col as u8, row as u8),
        ),
        ui.event_action(Event::RightDown(x, y)) == SudokuAction::UnassignValue(
            col as u8,
            row as u8,
        ),
        ui.after_event(Event::LeftDown(x, y)) == ui,
        ui.after_event(Event::RightDown(x, y)) == ui,
{
    lemma_tile_is_hit(ui.screen_size, col, row, x, y);
}

impl Ui {
    /// The invariant of the window's side.
    pub open spec fn wf(&self) -> bool {
        self@.wf()
    }

    /// The start: the default window, due to be drawn.
    pub fn new() -> (ui: Ui)
        ensures
            ui.wf(),
            ui@ == UiView::initial(),
    {
        let screen_size = calc_screen_size_and_scale(DEFAULT_SCREEN_WIDTH, DEFAULT_SCREEN_HEIGHT);
        Ui {
            state: GuiState::new(),
            widgets: make_widgets(screen_size),
            screen_size,
            redraw: true,
            last_redraw: 0,
            resize: None,
        }
    }

    /// The selection.
    pub fn state(&self) -> (s: GuiState)
        ensures
            s == self@.state,
    {
        self.state
    }

    /// The layout.
    pub fn screen_size(&self) -> (s: ScreenSize)
        ensures
            s == self@.screen_size,
    {
        self.screen_size
    }

    /// The widgets.
    pub fn widgets(&self) -> (ws: &Vec<Widget>)
        ensures
            ws@ == self@.widgets,
    {
        &self.widgets
    }

    /// Says how long to wait for an event at the time `ticks`: not at
    /// all once a frame has passed since the last drawing, in which case
    /// the window becomes due to be drawn; else until the frame has passed.
    pub fn poll(&mut self, ticks: u32) -> (timeout: Option<u32>)
        requires
            old(self)@.last_redraw + FRAME_MS <= u32::MAX,
        ensures
            old(self)@.is_due(ticks) ==> timeout is None && final(self)@ == (UiView {
                redraw: true,
                ..old(self)@
            }),
            !old(self)@.is_due(ticks) ==> timeout == Some(
                (old(self)@.last_redraw + FRAME_MS - ticks) as u32,
            ) && final(self)@ == old(self)@,
    {
        if ticks >= self.last_redraw + FRAME_MS {
            self.redraw = true;
            None
        } else {
            Some(self.last_redraw + FRAME_MS - ticks)
        }
    }

    /// Takes note of `event`, and says what it asks for.
    pub fn on_event(&mut self, event: Event) -> (a: SudokuAction)
        requires
            old(self).wf(),
            event matches Event::Resized(w, h) ==> window_fits(w, h),
        ensures
            final(self).wf(),
            final(self)@ == old(self)@.after_event(event),
            a == old(self)@.event_action(event),
    {
        match event {
            Event::Quit => SudokuAction::Quit,
            Event::Resized(w, h) => {
                self.resize = Some((w, h));
                SudokuAction::NoOp
            },
            Event::KeyDown(key) => self.state.on_key_down(key),
            Event::LeftDown(x, y) => match find_widget(&self.widgets, x, y) {
                Some(widget) => {
                    let widget = *widget;
                    self.state.on_lmb(&widget)
                },
                None => SudokuAction::NoOp,
            },
            Event::RightDown(x, y) => match find_widget(&self.widgets, x, y) {
                Some(widget) => {
                    let widget = *widget;
                    self.state.on_rmb(&widget)
                },
                None => SudokuAction::NoOp,
            },
            Event::BackDown => SudokuAction::Undo,
            Event::ForwardDown => SudokuAction::Redo,
            Event::Wheel(delta) => {
                self.state.on_wheel(delta);
                SudokuAction::NoOp
            },
            Event::DropFile(filename) => SudokuAction::New(Some(filename)),
            Event::Other => SudokuAction::NoOp,
        }
    }

    /// The steps that draw the window over `board`, if the window is due
    /// to be drawn. A size that the window has taken is laid out first.
    pub fn frame(&mut self, board: &Board) -> (ops: Option<Vec<DrawOp>>)
        requires
            old(self).wf(),
        ensures
            final(self).wf(),
            !old(self)@.redraw ==> ops is None && final(self)@ == old(self)@,
            old(self)@.redraw ==> final(self)@ == old(self)@.relaid() && ops is Some
                && ops->0@ == final(self)@.scene(board@),
    {
        if !self.redraw {
            return None;
        }
        if let Some((new_w, new_h)) = self.resize {
            self.screen_size = calc_screen_size_and_scale(new_w, new_h);
            self.widgets = make_widgets(self.screen_size);
            self.resize = None;
        }
        proof {
            lemma_widgets_ok(self.screen_size);
        }
        Some(draw_scene(self.screen_size, &self.widgets, board, &self.state))
    }

    /// Takes note that the window was drawn at the time `ticks`.
    pub fn drawn(&mut self, ticks: u32)
        ensures
            final(self)@ == (UiView { redraw: false, last_redraw: ticks, ..old(self)@ }),
            old(self).wf() ==> final(self).wf(),
    {
        self.redraw = false;
        self.last_redraw = ticks;
    }
}

} // verus!
