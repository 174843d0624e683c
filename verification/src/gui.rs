//! Moving through the grid byte by byte: one selected byte, moved by the
//! arrow keys or set by a click, and the edge to which its row is scrolled
//! when it has left the visible part.

use vstd::prelude::*;
use crate::app::{App, AppView, RowText, RowTextView};
use crate::grid::{lemma_row_extent, lemma_row_of, row_of};
use crate::row::{printable, printable_char};
use crate::step::{moved, step_by, step_down, step_up};

verus! {

/// The direction of the last move from row to row.
#[derive(Clone, Copy, Debug, PartialEq, Eq, Structural)]
pub enum VerticalMove {
    Up,
    Down,
}

/// The keys that move the selection; every other key is `Other`.
#[derive(Clone, Copy, Debug, PartialEq, Eq, Structural)]
pub enum NavKey {
    ArrowRight,
    ArrowLeft,
    ArrowDown,
    ArrowUp,
    Other,
}

/// A key event: the key, and whether it went down (`true`) or up.
#[derive(Clone, Copy, Debug, PartialEq, Eq, Structural)]
pub struct KeyPress {
    pub key: NavKey,
    pub pressed: bool,
}

/// The edge of the visible part to which a row is scrolled.
#[derive(Clone, Copy, Debug, PartialEq, Eq, Structural)]
pub enum ScrollAlign {
    Top,
    Bottom,
}

/// The grid with a selected byte.
pub struct HexGui {
    app: App,
    selected_offset: Option<usize>,
    debug: bool,
    last_vertical_move: Option<VerticalMove>,
}

/// What a `HexGui` holds.
pub struct HexGuiView {
    pub app: AppView,
    pub selected: Option<nat>,
    pub debug: bool,
    pub last_vertical_move: Option<VerticalMove>,
}

/// Whether the event moves the selection: an arrow key that went down.
pub open spec fn is_move(press: KeyPress) -> bool {
    press.pressed && press.key != NavKey::Other
}

/// By how many bytes a key moves the selection: one for left and right, a
/// row's width for up and down.
pub open spec fn key_delta(key: NavKey, stride: nat) -> int {
    match key {
        NavKey::ArrowRight => 1,
        NavKey::ArrowLeft => -1,
        NavKey::ArrowDown => stride as int,
        NavKey::ArrowUp => -(stride as int),
        NavKey::Other => 0,
    }
}

/// The vertical direction that a key records: none for left and right.
pub open spec fn key_direction(key: NavKey) -> Option<VerticalMove> {
    match key {
        NavKey::ArrowDown => Some(VerticalMove::Down),
        NavKey::ArrowUp => Some(VerticalMove::Up),
        _ => None,
    }
}

impl HexGuiView {
    /// The grid is well-formed, and a byte is selected exactly when the
    /// buffer has one: then the selection is one of its offsets.
    pub open spec fn wf(self) -> bool {
        &&& self.app.wf()
        &&& self.selected is None <==> self.app.bytes.len() == 0
        &&& self.selected matches Some(offset) ==> offset < self.app.bytes.len()
    }

    /// The selection moved by `delta` bytes and held to the buffer; without
    /// bytes there is none. Where none was selected the move starts at 0.
    pub open spec fn moved_by(self, delta: int) -> HexGuiView {
        HexGuiView {
            selected: if self.app.bytes.len() == 0 {
                None
            } else {
                Some(
                    moved(
                        match self.selected {
                            Some(offset) => offset,
                            None => 0,
                        },
                        delta,
                        (self.app.bytes.len() - 1) as nat,
                    ),
                )
            },
            ..self
        }
    }

    /// The state after one key event: an arrow key that went down moves the
    /// selection and records its vertical direction; nothing else has an effect.
    pub open spec fn after_key(self, press: KeyPress) -> HexGuiView {
        if is_move(press) {
            HexGuiView {
                last_vertical_move: key_direction(press.key),
                ..self.moved_by(key_delta(press.key, self.app.bytes_per_row))
            }
        } else {
            self
        }
    }

    /// The state after the key events, taken in order.
    pub open spec fn after_keys(self, events: Seq<KeyPress>) -> HexGuiView
        decreases events.len(),
    {
        if events.len() == 0 {
            self
        } else {
            self.after_keys(events.drop_last()).after_key(events.last())
        }
    }

    /// The state after a click on the byte at `offset`.
    pub open spec fn clicked(self, offset: nat) -> HexGuiView {
        HexGuiView { selected: Some(offset), last_vertical_move: None, ..self }
    }

    /// Whether the selected byte is one of the row's.
    pub open spec fn row_contains_selected(self, row: RowTextView) -> bool {
        match self.selected {
            Some(offset) => row.offset <= offset < row.offset + row.bytes.len(),
            None => false,
        }
    }

    /// The edge to which `row` is scrolled. Nothing is done unless the keys
    /// moved the selection, the row holds it, and the row reaches past the
    /// upper edge of the visible part (`above`) or past its lower edge
    /// (`below`). Then the row goes to the edge in the direction of the last
    /// vertical move; without one, to the top if it reaches past the upper
    /// edge, else to the bottom.
    pub open spec fn alignment(
        self,
        row: RowTextView,
        keyboard_moved: bool,
        above: bool,
        below: bool,
    ) -> Option<ScrollAlign> {
        if keyboard_moved && self.row_contains_selected(row) && (above || below) {
            match self.last_vertical_move {
                Some(VerticalMove::Up) => Some(ScrollAlign::Top),
                Some(VerticalMove::Down) => Some(ScrollAlign::Bottom),
                None => if above {
                    Some(ScrollAlign::Top)
                } else {
                    Some(ScrollAlign::Bottom)
                },
            }
        } else {
            None
        }
    }
}

/// The selection never leaves the buffer: whatever keys are pressed, a byte
/// of the buffer is selected afterwards, and none exactly when it is empty.
pub proof fn lemma_selection_in_range(gui: HexGuiView, events: Seq<KeyPress>)
    requires
        gui.wf(),
    ensures
        gui.after_keys(events).wf(),
        gui.after_keys(events).app == gui.app,
        gui.after_keys(events).debug == gui.debug,
    decreases events.len(),
{
    if events.len() > 0 {
        lemma_selection_in_range(gui, events.drop_last());
    }
}

/// The row that holds the selection: among the rows of the grid, the row
/// `offset / bytes_per_row` of the selected offset, and no other.
pub proof fn lemma_selected_row(gui: HexGuiView, row: nat)
    requires
        gui.wf(),
        gui.selected is Some,
        row < gui.app.total_rows(),
    ensures
        row_of(gui.selected->0, gui.app.bytes_per_row) < gui.app.total_rows(),
        gui.row_contains_selected(gui.app.row(row)) <==> row == row_of(
            gui.selected->0,
            gui.app.bytes_per_row,
        ),
{
    lemma_row_of(gui.app.bytes.len(), gui.app.bytes_per_row, gui.selected->0, row);
    lemma_row_extent(gui.app.bytes.len(), gui.app.bytes_per_row, row);
}

/// A move leaves a byte of the buffer selected, wherever it started and
/// however far it goes.
pub proof fn lemma_move_in_range(gui: HexGuiView, delta: int)
    requires
        gui.app.wf(),
    ensures
        gui.moved_by(delta).wf(),
        gui.app.bytes.len() > 0 ==> gui.moved_by(delta).selected is Some,
        gui.app.bytes.len() == 0 ==> gui.moved_by(delta).selected is None,
{
}

impl View for HexGui {
    type V = HexGuiView;

    closed spec fn view(&self) -> HexGuiView {
        HexGuiView {
            app: self.app@,
            selected: match self.selected_offset {
                Some(offset) => Some(offset as nat),
                None => None,
            },
            debug: self.debug,
            last_vertical_move: self.last_vertical_move,
        }
    }
}

impl HexGui {
    /// Every selection is well-formed: see `HexGuiView::wf`.
    #[verifier::type_invariant]
    pub open spec fn wf(&self) -> bool {
        self@.wf()
    }

    /// A selection over `app`: on its first byte, or none for an empty buffer.
    pub fn new(app: App, debug: bool) -> (gui: Self)
        ensures
            gui.wf(),
            gui@ == (HexGuiView {
                app: app@,
                selected: if app@.bytes.len() > 0 { Some(0nat) } else { None },
                debug,
                last_vertical_move: None,
            }),
    {
        proof {
            use_type_invariant(&app);
        }
        let initial_selection: Option<usize> = if app.bytes_len() > 0 { Some(0) } else { None };
        HexGui { app, selected_offset: initial_selection, debug, last_vertical_move: None }
    }

    /// The grid.
    pub fn app(&self) -> (app: &App)
        ensures
            app@ == self@.app,
    {
        &self.app
    }

    /// The offset of the selected byte.
    pub fn selected_offset(&self) -> (selected: Option<usize>)
        ensures
            selected matches Some(offset) ==> self@.selected == Some(offset as nat),
            selected is None ==> self@.selected is None,
    {
        self.selected_offset
    }

    /// The direction of the last move from row to row, if the last move was one.
    pub fn last_vertical_move(&self) -> (direction: Option<VerticalMove>)
        ensures
            direction == self@.last_vertical_move,
    {
        self.last_vertical_move
    }

    /// Whether the moves are to be logged.
    pub fn debug(&self) -> (debug: bool)
        ensures
            debug == self@.debug,
    {
        self.debug
    }

    /// Whether the byte at `offset` is the selected one.
    pub fn is_selected(&self, offset: usize) -> (selected: bool)
        ensures
            selected == (self@.selected == Some(offset as nat)),
    {
        match self.selected_offset {
            Some(current) => current == offset,
            None => false,
        }
    }

    /// Selects the byte at `offset`, a byte of the buffer.
    pub fn select(&mut self, offset: usize)
        requires
            offset < old(self)@.app.bytes.len(),
        ensures
            final(self).wf(),
            final(self)@ == (HexGuiView { selected: Some(offset as nat), ..old(self)@ }),
    {
        proof {
            use_type_invariant(&*self);
        }
        self.selected_offset = Some(offset);
    }

    /// A click on the byte at `offset`, a byte of the buffer: it is selected,
    /// and the direction of the last vertical move is forgotten.
    pub fn click(&mut self, offset: usize)
        requires
            offset < old(self)@.app.bytes.len(),
        ensures
            final(self).wf(),
            final(self)@ == old(self)@.clicked(offset as nat),
    {
        proof {
            use_type_invariant(&*self);
        }
        self.select(offset);
        self.last_vertical_move = None;
    }

    /// Moves the selection by `delta` bytes, back for a negative `delta`, and
    /// stops at the first and at the last byte.
    pub fn move_selection_by(&mut self, delta: isize)
        ensures
            final(self).wf(),
            final(self)@ == old(self)@.moved_by(delta as int),
    {
        proof {
            use_type_invariant(&*self);
        }
        let len: usize = self.app.bytes_len();
        if len == 0 {
            self.selected_offset = None;
            return ;
        }
        let current: usize = match self.selected_offset {
            Some(offset) => offset,
            None => 0,
        };
        self.selected_offset = Some(step_by(current, delta, len - 1));
    }

    /// Moves the selection by `amount` bytes, forward or back, and stops at
    /// the first and at the last byte.
    fn shift_selection(&mut self, forward: bool, amount: usize)
        ensures
            final(self).wf(),
            final(self)@ == old(self)@.moved_by(
                if forward { amount as int } else { -(amount as int) },
            ),
    {
        proof {
            use_type_invariant(&*self);
        }
        let len: usize = self.app.bytes_len();
        if len == 0 {
            self.selected_offset = None;
            return ;
        }
        let current: usize = match self.selected_offset {
            Some(offset) => offset,
            None => 0,
        };
        let next: usize = if forward {
            step_up(current, amount, len - 1)
        } else {
            step_down(current, amount, len - 1)
        };
        self.selected_offset = Some(next);
    }

    /// Takes the key events of one frame in order. Each arrow key that went
    /// down moves the selection, by one byte or by one row, and records its
    /// vertical direction. Says whether any of them did.
    pub fn handle_keyboard_navigation(&mut self, events: &Vec<KeyPress>) -> (any_move: bool)
        ensures
            final(self).wf(),
            final(self)@ == old(self)@.after_keys(events@),
            any_move == exists|i: int| 0 <= i < events@.len() && is_move(#[trigger] events@[i]),
    {
        proof {
            use_type_invariant(&*self);
        }
        let stride: usize = self.app.bytes_per_row();
        let mut any_move = false;
        let mut i: usize = 0;
        while i < events.len()
            invariant
                i <= events@.len(),
                self.wf(),
                stride == self@.app.bytes_per_row,
                self@ == old(self)@.after_keys(events@.take(i as int)),
                any_move == exists|j: int| 0 <= j < i && is_move(#[trigger] events@[j]),
            decreases events.len() - i,
        {
            let press = events[i];
            proof {
                assert(events@.take(i + 1).drop_last() =~= events@.take(i as int));
                assert(events@.take(i + 1).last() == press);
            }
            if press.pressed {
                match press.key {
                    NavKey::ArrowRight => {
                        self.shift_selection(true, 1);
                        self.last_vertical_move = None;
                        any_move = true;
                    },
                    NavKey::ArrowLeft => {
                        self.shift_selection(false, 1);
                        self.last_vertical_move = None;
                        any_move = true;
                    },
                    NavKey::ArrowDown => {
                        self.shift_selection(true, stride);
                        self.last_vertical_move = Some(VerticalMove::Down);
                        any_move = true;
                    },
                    NavKey::ArrowUp => {
                        self.shift_selection(false, stride);
                        self.last_vertical_move = Some(VerticalMove::Up);
                        any_move = true;
                    },
                    NavKey::Other => {},
                }
            }
            i += 1;
        }
        assert(events@.take(events@.len() as int) =~= events@);
        any_move
    }

    /// Whether the selected byte is one of the row's.
    pub fn row_contains_selected(&self, row: &RowText) -> (inside: bool)
        ensures
            inside == self@.row_contains_selected(row@),
    {
        match self.selected_offset {
            Some(offset) => offset >= row.offset && offset - row.offset < row.bytes.len(),
            None => false,
        }
    }

    /// The edge to which `row` is to be scrolled after this frame's keys, or
    /// `None` where it stays: see `HexGuiView::alignment`. `above` says that
    /// the row's top lies above the visible part, `below` that its bottom lies
    /// below it.
    pub fn scroll_alignment(
        &self,
        row: &RowText,
        keyboard_moved: bool,
        above: bool,
        below: bool,
    ) -> (align: Option<ScrollAlign>)
        ensures
            align == self@.alignment(row@, keyboard_moved, above, below),
    {
        if keyboard_moved && self.row_contains_selected(row) && (above || below) {
            match self.last_vertical_move {
                Some(VerticalMove::Up) => Some(ScrollAlign::Top),
                Some(VerticalMove::Down) => Some(ScrollAlign::Bottom),
                None => if above {
                    Some(ScrollAlign::Top)
                } else {
                    Some(ScrollAlign::Bottom)
                },
            }
        } else {
            None
        }
    }
}

/// What the ASCII column shows for `byte`, as a text of one character.
pub fn printable_ascii(byte: u8) -> (text: String)
    ensures
        text@ == seq![printable_char(byte)],
{
    let mut text = String::new();
    text.push(printable(byte));
    assert(text@ =~= seq![printable_char(byte)]);
    text
}

} // verus!
