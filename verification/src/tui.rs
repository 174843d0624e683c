//! Moving through the grid row by row, as a terminal's keys ask for it.

use vstd::prelude::*;
use crate::app::{App, AppView};

verus! {

/// A key of the terminal: a character, one of the named keys that scroll or
/// leave, or any `Other`.
#[derive(Clone, Copy, Debug, PartialEq, Eq)]
pub enum Key {
    Char(char),
    Esc,
    Down,
    Up,
    PageDown,
    PageUp,
    Home,
    End,
    Other,
}

/// Whether the key ends the session: `q` or escape.
pub open spec fn quits(key: Key) -> bool {
    key == Key::Char('q') || key == Key::Esc
}

/// The grid after a key. Down or `j` scrolls one row down, up or `k` one row
/// up; page down or the space bar scrolls down by the rows of the view, page
/// up scrolls up by as many; home or `g` goes to the first row, end or `G` to
/// the last. Every other key leaves the grid as it is.
pub open spec fn after_key(grid: AppView, key: Key) -> AppView {
    match key {
        Key::Down | Key::Char('j') => grid.scrolled_by(1),
        Key::Up | Key::Char('k') => grid.scrolled_by(-1),
        Key::PageDown | Key::Char(' ') => grid.scrolled_by(grid.view_rows as int),
        Key::PageUp => grid.scrolled_by(-(grid.view_rows as int)),
        Key::Home | Key::Char('g') => grid.scrolled_to(0),
        Key::End | Key::Char('G') => grid.scrolled_to(grid.max_scroll()),
        _ => grid,
    }
}

/// Applies a key to the grid and says whether the session goes on: it ends
/// with `q` or escape, which leave the grid untouched.
pub fn handle_key(app: &mut App, key: Key) -> (go_on: bool)
    ensures
        final(app).wf(),
        go_on == !quits(key),
        final(app)@ == after_key(old(app)@, key),
{
    proof {
        use_type_invariant(&*app);
    }
    match key {
        Key::Char('q') | Key::Esc => {
            return false;
        },
        Key::Down | Key::Char('j') => app.scroll_rows(1),
        Key::Up | Key::Char('k') => app.scroll_rows(-1),
        Key::PageDown | Key::Char(' ') => {
            let rows: usize = app.view_rows();
            app.scroll_by(true, rows)
        },
        Key::PageUp => {
            let rows: usize = app.view_rows();
            app.scroll_by(false, rows)
        },
        Key::Home | Key::Char('g') => app.scroll_to_start(),
        Key::End | Key::Char('G') => app.scroll_to_end(),
        _ => {},
    }
    true
}

} // verus!
