//! A hex viewer's core: a byte buffer shown as fixed-width rows of
//! hexadecimal values with an ASCII column, the scroll position over those
//! rows, and the two ways of moving through them (by row, by selected byte).

pub mod app;
pub mod args;
pub mod grid;
pub mod gui;
pub mod hex;
pub mod row;
pub mod step;
pub mod text;
pub mod tui;
