//! The options that a session is started with.

use vstd::prelude::*;
use std::path::PathBuf;
use crate::step::clamp;

verus! {

/// `std::path::PathBuf`: an owned file path. Opaque here.
#[verifier::external_type_specification]
#[verifier::external_body]
pub struct ExPathBuf(PathBuf);

/// The fewest bytes that a row may show.
pub const MIN_BYTES_PER_ROW: usize = 8;

/// The most bytes that a row may show.
pub const MAX_BYTES_PER_ROW: usize = 32;

/// The options of a session.
pub struct Args {
    /// The file to show.
    pub path: PathBuf,
    /// The bytes to a row that were asked for.
    pub bytes_per_row: usize,
    /// Whether the windowed view is asked for.
    pub gui: bool,
    /// Whether moves are to be logged.
    pub debug: bool,
}

impl Args {
    /// The bytes to a row: what was asked for, held to the range from 8 to 32.
    pub fn clamped_bytes_per_row(&self) -> (width: usize)
        ensures
            width == clamp(
                self.bytes_per_row as int,
                MIN_BYTES_PER_ROW as int,
                MAX_BYTES_PER_ROW as int,
            ),
            MIN_BYTES_PER_ROW <= width <= MAX_BYTES_PER_ROW,
    {
        if self.bytes_per_row < MIN_BYTES_PER_ROW {
            MIN_BYTES_PER_ROW
        } else if self.bytes_per_row > MAX_BYTES_PER_ROW {
            MAX_BYTES_PER_ROW
        } else {
            self.bytes_per_row
        }
    }
}

} // verus!
