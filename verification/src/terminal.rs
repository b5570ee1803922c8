//! The terminal that the program writes to.

use vstd::prelude::*;

verus! {

/// Calls `terminal_size::terminal_size`, which asks the operating system for
/// the size of the terminal behind standard output, standard error or
/// standard input. The answer is the number of columns and of rows, or
/// `None` where none of the three is a terminal. Nothing is claimed of it:
/// it changes with the window.
#[verifier::external_body]
pub(crate) fn terminal_dimensions() -> (size: Option<(u16, u16)>) {
    terminal_size::terminal_size().map(|(columns, rows)| (columns.0, rows.0))
}

} // verus!
