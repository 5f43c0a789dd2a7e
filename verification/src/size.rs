//! The dimensions of a terminal.

use vstd::prelude::*;

verus! {

/// Dimensions of a PTY window.
#[derive(Debug, Clone, Copy, PartialEq, Eq, Structural)]
pub struct PtySize {
    /// Number of columns (width in characters).
    pub cols: u16,
    /// Number of rows (height in characters).
    pub rows: u16,
}

impl Default for PtySize {
    /// A window of 80 columns and 24 rows.
    fn default() -> (size: Self)
        ensures
            size == (PtySize { cols: 80, rows: 24 }),
    {
        Self { cols: 80, rows: 24 }
    }
}

} // verus!
