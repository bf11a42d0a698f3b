//! The size of the terminal as the pager sees it.

use vstd::prelude::*;

verus! {

/// Width and height of the usable screen.
#[derive(Debug)]
pub struct Size {
    pub width: u16,
    pub height: u16,
}

impl Size {
    /// The usable screen of a terminal of `columns` × `rows`: two rows are
    /// kept for the prompt, so the height is `rows - 2`, and zero on a
    /// terminal of fewer rows.
    pub fn from_terminal(columns: u16, rows: u16) -> (s: Size)
        ensures
            s.width == columns,
            s.height == if rows >= 2 { rows - 2 } else { 0 },
    {
        Size { width: columns, height: rows.saturating_sub(2) }
    }
}

} // verus!
