//! Source positions for tokens and diagnostics.

use vstd::prelude::*;

verus! {

/// A row/column position in the source text.
#[derive(Clone, Copy, Debug, PartialEq, Eq, Structural)]
pub struct Location {
    pub row: usize,
    pub column: usize,
}

impl Location {
    pub fn new(row: usize, column: usize) -> (r: Location)
        ensures
            r.row == row,
            r.column == column,
    {
        Location { row, column }
    }

    /// Move to the start of the next line; the row saturates at its maximum.
    pub fn new_line(&mut self)
        ensures
            final(self).row == (if old(self).row == usize::MAX {
                usize::MAX
            } else {
                (old(self).row + 1) as usize
            }),
            final(self).column == 0,
    {
        if self.row < usize::MAX {
            self.row = self.row + 1;
        }
        self.column = 0;
    }

    /// Move one column to the right; the column saturates at its maximum.
    pub fn go_right(&mut self)
        ensures
            final(self).row == old(self).row,
            final(self).column == (if old(self).column == usize::MAX {
                usize::MAX
            } else {
                (old(self).column + 1) as usize
            }),
    {
        if self.column < usize::MAX {
            self.column = self.column + 1;
        }
    }
}

impl Default for Location {
    fn default() -> (r: Location)
        ensures
            r.row == 0,
            r.column == 0,
    {
        Location { row: 0, column: 0 }
    }
}

} // verus!
