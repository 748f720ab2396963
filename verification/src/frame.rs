use vstd::prelude::*;

verus! {

/// A rectangular sub-region of the display grid; `end_row` and `end_col`
/// are exclusive.
#[derive(Clone, Copy)]
pub struct Frame {
    pub start_row: u16,
    pub start_col: u16,
    pub end_row: u16,
    pub end_col: u16,
}

impl Frame {
    /// True when the frame has at least one cell: both sides are non-empty.
    pub open spec fn wf(self) -> bool {
        self.start_row < self.end_row && self.start_col < self.end_col
    }

    /// Number of grid rows the frame covers.
    pub open spec fn height(self) -> int {
        self.end_row - self.start_row
    }

    /// Number of grid columns the frame covers.
    pub open spec fn width(self) -> int {
        self.end_col - self.start_col
    }

    pub fn new(start_row: u16, start_col: u16, end_row: u16, end_col: u16) -> (f: Frame)
        ensures
            f.start_row == start_row,
            f.start_col == start_col,
            f.end_row == end_row,
            f.end_col == end_col,
    {
        Frame { start_row, start_col, end_row, end_col }
    }
}

} // verus!
