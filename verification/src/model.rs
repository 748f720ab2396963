use vstd::prelude::*;

use crate::frame::Frame;

verus! {

/// The sentinel character that terminates every line of the document.
/// It is internal bookkeeping, never shown to the user and never produced
/// by user input.
pub open spec fn sentinel() -> char {
    '\0'
}

/// Mathematical state of a buffer: the document as a sequence of
/// sentinel-terminated lines, the cursor, the viewport scroll offsets,
/// and the file name the buffer was opened under.
pub struct BufModel {
    pub name: Seq<char>,
    pub data: Seq<Seq<char>>,
    pub row: int,
    pub col: int,
    pub row_off: int,
    pub col_off: int,
}

impl BufModel {
    /// Well-formedness: the document is never empty, every line ends in the
    /// sentinel (so every line is non-empty), the cursor addresses an
    /// existing line and a position no further than that line's sentinel,
    /// and the scroll offsets are non-negative.
    pub open spec fn wf(self) -> bool {
        &&& self.data.len() >= 1
        &&& forall|i: int|
            0 <= i < self.data.len() ==> #[trigger] self.data[i].len() >= 1
                && self.data[i].last() == sentinel()
        &&& 0 <= self.row < self.data.len()
        &&& 0 <= self.col < self.data[self.row].len()
        &&& self.row_off >= 0
        &&& self.col_off >= 0
    }

    /// The line the cursor is on.
    pub open spec fn cur_line(self) -> Seq<char> {
        self.data[self.row]
    }
}

/// Insert `c` immediately before the cursor column and advance the cursor
/// one column. The cursor never lands past the sentinel: before the insert
/// `col` is at most the sentinel's index, afterwards the line is one longer.
pub open spec fn insert_char_m(m: BufModel, c: char) -> BufModel {
    BufModel {
        data: m.data.update(m.row, m.cur_line().insert(m.col, c)),
        col: m.col + 1,
        ..m
    }
}

/// Backspace: with `col > 0`, remove the character just before the cursor
/// and move the cursor left; at column 0, merge the current line into the
/// line above instead.
pub open spec fn delete_char_m(m: BufModel) -> BufModel {
    if m.col > 0 {
        BufModel {
            data: m.data.update(m.row, m.cur_line().remove(m.col - 1)),
            col: m.col - 1,
            ..m
        }
    } else {
        join_line_m(m)
    }
}

/// Split the current line at the cursor: the tail from `col` on (sentinel
/// included) becomes a new line right below, the current line is truncated
/// at `col` and re-terminated, and the cursor moves to the start of the
/// new line.
pub open spec fn insert_nl_m(m: BufModel) -> BufModel {
    BufModel {
        data: m.data.update(m.row, m.cur_line().take(m.col).push(sentinel())).insert(
            m.row + 1,
            m.cur_line().skip(m.col),
        ),
        row: m.row + 1,
        col: 0,
        ..m
    }
}

/// Merge the current line into the line above: the line above loses its
/// sentinel and gains the current line wholesale; the current line leaves
/// the document; the cursor lands on the join point. On the first row
/// there is nothing above, so nothing happens.
pub open spec fn join_line_m(m: BufModel) -> BufModel {
    if m.row == 0 {
        m
    } else {
        let above = m.data[m.row - 1].drop_last();
        BufModel {
            data: m.data.update(m.row - 1, above + m.cur_line()).remove(m.row),
            row: m.row - 1,
            col: above.len() as int,
            ..m
        }
    }
}

/// Move the cursor up one row if one exists, clamping the column to the
/// new line's sentinel.
pub open spec fn move_up_m(m: BufModel) -> BufModel {
    if m.row > 0 {
        BufModel {
            row: m.row - 1,
            col: clamp_col(m.col, m.data[m.row - 1]),
            ..m
        }
    } else {
        m
    }
}

/// Move the cursor down one row if one exists, clamping the column to the
/// new line's sentinel.
pub open spec fn move_down_m(m: BufModel) -> BufModel {
    if m.row < m.data.len() - 1 {
        BufModel {
            row: m.row + 1,
            col: clamp_col(m.col, m.data[m.row + 1]),
            ..m
        }
    } else {
        m
    }
}

/// Move the cursor one column right; off the sentinel it steps to the
/// start of the next line, and at the last line's sentinel it stays put.
pub open spec fn move_right_m(m: BufModel) -> BufModel {
    if m.col < m.cur_line().len() - 1 {
        BufModel { col: m.col + 1, ..m }
    } else if m.row < m.data.len() - 1 {
        BufModel { row: m.row + 1, col: 0, ..m }
    } else {
        m
    }
}

/// Move the cursor one column left; at column 0 it steps to the sentinel
/// of the line above, and at `(0, 0)` it stays put.
pub open spec fn move_left_m(m: BufModel) -> BufModel {
    if m.col > 0 {
        BufModel { col: m.col - 1, ..m }
    } else if m.row > 0 {
        BufModel {
            row: m.row - 1,
            col: m.data[m.row - 1].len() - 1,
            ..m
        }
    } else {
        m
    }
}

/// Column reflow used by vertical moves: keep the column if the target
/// line is long enough, else clamp to the target line's last index.
pub open spec fn clamp_col(col: int, line: Seq<char>) -> int {
    if col < line.len() - 1 {
        col
    } else {
        line.len() - 1
    }
}

/// The minimal correction of one scroll offset: step it down until the
/// cursor is no longer above (left of) the window, then step it up until
/// the cursor is no longer below (right of) a window of `size` cells.
pub open spec fn confined(off: int, cur: int, size: int) -> int {
    if cur < off {
        cur
    } else if cur > off + size - 1 {
        cur - size + 1
    } else {
        off
    }
}

/// Viewport recomputation for a frame of height `h` and width `w`:
/// each offset receives its minimal correction.
pub open spec fn confine_m(m: BufModel, h: int, w: int) -> BufModel {
    BufModel {
        row_off: confined(m.row_off, m.row, h),
        col_off: confined(m.col_off, m.col, w),
        ..m
    }
}

/// What the renderer leaves in grid cell `(i, j)` of the frame, given the
/// document and scroll offsets of `m`: the document character the cell
/// shows; a blank where the line has ended; past the end of the document,
/// a marker in the frame's first column and blanks after it.
pub open spec fn painted_cell(m: BufModel, frame: Frame, i: int, j: int) -> char {
    let drow = m.row_off + (i - frame.start_row);
    let dcol = m.col_off + (j - frame.start_col);
    if drow < m.data.len() {
        if dcol < m.data[drow].len() {
            m.data[drow][dcol]
        } else {
            ' '
        }
    } else {
        if j == frame.start_col {
            '~'
        } else {
            ' '
        }
    }
}

} // verus!
