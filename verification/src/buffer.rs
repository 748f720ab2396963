use vstd::prelude::*;

use crate::codec::{empty_buffer, lemma_parse_wf, parse_m, parse_text, serialize_m};
use crate::frame::Frame;
use crate::model::{
    clamp_col, confine_m, confined, delete_char_m, insert_char_m, insert_nl_m, join_line_m,
    move_down_m, move_left_m, move_right_m, move_up_m, painted_cell, sentinel, BufModel,
};

verus! {

/// An editable text buffer: the document's lines, the file name it was
/// opened under, the cursor, and the viewport scroll offsets.
///
/// Every line in `data` ends in the sentinel character; the cursor always
/// addresses an existing line at a column no further than that line's
/// sentinel. [`Buffer::wf`] states this invariant; every operation
/// preserves it, so in particular the document never becomes empty.
pub struct Buffer {
    data: Vec<Vec<char>>,
    name: String,
    cur_row: usize,
    cur_col: usize,
    row_off: usize,
    col_off: usize,
}

impl View for Buffer {
    type V = BufModel;

    closed spec fn view(&self) -> BufModel {
        BufModel {
            name: self.name@,
            data: self.data.deep_view(),
            row: self.cur_row as int,
            col: self.cur_col as int,
            row_off: self.row_off as int,
            col_off: self.col_off as int,
        }
    }
}

impl Buffer {
    /// The buffer's invariant, stated over its mathematical view.
    pub open spec fn wf(&self) -> bool {
        self@.wf()
    }

    /// A fresh buffer over an empty document: one line holding only the
    /// sentinel, cursor at the origin, viewport unscrolled.
    pub fn new(name: Option<String>) -> (buf: Buffer)
        ensures
            buf.wf(),
            buf@.data =~~= seq![seq![sentinel()]],
            buf@.row == 0,
            buf@.col == 0,
            buf@.row_off == 0,
            buf@.col_off == 0,
            buf@.name == match name {
                Some(n) => n@,
                None => Seq::<char>::empty(),
            },
    {
        let name = match name {
            Some(n) => n,
            None => String::new(),
        };
        let data = empty_buffer();
        Buffer { data, name, cur_row: 0, cur_col: 0, row_off: 0, col_off: 0 }
    }

    /// A buffer over the document that loading `text` produces: the text
    /// split into sentinel-terminated lines as [`parse_m`] says, cursor at
    /// the origin, viewport unscrolled.
    pub fn from_text(name: String, text: &Vec<char>) -> (buf: Buffer)
        ensures
            buf.wf(),
            buf@.data == parse_m(text@),
            buf@.row == 0,
            buf@.col == 0,
            buf@.row_off == 0,
            buf@.col_off == 0,
            buf@.name == name@,
    {
        let data = parse_text(text);
        proof {
            lemma_parse_wf(text@);
        }
        Buffer { data, name, cur_row: 0, cur_col: 0, row_off: 0, col_off: 0 }
    }

    /// The text this document saves to: each line minus its trailing
    /// sentinel, lines joined with `\n`, no newline after the last line.
    pub fn save_text(&self) -> (text: Vec<char>)
        requires
            self.wf(),
        ensures
            text@ == serialize_m(self@.data),
    {
        let mut text: Vec<char> = Vec::new();
        let mut r: usize = 0;
        while r < self.data.len()
            invariant
                r <= self@.data.len(),
                self.wf(),
                text@ == (if r == 0 {
                    Seq::<char>::empty()
                } else {
                    serialize_m(self@.data.take(r as int))
                }),
            decreases self@.data.len() - r,
        {
            let ghost base = text@;
            if r > 0 {
                text.push('\n');
            }
            let ghost mid = text@;
            proof {
                assert(self@.data[r as int].len() >= 1);
            }
            let line_end = self.data[r].len() - 1;
            let mut j: usize = 0;
            while j < line_end
                invariant
                    j <= line_end,
                    line_end == self@.data[r as int].len() - 1,
                    r < self@.data.len(),
                    self.wf(),
                    text@ == mid + self@.data[r as int].take(j as int),
                decreases line_end - j,
            {
                text.push(self.data[r][j]);
                j = j + 1;
            }
            proof {
                assert(self@.data[r as int].take(line_end as int) =~= self@.data[
                    r as int
                ].drop_last());
                assert(self@.data.take(r + 1).drop_last() =~= self@.data.take(r as int));
                if r == 0 {
                    assert(text@ =~= serialize_m(self@.data.take(1)));
                } else {
                    assert(text@ =~= serialize_m(self@.data.take(r as int)).push('\n')
                        + self@.data[r as int].drop_last());
                    assert(text@ =~= serialize_m(self@.data.take(r + 1)));
                }
            }
            r = r + 1;
        }
        proof {
            assert(self@.data.take(r as int) =~= self@.data);
        }
        text
    }

    /// The file name this buffer was opened under.
    pub fn name(&self) -> (n: &String)
        ensures
            n@ == self@.name,
    {
        &self.name
    }

    /// Number of lines in the document.
    pub fn line_count(&self) -> (n: usize)
        ensures
            n == self@.data.len(),
    {
        self.data.len()
    }

    /// Length of line `row`, its sentinel included.
    pub fn line_len(&self, row: usize) -> (n: usize)
        requires
            row < self@.data.len(),
        ensures
            n == self@.data[row as int].len(),
    {
        self.data[row].len()
    }

    /// The character at `(row, col)`.
    pub fn char_at(&self, row: usize, col: usize) -> (c: char)
        requires
            row < self@.data.len(),
            col < self@.data[row as int].len(),
        ensures
            c == self@.data[row as int][col as int],
    {
        self.data[row][col]
    }

    /// The cursor's row in the document.
    pub fn cursor_row(&self) -> (r: usize)
        ensures
            r == self@.row,
    {
        self.cur_row
    }

    /// The cursor's column in its line.
    pub fn cursor_col(&self) -> (c: usize)
        ensures
            c == self@.col,
    {
        self.cur_col
    }

    /// The first document row the viewport shows.
    pub fn row_offset(&self) -> (r: usize)
        ensures
            r == self@.row_off,
    {
        self.row_off
    }

    /// The first column-within-row the viewport shows.
    pub fn col_offset(&self) -> (c: usize)
        ensures
            c == self@.col_off,
    {
        self.col_off
    }

    /// Clamp the cursor column to the current line: keep it if the line is
    /// long enough, else pull it back to the line's last index (the
    /// sentinel). Used by vertical moves to reflow the column after the
    /// row changed, so it must work while the column is still out of range.
    pub fn reset_x(&mut self)
        requires
            0 <= old(self)@.row < old(self)@.data.len(),
            old(self)@.data[old(self)@.row].len() >= 1,
        ensures
            final(self)@ == (BufModel {
                col: clamp_col(old(self)@.col, old(self)@.data[old(self)@.row]),
                ..old(self)@
            }),
    {
        let len = self.data[self.cur_row].len();
        if self.cur_col >= len - 1 {
            self.cur_col = len - 1;
        }
    }

    /// Put the cursor on the first column of its line.
    pub fn move_start_of_line(&mut self)
        requires
            old(self).wf(),
        ensures
            final(self).wf(),
            final(self)@ == (BufModel { col: 0, ..old(self)@ }),
    {
        self.cur_col = 0;
    }

    /// Put the cursor on the last index of its line (the sentinel).
    pub fn move_end_of_line(&mut self)
        requires
            old(self).wf(),
        ensures
            final(self).wf(),
            final(self)@ == (BufModel {
                col: old(self)@.cur_line().len() - 1,
                ..old(self)@
            }),
    {
        self.cur_col = self.data[self.cur_row].len() - 1;
    }

    /// Move the cursor up one row if one exists, reflowing the column onto
    /// the new line; reports whether the move happened. The column never
    /// ends up past the new line's sentinel.
    pub fn move_up(&mut self) -> (moved: bool)
        requires
            old(self).wf(),
        ensures
            final(self).wf(),
            final(self)@ == move_up_m(old(self)@),
            moved == (old(self)@.row > 0),
    {
        if self.cur_row > 0 {
            self.cur_row = self.cur_row - 1;
            self.reset_x();
            true
        } else {
            false
        }
    }

    /// Move the cursor down one row if one exists, reflowing the column
    /// onto the new line; reports whether the move happened. The column
    /// never ends up past the new line's sentinel.
    pub fn move_down(&mut self) -> (moved: bool)
        requires
            old(self).wf(),
        ensures
            final(self).wf(),
            final(self)@ == move_down_m(old(self)@),
            moved == (old(self)@.row < old(self)@.data.len() - 1),
    {
        if self.cur_row < self.data.len() - 1 {
            self.cur_row = self.cur_row + 1;
            self.reset_x();
            true
        } else {
            false
        }
    }

    /// Move the cursor one column right; off the sentinel it steps to the
    /// start of the next line, and at the last line's sentinel it stays.
    pub fn move_right(&mut self)
        requires
            old(self).wf(),
        ensures
            final(self).wf(),
            final(self)@ == move_right_m(old(self)@),
    {
        if self.cur_col < self.data[self.cur_row].len() - 1 {
            self.cur_col = self.cur_col + 1;
        } else {
            if self.move_down() {
                self.move_start_of_line();
            }
        }
    }

    /// Shift the scroll offsets by single-unit steps until the cursor lies
    /// inside a window with the frame's height and width: the smallest
    /// correction, not a recentering jump, so the viewport trails the
    /// cursor. Afterwards
    /// `row_off <= row < row_off + height` and
    /// `col_off <= col < col_off + width`.
    #[verifier::loop_isolation(false)]
    pub fn confine_frame(&mut self, frame: Frame)
        requires
            old(self).wf(),
            frame.wf(),
            old(self)@.row + frame.height() <= usize::MAX,
            old(self)@.col + frame.width() <= usize::MAX,
        ensures
            final(self).wf(),
            final(self)@ == confine_m(old(self)@, frame.height(), frame.width()),
            final(self)@.row_off <= final(self)@.row < final(self)@.row_off + frame.height(),
            final(self)@.col_off <= final(self)@.col < final(self)@.col_off + frame.width(),
    {
        let frame_height = (frame.end_row - frame.start_row) as usize;
        let frame_width = (frame.end_col - frame.start_col) as usize;

        while self.cur_row < self.row_off
            invariant
                self@ == (BufModel { row_off: self@.row_off, ..old(self)@ }),
                self@.row_off <= old(self)@.row_off,
                self@.row_off >= (if old(self)@.row_off <= self@.row {
                    old(self)@.row_off
                } else {
                    self@.row
                }),
            decreases self@.row_off,
        {
            self.row_off = self.row_off - 1;
        }

        let ghost row_off_1 = self@.row_off;
        while self.cur_row > self.row_off + frame_height - 1
            invariant
                self@ == (BufModel { row_off: self@.row_off, ..old(self)@ }),
                row_off_1 <= self@.row_off <= self@.row,
                self@.row_off <= (if self@.row > row_off_1 + frame.height() - 1 {
                    self@.row - frame.height() + 1
                } else {
                    row_off_1
                }),
            decreases self@.row - self@.row_off,
        {
            self.row_off = self.row_off + 1;
        }

        while self.cur_col < self.col_off
            invariant
                self@ == (BufModel {
                    row_off: confined(old(self)@.row_off, old(self)@.row, frame.height()),
                    col_off: self@.col_off,
                    ..old(self)@
                }),
                self@.col_off <= old(self)@.col_off,
                self@.col_off >= (if old(self)@.col_off <= self@.col {
                    old(self)@.col_off
                } else {
                    self@.col
                }),
            decreases self@.col_off,
        {
            self.col_off = self.col_off - 1;
        }

        let ghost col_off_1 = self@.col_off;
        while self.cur_col > self.col_off + frame_width - 1
            invariant
                self@ == (BufModel {
                    row_off: confined(old(self)@.row_off, old(self)@.row, frame.height()),
                    col_off: self@.col_off,
                    ..old(self)@
                }),
                col_off_1 <= self@.col_off <= self@.col,
                self@.col_off <= (if self@.col > col_off_1 + frame.width() - 1 {
                    self@.col - frame.width() + 1
                } else {
                    col_off_1
                }),
            decreases self@.col - self@.col_off,
        {
            self.col_off = self.col_off + 1;
        }
    }

    /// Paint every grid cell inside the frame: first reclamp the viewport
    /// (see [`Buffer::confine_frame`]), then fill each frame row with the
    /// visible slice of the corresponding document line, blanks where the
    /// line has ended, and, past the end of the document, a `~` marker in
    /// the frame's first column with blanks after it. Cells outside the
    /// frame are untouched.
    #[verifier::loop_isolation(false)]
    pub fn print(&mut self, window: &mut Vec<Vec<char>>, frame: Frame)
        requires
            old(self).wf(),
            frame.wf(),
            old(self)@.row + frame.height() <= usize::MAX,
            old(self)@.col + frame.width() <= usize::MAX,
            old(window)@.len() >= frame.end_row,
            forall|i: int|
                frame.start_row <= i < frame.end_row ==> #[trigger] old(window)@[i]@.len()
                    >= frame.end_col,
        ensures
            final(self).wf(),
            final(self)@ == confine_m(old(self)@, frame.height(), frame.width()),
            final(self)@.row_off <= final(self)@.row < final(self)@.row_off + frame.height(),
            final(self)@.col_off <= final(self)@.col < final(self)@.col_off + frame.width(),
            final(window)@.len() == old(window)@.len(),
            forall|i: int|
                0 <= i < old(window)@.len() && !(frame.start_row <= i < frame.end_row)
                    ==> #[trigger] final(window)@[i] == old(window)@[i],
            forall|i: int|
                frame.start_row <= i < frame.end_row ==> #[trigger] final(window)@[i]@.len()
                    == old(window)@[i]@.len(),
            forall|i: int, j: int|
                frame.start_row <= i < frame.end_row && 0 <= j < old(window)@[i]@.len()
                    && !(frame.start_col <= j < frame.end_col)
                    ==> #[trigger] final(window)@[i]@[j] == old(window)@[i]@[j],
            forall|i: int, j: int|
                frame.start_row <= i < frame.end_row && frame.start_col <= j < frame.end_col
                    ==> #[trigger] final(window)@[i]@[j] == painted_cell(final(self)@, frame, i, j),
    {
        self.confine_frame(frame);

        let mut data_row: usize = self.row_off;
        let mut row: usize = frame.start_row as usize;

        while row < frame.end_row as usize
            invariant
                frame.start_row <= row <= frame.end_row,
                data_row == self@.row_off + (row - frame.start_row),
                window@.len() == old(window)@.len(),
                forall|i: int|
                    0 <= i < old(window)@.len() && !(frame.start_row <= i < row)
                        ==> #[trigger] window@[i] == old(window)@[i],
                forall|i: int|
                    frame.start_row <= i < row ==> #[trigger] window@[i]@.len()
                        == old(window)@[i]@.len(),
                forall|i: int, j: int|
                    frame.start_row <= i < row && 0 <= j < old(window)@[i]@.len()
                        && !(frame.start_col <= j < frame.end_col)
                        ==> #[trigger] window@[i]@[j] == old(window)@[i]@[j],
                forall|i: int, j: int|
                    frame.start_row <= i < row && frame.start_col <= j < frame.end_col
                        ==> #[trigger] window@[i]@[j] == painted_cell(self@, frame, i, j),
            decreases frame.end_row - row,
        {
            let ghost win0 = window@;
            if data_row < self.data.len() {
                let mut data_col: usize = self.col_off;
                let mut col: usize = frame.start_col as usize;

                while col < frame.end_col as usize
                    invariant
                        frame.start_col <= col <= frame.end_col,
                        data_col == self@.col_off + (col - frame.start_col),
                        window@.len() == win0.len(),
                        forall|i: int|
                            0 <= i < win0.len() && i != row ==> #[trigger] window@[i] == win0[i],
                        window@[row as int]@.len() == win0[row as int]@.len(),
                        forall|j: int|
                            0 <= j < win0[row as int]@.len() && !(frame.start_col <= j < col)
                                ==> #[trigger] window@[row as int]@[j] == win0[row as int]@[j],
                        forall|j: int|
                            frame.start_col <= j < col ==> #[trigger] window@[row as int]@[j]
                                == painted_cell(self@, frame, row as int, j),
                    decreases frame.end_col - col,
                {
                    if data_col < self.data[data_row].len() {
                        window[row][col] = self.data[data_row][data_col];
                    } else {
                        window[row][col] = ' ';
                    }
                    data_col = data_col + 1;
                    col = col + 1;
                }
            } else {
                window[row][frame.start_col as usize] = '~';
                let mut col: usize = frame.start_col as usize + 1;

                while col < frame.end_col as usize
                    invariant
                        frame.start_col < col <= frame.end_col,
                        window@.len() == win0.len(),
                        forall|i: int|
                            0 <= i < win0.len() && i != row ==> #[trigger] window@[i] == win0[i],
                        window@[row as int]@.len() == win0[row as int]@.len(),
                        forall|j: int|
                            0 <= j < win0[row as int]@.len() && !(frame.start_col <= j < col)
                                ==> #[trigger] window@[row as int]@[j] == win0[row as int]@[j],
                        window@[row as int]@[frame.start_col as int] == '~',
                        forall|j: int|
                            frame.start_col < j < col ==> #[trigger] window@[row as int]@[j] == ' ',
                    decreases frame.end_col - col,
                {
                    window[row][col] = ' ';
                    col = col + 1;
                }
            }
            data_row = data_row + 1;
            row = row + 1;
        }
    }

    /// Insert `c` immediately before the cursor and shift the cursor one
    /// column right. Always succeeds; it never lands past the sentinel.
    pub fn insert_char(&mut self, c: char)
        requires
            old(self).wf(),
            old(self)@.cur_line().len() < usize::MAX,
        ensures
            final(self).wf(),
            final(self)@ == insert_char_m(old(self)@, c),
    {
        self.data[self.cur_row].insert(self.cur_col, c);
        proof {
            assert(self@.data =~~= old(self)@.data.update(
                old(self)@.row,
                old(self)@.cur_line().insert(old(self)@.col, c),
            ));
        }
        self.move_right();
    }

    /// Backspace: with the cursor past column 0, delete the character just
    /// before it and move it one column left; at column 0, merge the
    /// current line into the line above instead.
    pub fn delete_char(&mut self)
        requires
            old(self).wf(),
        ensures
            final(self).wf(),
            final(self)@ == delete_char_m(old(self)@),
    {
        if self.cur_col > 0 {
            self.data[self.cur_row].remove(self.cur_col - 1);
            self.cur_col = self.cur_col - 1;
            proof {
                assert(self@.data =~~= old(self)@.data.update(
                    old(self)@.row,
                    old(self)@.cur_line().remove(old(self)@.col - 1),
                ));
            }
        } else {
            self.join_line();
        }
    }

    /// Split the current line at the cursor: everything from the cursor on
    /// (sentinel included) becomes a new line right below, the current
    /// line is truncated and re-terminated, and the cursor moves to the
    /// start of the new line.
    pub fn insert_nl(&mut self)
        requires
            old(self).wf(),
            old(self)@.data.len() < usize::MAX,
        ensures
            final(self).wf(),
            final(self)@ == insert_nl_m(old(self)@),
    {
        let tail = self.data[self.cur_row].split_off(self.cur_col);
        self.data[self.cur_row].push('\0');
        self.data.insert(self.cur_row + 1, tail);
        proof {
            assert(self@.data =~~= insert_nl_m(old(self)@).data);
        }
        self.move_down();
        self.move_start_of_line();
    }

    /// Merge the current line into the line above: the line above loses
    /// its sentinel and gains the current line wholesale (so exactly one
    /// sentinel remains, at the end), the current line leaves the
    /// document, and the cursor lands on the join point. On the first row
    /// nothing happens.
    pub fn join_line(&mut self)
        requires
            old(self).wf(),
        ensures
            final(self).wf(),
            final(self)@ == join_line_m(old(self)@),
    {
        if self.cur_row == 0 {
            return;
        }
        self.data[self.cur_row - 1].pop();
        let above_len = self.data[self.cur_row - 1].len();
        let mut line = self.data.remove(self.cur_row);
        self.data[self.cur_row - 1].append(&mut line);
        self.cur_row = self.cur_row - 1;
        self.cur_col = above_len;
        proof {
            assert(self@.data =~~= join_line_m(old(self)@).data);
        }
    }

    /// The cursor's on-screen column relative to the viewport, for placing
    /// the terminal's native cursor after a render. Meaningful once the
    /// viewport contains the cursor, which every render establishes.
    pub fn col_in_frame(&self) -> (c: u16)
        requires
            self@.col_off <= self@.col,
            self@.col - self@.col_off <= u16::MAX,
        ensures
            c == self@.col - self@.col_off,
    {
        (self.cur_col - self.col_off) as u16
    }

    /// The cursor's on-screen row relative to the viewport, for placing
    /// the terminal's native cursor after a render. Meaningful once the
    /// viewport contains the cursor, which every render establishes.
    pub fn row_in_frame(&self) -> (r: u16)
        requires
            self@.row_off <= self@.row,
            self@.row - self@.row_off <= u16::MAX,
        ensures
            r == self@.row - self@.row_off,
    {
        (self.cur_row - self.row_off) as u16
    }

    /// Move the cursor one column left; at column 0 it steps to the
    /// sentinel of the line above, and at `(0, 0)` it stays.
    pub fn move_left(&mut self)
        requires
            old(self).wf(),
        ensures
            final(self).wf(),
            final(self)@ == move_left_m(old(self)@),
    {
        if self.cur_col > 0 {
            self.cur_col = self.cur_col - 1;
        } else {
            if self.move_up() {
                self.move_end_of_line();
            }
        }
    }
}

} // verus!
