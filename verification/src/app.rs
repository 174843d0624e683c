//! The byte grid: a buffer, its row width, and the scroll position over its rows.

use vstd::prelude::*;
use vstd::slice::{slice_subrange, slice_to_vec};
use ratatui::text::{Line, Text};
use crate::grid::{last_row, lemma_row_count, lemma_row_extent, row_count, row_end, row_start};
use crate::hex::{decimal, push_decimal, push_upper_hex, upper_hex};
use crate::row::{format_line, is_text_char, lemma_row_text_chars, row_text};
use crate::step::{lemma_moved_saturates, moved, step_by, step_down, step_up};
use crate::text::{line_from_string, line_text, text_from_lines, text_lines};

verus! {

/// One rendered row: where it starts, its text and the bytes it shows.
#[derive(Clone)]
pub struct RowText {
    pub offset: usize,
    pub text: String,
    pub bytes: Vec<u8>,
}

/// What a `RowText` holds.
pub struct RowTextView {
    pub offset: nat,
    pub text: Seq<char>,
    pub bytes: Seq<u8>,
}

impl View for RowText {
    type V = RowTextView;

    open spec fn view(&self) -> RowTextView {
        RowTextView { offset: self.offset as nat, text: self.text@, bytes: self.bytes@ }
    }
}

/// The file's bytes with the state of the view onto them.
pub struct App {
    file_name: String,
    bytes: Vec<u8>,
    scroll_row: usize,
    bytes_per_row: usize,
    view_rows: usize,
}

/// What an `App` holds.
pub struct AppView {
    pub file_name: Seq<char>,
    pub bytes: Seq<u8>,
    pub scroll_row: nat,
    pub bytes_per_row: nat,
    pub view_rows: nat,
}

impl AppView {
    /// The number of rows that the buffer takes.
    pub open spec fn total_rows(self) -> nat {
        row_count(self.bytes.len(), self.bytes_per_row)
    }

    /// The highest scroll position.
    pub open spec fn max_scroll(self) -> nat {
        last_row(self.bytes.len(), self.bytes_per_row)
    }

    /// A row has a byte at least, a view a row at least, and the scroll
    /// position is a row of the buffer (0 where it has none).
    pub open spec fn wf(self) -> bool {
        &&& self.bytes_per_row >= 1
        &&& self.view_rows >= 1
        &&& self.scroll_row <= self.max_scroll()
    }

    /// The byte offset of the topmost visible row.
    pub open spec fn current_offset(self) -> nat {
        row_start(self.scroll_row, self.bytes_per_row)
    }

    /// The same grid scrolled to `row`.
    pub open spec fn scrolled_to(self, row: nat) -> AppView {
        AppView { scroll_row: row, ..self }
    }

    /// The same grid after scrolling by `delta` rows: the scroll position
    /// moves by `delta` and stops at the first and at the last row.
    pub open spec fn scrolled_by(self, delta: int) -> AppView {
        self.scrolled_to(moved(self.scroll_row, delta, self.max_scroll()))
    }

    /// The bytes of row `row`.
    pub open spec fn row_bytes(self, row: nat) -> Seq<u8> {
        self.bytes.subrange(
            row_start(row, self.bytes_per_row) as int,
            row_end(row, self.bytes.len(), self.bytes_per_row) as int,
        )
    }

    /// Row `row` as it is rendered.
    pub open spec fn row(self, row: nat) -> RowTextView {
        RowTextView {
            offset: row_start(row, self.bytes_per_row),
            text: row_text(
                row_start(row, self.bytes_per_row),
                self.row_bytes(row),
                self.bytes_per_row,
            ),
            bytes: self.row_bytes(row),
        }
    }

    /// How many of the `rows` rows from `start_row` on exist.
    pub open spec fn rows_available(self, start_row: nat, rows: nat) -> nat {
        if start_row >= self.total_rows() {
            0
        } else if start_row + rows > self.total_rows() {
            (self.total_rows() - start_row) as nat
        } else {
            rows
        }
    }

    /// The 1-based number of the topmost visible row, and the number of rows
    /// it is counted out of: an empty buffer counts as one row.
    pub open spec fn status_row(self) -> (nat, nat) {
        let total: nat = if self.total_rows() == 0 { 1 } else { self.total_rows() };
        (if self.scroll_row + 1 > total { total } else { self.scroll_row + 1 }, total)
    }

    /// The status line: name, size, row out of rows, offset, and the key to leave.
    pub open spec fn status_text(self) -> Seq<char> {
        self.file_name + " | bytes: "@ + decimal(self.bytes.len()) + " | row: "@ + decimal(
            self.status_row().0,
        ) + "/"@ + decimal(self.status_row().1) + " | offset: 0x"@ + upper_hex(
            self.current_offset(),
            8,
        ) + " | press q to quit"@
    }

    /// The lines that a view of `rows` rows shows: the rows from the scroll
    /// position on, or one line that says why there are none.
    pub open spec fn rendered(self, rows: nat) -> Seq<Seq<char>> {
        if self.bytes.len() == 0 {
            seq!["File is empty."@]
        } else if self.rows_available(self.scroll_row, rows) == 0 {
            seq!["(End of file)"@]
        } else {
            self.rows_in_range(self.scroll_row, rows).map_values(|row: RowTextView| row.text)
        }
    }

    /// The rendered rows from `start_row` on, `rows` of them or as many as exist.
    pub open spec fn rows_in_range(self, start_row: nat, rows: nat) -> Seq<RowTextView> {
        Seq::new(self.rows_available(start_row, rows), |i: int| self.row((start_row + i) as nat))
    }
}

/// The row count of a grid: there is no row exactly when the buffer is empty;
/// otherwise the rows are the fewest of `bytes_per_row` bytes that hold it.
pub proof fn lemma_total_rows(grid: AppView)
    requires
        grid.wf(),
    ensures
        grid.total_rows() == 0 <==> grid.bytes.len() == 0,
        grid.bytes.len() > 0 ==> (grid.total_rows() - 1) * grid.bytes_per_row < grid.bytes.len()
            <= grid.total_rows() * grid.bytes_per_row,
{
    lemma_row_count(grid.bytes.len(), grid.bytes_per_row);
}

/// One row asked for by its index. It starts at the index times the row
/// width and shows `bytes_per_row` bytes; only the last row may show fewer:
/// the bytes that are left, of which there is one at least.
pub proof fn lemma_single_row(grid: AppView, row: nat)
    requires
        grid.wf(),
        row < grid.total_rows(),
    ensures
        grid.rows_in_range(row, 1).len() == 1,
        grid.rows_in_range(row, 1)[0] == grid.row(row),
        grid.row(row).offset == row * grid.bytes_per_row,
        row + 1 < grid.total_rows() ==> grid.row(row).bytes.len() == grid.bytes_per_row,
        row + 1 == grid.total_rows() ==> grid.row(row).bytes.len() == grid.bytes.len() - row
            * grid.bytes_per_row,
        0 < grid.row(row).bytes.len() <= grid.bytes_per_row,
        grid.row(row).bytes =~= Seq::new(
            grid.row(row).bytes.len(),
            |i: int| grid.bytes[row * grid.bytes_per_row + i],
        ),
{
    lemma_row_extent(grid.bytes.len(), grid.bytes_per_row, row);
}

/// Scrolling past an end is scrolling to that end: a `delta` that would leave
/// the rows gives the state that the `delta` to the first or to the last row
/// gives; and scrolling by 0 afterwards changes nothing.
pub proof fn lemma_scroll_saturates(grid: AppView, delta: int)
    requires
        grid.wf(),
    ensures
        grid.scrolled_by(delta).wf(),
        grid.scroll_row + delta > grid.max_scroll() ==> grid.scrolled_by(delta)
            == grid.scrolled_by(grid.max_scroll() - grid.scroll_row) && grid.scrolled_by(
            delta,
        ).scroll_row == grid.max_scroll(),
        grid.scroll_row + delta < 0 ==> grid.scrolled_by(delta) == grid.scrolled_by(
            -(grid.scroll_row as int),
        ) && grid.scrolled_by(delta).scroll_row == 0,
        0 <= grid.scroll_row + delta <= grid.max_scroll() ==> grid.scrolled_by(delta).scroll_row
            == grid.scroll_row + delta,
        grid.scrolled_by(delta).scrolled_by(0) == grid.scrolled_by(delta),
{
    lemma_moved_saturates(grid.scroll_row, delta, grid.max_scroll());
}

impl View for App {
    type V = AppView;

    closed spec fn view(&self) -> AppView {
        AppView {
            file_name: self.file_name@,
            bytes: self.bytes@,
            scroll_row: self.scroll_row as nat,
            bytes_per_row: self.bytes_per_row as nat,
            view_rows: self.view_rows as nat,
        }
    }
}

impl App {
    /// Every grid is well-formed: see `AppView::wf`.
    #[verifier::type_invariant]
    pub open spec fn wf(&self) -> bool {
        self@.wf()
    }

    /// A grid over `bytes`, `bytes_per_row` bytes to a row (one, where 0 is
    /// given), scrolled to the top, for a view of one row.
    pub fn new(file_name: String, bytes: Vec<u8>, bytes_per_row: usize) -> (app: Self)
        ensures
            app.wf(),
            app@ == (AppView {
                file_name: file_name@,
                bytes: bytes@,
                scroll_row: 0,
                bytes_per_row: if bytes_per_row == 0 { 1 } else { bytes_per_row as nat },
                view_rows: 1,
            }),
    {
        App {
            file_name,
            bytes,
            scroll_row: 0,
            bytes_per_row: if bytes_per_row == 0 { 1 } else { bytes_per_row },
            view_rows: 1,
        }
    }

    /// The name under which the file is shown.
    pub fn file_name(&self) -> (name: &str)
        ensures
            name@ == self@.file_name,
    {
        self.file_name.as_str()
    }

    /// Sets the number of rows that the view shows; 0 counts as one row.
    pub fn set_view_rows(&mut self, rows: usize)
        ensures
            final(self).wf(),
            final(self)@ == (AppView {
                view_rows: if rows == 0 { 1 } else { rows as nat },
                ..old(self)@
            }),
    {
        proof {
            use_type_invariant(&*self);
        }
        self.view_rows = if rows == 0 { 1 } else { rows };
    }

    /// The number of rows that the view shows.
    pub fn view_rows(&self) -> (rows: usize)
        ensures
            rows == self@.view_rows,
    {
        self.view_rows
    }

    /// The number of bytes in the buffer.
    pub fn bytes_len(&self) -> (len: usize)
        ensures
            len == self@.bytes.len(),
    {
        self.bytes.len()
    }

    /// The number of bytes to a row.
    pub fn bytes_per_row(&self) -> (width: usize)
        ensures
            width == self@.bytes_per_row,
    {
        self.bytes_per_row
    }

    /// The number of rows: 0 for an empty buffer, else the buffer's length
    /// divided by the row width, rounded up.
    pub fn total_rows(&self) -> (rows: usize)
        ensures
            rows == self@.total_rows(),
            rows == 0 <==> self@.bytes.len() == 0,
            rows <= self@.bytes.len(),
    {
        proof {
            use_type_invariant(self);
            lemma_row_count(self@.bytes.len(), self@.bytes_per_row);
        }
        if self.bytes.len() == 0 {
            0
        } else {
            (self.bytes.len() - 1) / self.bytes_per_row + 1
        }
    }

    /// Scrolls by `delta` rows, down for a positive `delta`, and stops at the
    /// first and at the last row.
    pub fn scroll_rows(&mut self, delta: isize)
        ensures
            final(self).wf(),
            final(self)@ == old(self)@.scrolled_by(delta as int),
    {
        proof {
            use_type_invariant(&*self);
        }
        let rows: usize = self.total_rows();
        let max_row: usize = if rows == 0 { 0 } else { rows - 1 };
        self.scroll_row = step_by(self.scroll_row, delta, max_row);
    }

    /// Scrolls by `rows` rows, down or up, and stops at the first and at the
    /// last row: `scroll_rows` for an amount of any size.
    pub fn scroll_by(&mut self, down: bool, rows: usize)
        ensures
            final(self).wf(),
            final(self)@ == old(self)@.scrolled_by(
                if down { rows as int } else { -(rows as int) },
            ),
    {
        proof {
            use_type_invariant(&*self);
        }
        let total: usize = self.total_rows();
        let max_row: usize = if total == 0 { 0 } else { total - 1 };
        self.scroll_row = if down {
            step_up(self.scroll_row, rows, max_row)
        } else {
            step_down(self.scroll_row, rows, max_row)
        };
    }

    /// Scrolls to the first row.
    pub fn scroll_to_start(&mut self)
        ensures
            final(self).wf(),
            final(self)@ == old(self)@.scrolled_to(0),
    {
        proof {
            use_type_invariant(&*self);
        }
        self.scroll_row = 0;
    }

    /// Scrolls to the last row.
    pub fn scroll_to_end(&mut self)
        ensures
            final(self).wf(),
            final(self)@ == old(self)@.scrolled_to(old(self)@.max_scroll()),
    {
        proof {
            use_type_invariant(&*self);
        }
        let rows: usize = self.total_rows();
        self.scroll_row = if rows == 0 { 0 } else { rows - 1 };
    }

    /// The rendered rows from `start_row` on: `rows` of them, or as many as
    /// the buffer has from there, which may be none.
    pub fn lines_for_range(&self, start_row: usize, rows: usize) -> (lines: Vec<RowText>)
        ensures
            lines@.map_values(|line: RowText| line@) == self@.rows_in_range(
                start_row as nat,
                rows as nat,
            ),
            lines@.len() == self@.rows_available(start_row as nat, rows as nat),
            lines@.len() == 0 <==> self@.bytes.len() == 0 || rows == 0 || start_row
                >= self@.total_rows(),
            forall|i: int|
                0 <= i < lines@.len() ==> (#[trigger] lines@[i])@ == self@.row(
                    (start_row + i) as nat,
                ),
    {
        proof {
            use_type_invariant(self);
        }
        let total: usize = self.total_rows();
        let mut lines: Vec<RowText> = Vec::new();
        if start_row >= total {
            assert(lines@.map_values(|line: RowText| line@) =~= self@.rows_in_range(
                start_row as nat,
                rows as nat,
            ));
            return lines;
        }
        let limit: usize = if rows >= total - start_row { total } else { start_row + rows };
        let len: usize = self.bytes.len();
        let mut row: usize = start_row;
        while row < limit
            invariant
                self.wf(),
                start_row <= row <= limit <= total,
                total == self@.total_rows(),
                len == self@.bytes.len(),
                lines@.len() == row - start_row,
                forall|i: int|
                    0 <= i < lines@.len() ==> (#[trigger] lines@[i])@ == self@.row(
                        (start_row + i) as nat,
                    ),
            decreases limit - row,
        {
            proof {
                lemma_row_extent(self@.bytes.len(), self@.bytes_per_row, row as nat);
                assert(row * self.bytes_per_row == row_start(row as nat, self@.bytes_per_row));
            }
            let offset: usize = row * self.bytes_per_row;
            let end: usize = if len - offset > self.bytes_per_row {
                offset + self.bytes_per_row
            } else {
                len
            };
            let chunk = slice_subrange(self.bytes.as_slice(), offset, end);
            let line = RowText {
                offset,
                text: format_line(offset, chunk, self.bytes_per_row),
                bytes: slice_to_vec(chunk),
            };
            assert(line@ == self@.row(row as nat));
            lines.push(line);
            row += 1;
        }
        assert(lines@.map_values(|line: RowText| line@) =~= self@.rows_in_range(
            start_row as nat,
            rows as nat,
        ));
        lines
    }

    /// The status line of the view.
    pub fn status_line(&self) -> (line: String)
        ensures
            line@ == self@.status_text(),
    {
        proof {
            use_type_invariant(self);
        }
        let rows: usize = self.total_rows();
        let total: usize = if rows == 0 { 1 } else { rows };
        let row: usize = if self.scroll_row >= total { total } else { self.scroll_row + 1 };
        let mut out = String::new();
        out.append(self.file_name.as_str());
        out.append(" | bytes: ");
        push_decimal(&mut out, self.bytes.len());
        out.append(" | row: ");
        push_decimal(&mut out, row);
        out.append("/");
        push_decimal(&mut out, total);
        out.append(" | offset: 0x");
        push_upper_hex(&mut out, self.current_offset(), 8);
        out.append(" | press q to quit");
        assert(out@ =~= self@.status_text());
        out
    }

    /// The text that a view of `rows` rows shows: a line for each row from the
    /// scroll position on, or one line that says that the file is empty or
    /// that no row is left.
    pub fn render_lines(&self, rows: usize) -> (text: Text<'static>)
        ensures
            text_lines(text) == self@.rendered(rows as nat),
    {
        proof {
            use_type_invariant(self);
        }
        let mut lines: Vec<Line<'static>> = Vec::new();
        if self.bytes.len() == 0 {
            proof {
                reveal_strlit("File is empty.");
            }
            lines.push(line_from_string("File is empty.".to_owned()));
            let text = text_from_lines(lines);
            assert(text_lines(text) =~= self@.rendered(rows as nat));
            return text;
        }
        let shown = self.lines_for_range(self.scroll_row, rows);
        if shown.len() == 0 {
            proof {
                reveal_strlit("(End of file)");
            }
            lines.push(line_from_string("(End of file)".to_owned()));
            let text = text_from_lines(lines);
            assert(text_lines(text) =~= self@.rendered(rows as nat));
            return text;
        }
        let ghost expected = self@.rows_in_range(self@.scroll_row, rows as nat);
        let mut i: usize = 0;
        while i < shown.len()
            invariant
                i <= shown.len(),
                shown@.map_values(|line: RowText| line@) == expected,
                expected == self@.rows_in_range(self@.scroll_row, rows as nat),
                lines@.len() == i,
                forall|j: int| 0 <= j < i ==> line_text(#[trigger] lines@[j]) == expected[j].text,
            decreases shown.len() - i,
        {
            let content = shown[i].text.clone();
            proof {
                let row: nat = (self@.scroll_row + i) as nat;
                assert(shown@.map_values(|line: RowText| line@)[i as int] == shown@[i as int]@);
                assert(expected.len() == shown@.len());
                assert(expected[i as int] == self@.row(row));
                assert(content@ == self@.row(row).text);
                lemma_row_text_chars(
                    row_start(row, self@.bytes_per_row),
                    self@.row_bytes(row),
                    self@.bytes_per_row,
                );
                assert forall|k: int| 0 <= k < content@.len() implies content@[k] != '\n' by {
                    assert(is_text_char(content@[k]));
                }
            }
            lines.push(line_from_string(content));
            i += 1;
        }
        let text = text_from_lines(lines);
        assert(text_lines(text) =~= self@.rendered(rows as nat));
        text
    }

    /// The byte offset of the topmost visible row.
    pub fn current_offset(&self) -> (offset: usize)
        ensures
            offset == self@.current_offset(),
            self@.bytes.len() > 0 ==> offset < self@.bytes.len(),
    {
        proof {
            use_type_invariant(self);
        }
        let len: usize = self.bytes.len();
        proof {
            lemma_row_count(self@.bytes.len(), self@.bytes_per_row);
            if self@.bytes.len() > 0 {
                lemma_row_extent(self@.bytes.len(), self@.bytes_per_row, self@.scroll_row);
            } else {
                assert(self.scroll_row * self.bytes_per_row == 0) by (nonlinear_arith)
                    requires
                        self.scroll_row == 0,
                ;
            }
            assert(self.scroll_row * self.bytes_per_row <= len);
        }
        self.scroll_row * self.bytes_per_row
    }
}

} // verus!
