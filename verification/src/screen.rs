//! What the screen shows: the lines of the text area, the welcome message,
//! and the layout of the help screen.

use crate::console::ConsoleSize;
use crate::editor::Editor;
use crate::indexing::{saturating_add_spec, saturating_sub_spec, LineNumber, RowIndex};
use crate::model::EditorView;
use crate::row::{line_prefix, visible, Row};
use crate::text::collect_chars;
use crate::utils::repeated;
use crate::viewport::row_length;
use vstd::prelude::*;
use vstd::string::StringExecFns;

verus! {

/// What a line of the text area shows.
#[derive(Debug, PartialEq, Eq, Structural, Clone, Copy)]
pub enum ScreenLine {
    /// The row of the document at this index.
    Row(usize),
    /// The welcome message.
    Welcome,
    /// A tilde, for a line below the end of the document.
    Tilde,
}

/// The last column of a row that fits the screen, and one more: the width of
/// the terminal behind the scroll offset, less the line numbers and the space
/// behind them where they are shown.
pub open spec fn visible_end(e: EditorView) -> usize {
    let end = saturating_add_spec(e.size.width as usize, e.view.offset.columns);
    if e.row_prefix_length > 0 {
        saturating_sub_spec(saturating_sub_spec(end, e.row_prefix_length as usize), 1)
    } else {
        end
    }
}

/// The row `row` as line `line_number` of the text area: the clusters that
/// fit the screen, behind the line number where line numbers are shown.
pub open spec fn rendered_row(e: EditorView, row: Seq<char>, line_number: usize) -> Seq<char> {
    line_prefix(line_number as nat, e.row_prefix_length as nat) + visible(
        row,
        e.view.offset.columns as int,
        visible_end(e) as int,
    )
}

/// What the line of the text area shows that stands for row `index` of the
/// document: the row, if the document has it; the welcome message on the
/// middle line of the screen while the document has no file and no text; a
/// tilde otherwise.
pub open spec fn screen_line(e: EditorView, index: usize) -> ScreenLine {
    if index < e.rows.len() {
        ScreenLine::Row(index)
    } else if saturating_add_spec(index, 1) == e.view_height() / 2 && e.filename is None
        && row_length(e.rows, 0) == 0 {
        ScreenLine::Welcome
    } else {
        ScreenLine::Tilde
    }
}

/// The welcome message on a terminal `width` columns wide: a tilde and a
/// space, then `banner` with as many spaces on either side as centre it, cut
/// to the width of the terminal.
pub open spec fn welcome_text(banner: Seq<char>, width: usize) -> Seq<char> {
    let padding = repeated(
        seq![' '],
        (saturating_sub_spec(saturating_sub_spec(width, banner.len() as usize), 2) / 2) as nat,
    );
    let line = "~ "@ + padding + banner + padding;
    if line.len() <= width {
        line
    } else {
        line.take(width as int)
    }
}

/// The welcome message for a terminal `term_width` columns wide.
pub fn welcome_message(banner: &str, term_width: usize) -> (r: String)
    ensures
        r@ == welcome_text(banner@, term_width),
{
    let chars = collect_chars(banner);
    let padding_len = term_width.saturating_sub(chars.len()).saturating_sub(2) / 2;
    let mut line: Vec<char> = Vec::new();
    line.push('~');
    line.push(' ');
    proof {
        reveal_strlit("~ ");
        assert(line@ =~= "~ "@ + repeated(seq![' '], 0));
    }
    let mut i: usize = 0;
    while i < padding_len
        invariant
            i <= padding_len,
            line@ == "~ "@ + repeated(seq![' '], i as nat),
        decreases padding_len - i,
    {
        line.push(' ');
        assert("~ "@ + repeated(seq![' '], i as nat) + seq![' '] =~= "~ "@ + repeated(
            seq![' '],
            (i + 1) as nat,
        ));
        i += 1;
    }
    let ghost padding = repeated(seq![' '], padding_len as nat);
    let mut k: usize = 0;
    assert(line@ =~= "~ "@ + padding + chars@.take(0));
    while k < chars.len()
        invariant
            k <= chars.len(),
            line@ == "~ "@ + padding + chars@.take(k as int),
        decreases chars.len() - k,
    {
        line.push(chars[k]);
        assert("~ "@ + padding + chars@.take(k as int) + seq![chars@[k as int]] =~= "~ "@ + padding
            + chars@.take(k + 1));
        k += 1;
    }
    assert(chars@.take(k as int) =~= chars@);
    i = 0;
    assert(line@ =~= "~ "@ + padding + chars@ + repeated(seq![' '], 0));
    while i < padding_len
        invariant
            i <= padding_len,
            line@ == "~ "@ + padding + chars@ + repeated(seq![' '], i as nat),
        decreases padding_len - i,
    {
        line.push(' ');
        assert("~ "@ + padding + chars@ + repeated(seq![' '], i as nat) + seq![' '] =~= "~ "@
            + padding + chars@ + repeated(seq![' '], (i + 1) as nat));
        i += 1;
    }
    let shown = if line.len() <= term_width {
        line.len()
    } else {
        term_width
    };
    let mut out = String::new();
    let mut j: usize = 0;
    while j < shown
        invariant
            j <= shown <= line.len(),
            out@ == line@.take(j as int),
        decreases shown - j,
    {
        out.push(line[j]);
        assert(line@.take(j + 1) =~= line@.take(j as int).push(line@[j as int]));
        j += 1;
    }
    assert(line@.take(line@.len() as int) =~= line@);
    out
}

/// How the help screen is laid out.
#[derive(Debug, PartialEq, Eq, Structural, Clone, Copy)]
pub struct HelpLayout {
    /// The number of empty lines above the help text and below it, less one.
    pub v_padding: u16,
    /// The number of spaces before every line of the help text.
    pub h_padding: usize,
    /// Whether one more empty line closes the screen.
    pub closing_line: bool,
}

/// The layout of a help text of `lines` lines, the longest of them
/// `max_line_length` bytes long, on a terminal of `size`. The text stands in
/// the middle of the screen, above the two bars at its bottom; the count of
/// the lines is taken by its low 16 bits.
pub open spec fn help_layout_spec(lines: usize, max_line_length: usize, size: ConsoleSize)
    -> HelpLayout {
    let count = (lines % 0x1_0000) as u16;
    let room = if size.height >= 2 {
        (size.height - 2) as u16
    } else {
        0
    };
    let v_padding = (if room >= count {
        (room - count) as u16
    } else {
        0
    }) / 2;
    HelpLayout {
        v_padding,
        h_padding: saturating_sub_spec(size.width as usize, max_line_length) / 2,
        closing_line: v_padding as int * 2 + count as int == saturating_sub_spec(
            size.height as usize,
            1,
        ),
    }
}

/// The layout of a help text of `lines` lines, the longest of them
/// `max_line_length` bytes long, on a terminal of `size`.
pub fn help_layout(lines: usize, max_line_length: usize, size: ConsoleSize) -> (r: HelpLayout)
    ensures
        r == help_layout_spec(lines, max_line_length, size),
{
    let count: u16 = (lines % 0x1_0000) as u16;
    let v_padding = size.height.saturating_sub(2).saturating_sub(count) / 2;
    let filled: u32 = v_padding as u32 * 2 + count as u32;
    HelpLayout {
        v_padding,
        h_padding: (size.width as usize).saturating_sub(max_line_length) / 2,
        closing_line: filled as usize == (size.height as usize).saturating_sub(1),
    }
}

impl Editor {
    /// The row `row` as line `line_number` of the text area.
    pub fn render_row(&self, row: &Row, line_number: LineNumber) -> (r: String)
        ensures
            r@ == rendered_row(self@, row@, line_number.value),
    {
        let row_visible_start = self.offset.columns;
        let mut row_visible_end = (self.console_size.width as usize).saturating_add(
            self.offset.columns,
        );
        if self.row_prefix_length > 0 {
            row_visible_end = row_visible_end.saturating_sub(
                self.row_prefix_length as usize,
            ).saturating_sub(1);
        }
        row.render(
            row_visible_start,
            row_visible_end,
            line_number.value,
            self.row_prefix_length as usize,
        )
    }

    /// What the line of the text area shows that stands for row `index` of
    /// the document.
    pub fn screen_line(&self, index: RowIndex) -> (r: ScreenLine)
        ensures
            r == screen_line(self@, index.value),
    {
        if index.value < self.document.num_rows() {
            ScreenLine::Row(index.value)
        } else if LineNumber::from(index).value == self.middle_of_screen_line_number().value
            && self.document.filename.is_none() && self.row_len(RowIndex::new(0)) == 0 {
            ScreenLine::Welcome
        } else {
            ScreenLine::Tilde
        }
    }
}

} // verus!
