//! What the editor does, stated over plain values: the state of the editor
//! as a mathematical record, and for every command the state that it leads
//! to.

use crate::commands::{parse_spec, Commands};
use crate::config::Config;
use crate::console::ConsoleSize;
use crate::document::{
    char_deleted, char_inserted, content_digest, hash_input, newline_inserted, row_deleted,
    row_joined, Lines,
};
use crate::editor::Position;
use crate::indexing::{saturating_add_spec, saturating_sub_spec};
use crate::mode::Mode;
use crate::navigator::{
    first_non_whitespace_from, matching_target, next_word_index, paragraph_target,
    previous_word_index, seed, Boundary,
};
use crate::terminal::cursor_index_of_press;
use crate::text::{first_byte_offset, occurs_in, trimmed, trimmed_end};
use crate::utils::{decimal_digits, red_spec};
use crate::viewport::{
    clicked, min_spec, moved, moved_to_column, moved_to_row, row_length, Direction, Viewport,
};
use std::path::PathBuf;
use vstd::prelude::*;

verus! {

/// The number of spaces that a tab key puts in.
pub const SPACES_PER_TAB: usize = 4;

/// The number of unsaved edits after which the document is saved to its swap
/// file.
pub const SWAP_SAVE_EVERY: u8 = 100;

/// The width of the line numbers in front of the rows, where they are shown.
pub const LINE_NUMBER_OFFSET: u8 = 4;

/// A key that the editor reacts to.
#[derive(Debug, PartialEq, Eq, Structural, Clone, Copy)]
pub enum Key {
    Char(char),
    Esc,
    Backspace,
    /// Any other key; the editor ignores it.
    Other,
}

/// What the mouse did.
#[derive(Debug, PartialEq, Eq, Structural, Clone, Copy)]
pub enum MouseEvent {
    /// The left button went down on the cell in column `x` of row `y` of the
    /// terminal, both counted from 1.
    PressLeft { x: u16, y: u16 },
    /// A button was released.
    Release,
    /// Anything else; the editor ignores it.
    Other,
}

/// What is left to do outside the editor after a key was handled: nothing,
/// or some work on files that the editor cannot do itself.
pub enum ActionView {
    Nothing,
    /// Open the file of this name and hand the document to the editor.
    Open(Seq<char>),
    /// Write the document to its file, or to a file of this name where it is
    /// not empty, and tell the editor how it went.
    Save(Seq<char>),
    /// Write the document to its file, tell the editor how it went, and ask
    /// it to quit.
    SaveAndQuit,
    /// Write the document to its swap file and tell the editor if it went
    /// well.
    SaveSwap,
    /// Write the state of the editor to the log.
    Debug,
}

/// How an attempt to save the document ended.
#[derive(Debug, PartialEq, Eq, Structural, Clone, Copy)]
pub enum SaveOutcome {
    /// The document is in its file.
    Saved,
    /// The file could not be given its new name; nothing was written.
    NotRenamed,
    /// The file could not be written.
    NotWritten,
}

/// The path that `std::path::PathBuf::from` makes of a text.
pub uninterp spec fn path_from_text(text: Seq<char>) -> PathBuf;

/// The names that the prompt completes to, in the order in which it offers
/// them.
pub open spec fn all_command_names() -> Seq<Seq<char>> {
    seq![
        "q"@,
        "q!"@,
        "ln"@,
        "stats"@,
        "help"@,
        "open"@,
        "o"@,
        "new"@,
        "w"@,
        "wq"@,
        "debug"@,
    ]
}

/// Whether `s` begins with `prefix`.
pub open spec fn starts_with(s: Seq<char>, prefix: Seq<char>) -> bool {
    prefix.len() <= s.len() && s.take(prefix.len() as int) == prefix
}

/// Those of `names` that begin with `prefix`, in their order.
pub open spec fn completions(names: Seq<Seq<char>>, prefix: Seq<char>) -> Seq<Seq<char>>
    decreases names.len(),
{
    if names.len() == 0 {
        Seq::empty()
    } else if starts_with(names.last(), prefix) {
        completions(names.drop_last(), prefix).push(names.last())
    } else {
        completions(names.drop_last(), prefix)
    }
}

/// Whether `c` is one of the digits `0` to `9`.
pub open spec fn is_digit(c: char) -> bool {
    '0' <= c <= '9'
}

/// The value of the digit `c`.
pub open spec fn digit_value(c: char) -> nat {
    (c as u32 - '0' as u32) as nat
}

/// Whether `s` is made of digits only.
pub open spec fn all_digits(s: Seq<char>) -> bool {
    forall|i: int| 0 <= i < s.len() ==> is_digit(#[trigger] s[i])
}

/// The number that the digits `s` write in decimal.
pub open spec fn decimal_value(s: Seq<char>) -> nat
    decreases s.len(),
{
    if s.len() == 0 {
        0
    } else {
        decimal_value(s.drop_last()) * 10 + digit_value(s.last())
    }
}

/// The number that `s` writes in decimal, where `s` is one or more digits
/// and the number fits a `usize`.
pub open spec fn parse_number_spec(s: Seq<char>) -> Option<usize> {
    if s.len() > 0 && all_digits(s) && decimal_value(s) <= usize::MAX {
        Some(decimal_value(s) as usize)
    } else {
        None
    }
}

/// The index of the first `c` in `s`, or the length of `s` where it holds
/// none.
pub open spec fn index_of(s: Seq<char>, c: char) -> int
    decreases s.len(),
{
    if s.len() == 0 {
        0
    } else if s[0] == c {
        0
    } else {
        1 + index_of(s.drop_first(), c)
    }
}

/// What stands in `s` before its first space.
pub open spec fn first_word(s: Seq<char>) -> Seq<char> {
    s.take(index_of(s, ' '))
}

/// What stands in `s` behind its first space; nothing where it has none.
pub open spec fn after_first_word(s: Seq<char>) -> Seq<char> {
    if index_of(s, ' ') < s.len() {
        s.skip(index_of(s, ' ') + 1)
    } else {
        Seq::empty()
    }
}

/// The matches of `pattern` in `rows`: one entry for each row in which the
/// pattern stands, top to bottom. An entry begins at the byte offset of the
/// first place where the pattern stands in the row, on the line of the row,
/// and ends one column behind the pattern, as many columns on as the pattern
/// has bytes.
pub open spec fn matches_of(rows: Lines, pattern: Seq<char>) -> Seq<(Position, Position)>
    decreases rows.len(),
{
    if rows.len() == 0 {
        Seq::empty()
    } else if occurs_in(rows.last(), pattern) {
        let start = first_byte_offset(rows.last(), pattern) as usize;
        let line = saturating_add_spec((rows.len() - 1) as usize, 1);
        matches_of(rows.drop_last(), pattern).push(
            (
                Position { x: start, y: line },
                Position {
                    x: saturating_add_spec(
                        saturating_add_spec(start, 1),
                        vstd::utf8::encode_utf8(pattern).len() as usize,
                    ),
                    y: line,
                },
            ),
        )
    } else {
        matches_of(rows.drop_last(), pattern)
    }
}

/// The message that tells which match the cursor is on: `Match`, the number
/// of the match, a slash and the number of matches.
pub open spec fn match_message(index: usize, count: usize) -> Seq<char> {
    "Match "@ + decimal_digits(saturating_add_spec(index, 1) as nat) + "/"@ + decimal_digits(
        count as nat,
    )
}

/// The message that a command of the prompt is not known.
pub open spec fn unknown_command_message(name: Seq<char>) -> Seq<char> {
    red_spec("Unknown command '"@ + name + "'"@)
}

/// `rows` after the character `c` went in `times` times at column `x` of row
/// `y`.
pub open spec fn chars_inserted(rows: Lines, c: char, x: int, y: int, times: nat) -> Lines
    decreases times,
{
    if times == 0 {
        rows
    } else {
        char_inserted(chars_inserted(rows, c, x, y, (times - 1) as nat), c, x, y)
    }
}

/// `rows` with the whitespace at the end of every row removed.
pub open spec fn rows_trimmed(rows: Lines) -> Lines {
    Seq::new(rows.len(), |i: int| trimmed_end(rows[i]))
}

/// The state of the editor.
pub struct EditorView {
    pub rows: Lines,
    pub filename: Option<PathBuf>,
    pub view: Viewport,
    pub mode: Mode,
    pub size: ConsoleSize,
    pub config: Config,
    pub message: Seq<char>,
    pub search_matches: Seq<(Position, Position)>,
    pub current_search_match_index: usize,
    pub last_saved_hash: u64,
    pub unsaved_edits: u8,
    pub should_quit: bool,
    pub command_buffer: Seq<char>,
    pub command_suggestions: Seq<Seq<char>>,
    pub current_autocompletion_index: usize,
    pub normal_command_buffer: Seq<Seq<char>>,
    pub mouse_event_buffer: Seq<Position>,
    pub alternate_screen: bool,
    pub row_prefix_length: u8,
}

impl EditorView {
    /// The row of the document that the cursor is in.
    pub open spec fn row(self) -> usize {
        saturating_add_spec(self.view.cursor.y, self.view.offset.rows)
    }

    /// The column of the document that the cursor is in.
    pub open spec fn column(self) -> usize {
        saturating_add_spec(self.view.cursor.x, self.view.offset.columns)
    }

    /// The number of rows of the document.
    pub open spec fn num_rows(self) -> usize {
        self.rows.len() as usize
    }

    /// The height of the part of the screen that shows text.
    pub open spec fn view_height(self) -> usize {
        self.size.restrict_to_text_area_spec().height as usize
    }

    /// The number of clusters of the row that the cursor is in.
    pub open spec fn current_length(self) -> usize {
        row_length(self.rows, self.row())
    }

    /// Whether the document has changed since it was last saved.
    pub open spec fn is_dirty(self) -> bool {
        self.last_saved_hash != content_digest(hash_input(self.rows))
    }

    /// Whether the prompt is open.
    pub open spec fn is_receiving_command(self) -> bool {
        self.command_buffer.len() > 0
    }

    /// Whether the prompt offers completions.
    pub open spec fn is_autocompleting_command(self) -> bool {
        self.is_receiving_command() && self.command_suggestions.len() > 0
    }

    pub open spec fn with_view(self, view: Viewport) -> Self {
        EditorView { view, ..self }
    }

    pub open spec fn with_rows(self, rows: Lines) -> Self {
        EditorView { rows, ..self }
    }

    pub open spec fn with_mode(self, mode: Mode) -> Self {
        EditorView { mode, ..self }
    }

    pub open spec fn with_message(self, message: Seq<char>) -> Self {
        EditorView { message, ..self }
    }

    pub open spec fn with_command_buffer(self, command_buffer: Seq<char>) -> Self {
        EditorView { command_buffer, ..self }
    }

    /// The cursor moved to column `x`.
    pub open spec fn to_column(self, x: usize) -> Self {
        self.with_view(moved_to_column(self.view, x, self.size.width as usize))
    }

    /// The cursor moved to row `y`.
    pub open spec fn to_row(self, y: usize) -> Self {
        self.with_view(moved_to_row(self.view, y, self.num_rows(), self.view_height()))
    }

    /// The cursor moved to column `x` of row `y`.
    pub open spec fn to_x_y(self, x: usize, y: usize) -> Self {
        self.to_column(x).to_row(y)
    }

    /// The cursor moved to column `x` of line `line`.
    pub open spec fn to_line(self, line: usize, x: usize) -> Self {
        self.to_x_y(x, saturating_sub_spec(line, 1))
    }

    /// The cursor moved `times` steps in `direction`.
    pub open spec fn stepped(self, direction: Direction, times: nat) -> Self {
        self.with_view(moved(self.view, self.rows, self.mode, self.size, direction, times))
    }

    /// The cursor put where the screen was clicked, if the document has text
    /// there.
    pub open spec fn clicked(self, click: Position) -> Self {
        self.with_view(clicked(self.view, self.rows, click))
    }

    /// The cursor moved to the first cluster of its row, or to the last.
    pub open spec fn to_line_boundary(self, boundary: Boundary) -> Self {
        match boundary {
            Boundary::Start => self.to_column(0),
            Boundary::End => self.to_column(saturating_sub_spec(self.current_length(), 1)),
        }
    }

    /// The cursor moved to the first line of the document, or to the last.
    pub open spec fn to_document_boundary(self, boundary: Boundary) -> Self {
        match boundary {
            Boundary::Start => self.to_line(1, 0),
            Boundary::End => self.to_line(self.num_rows(), 0),
        }
    }

    /// The row of the cursor deleted. A cursor that stood, counted on the
    /// screen, on or below what is now the last row of the document goes to
    /// the last line and keeps its column; any other goes to the first column
    /// of its row.
    pub open spec fn line_deleted(self) -> Self {
        let e = self.with_rows(row_deleted(self.rows, self.row() as int));
        if e.view.cursor.y >= saturating_sub_spec(e.num_rows(), 1) {
            e.to_line(e.num_rows(), e.view.cursor.x)
        } else {
            e.with_view(
                Viewport { cursor: Position { x: 0, y: e.view.cursor.y }, offset: e.view.offset },
            )
        }
    }

    /// The cluster under the cursor deleted.
    pub open spec fn grapheme_deleted(self) -> Self {
        self.with_rows(char_deleted(self.rows, self.column(), self.column(), self.row() as int))
    }

    /// A line opened below the row of the cursor, with the cursor in it, in
    /// insert mode.
    pub open spec fn newline_after(self) -> Self {
        self.with_rows(
            newline_inserted(self.rows, self.current_length() as int, self.row() as int),
        ).to_x_y(0, saturating_add_spec(self.row(), 1)).with_mode(Mode::Insert)
    }

    /// A line break put in at the start of the row of the cursor, with the
    /// cursor at the start of that row, in insert mode.
    pub open spec fn newline_before(self) -> Self {
        self.with_rows(newline_inserted(self.rows, 0, self.row() as int)).to_x_y(
            0,
            self.row(),
        ).with_mode(Mode::Insert)
    }

    /// Insert mode, with the cursor behind the last cluster of its row.
    pub open spec fn appending(self) -> Self {
        self.with_mode(Mode::Insert).to_line_boundary(Boundary::End).stepped(Direction::Right, 1)
    }

    /// The row below the cursor joined onto the row of the cursor, with a
    /// space between them, and the cursor on the last cluster of the joined
    /// row.
    pub open spec fn joined_with_next(self) -> Self {
        if self.row() < self.rows.len() {
            self.with_rows(
                row_joined(
                    self.rows,
                    saturating_sub_spec(self.current_length(), 1),
                    saturating_add_spec(self.row(), 1) as int,
                    Some(' '),
                ),
            ).to_line_boundary(Boundary::End)
        } else {
            self
        }
    }

    /// The cursor moved `times` paragraphs on, to the first column.
    pub open spec fn to_paragraph(self, boundary: Boundary, times: nat) -> Self
        decreases times,
    {
        if times == 0 {
            self
        } else {
            let e = self.to_paragraph(boundary, (times - 1) as nat);
            e.to_line(
                paragraph_target(e.rows, saturating_add_spec(e.row(), 1) as int, boundary) as usize,
                0,
            )
        }
    }

    /// The cursor moved `times` words on within its row. Nothing moves where
    /// the document has no row under the cursor.
    pub open spec fn to_word(self, boundary: Boundary, times: nat) -> Self
        decreases times,
    {
        if times == 0 {
            self
        } else {
            let e = self.to_word(boundary, (times - 1) as nat);
            if e.row() < e.rows.len() {
                e.to_column(
                    match boundary {
                        Boundary::End => next_word_index(e.rows[e.row() as int], e.column()),
                        Boundary::Start => previous_word_index(e.rows[e.row() as int], e.column()),
                    },
                )
            } else {
                e
            }
        }
    }

    /// The cursor moved to the first character of its row that is not
    /// whitespace, if there is one.
    pub open spec fn to_first_non_whitespace(self) -> Self {
        if self.row() < self.rows.len() {
            match first_non_whitespace_from(self.rows[self.row() as int], 0) {
                Some(x) => self.to_column(x),
                None => self,
            }
        } else {
            self
        }
    }

    /// The cursor moved to the first column of the line in the middle of the
    /// screen.
    pub open spec fn to_middle_of_terminal(self) -> Self {
        self.to_line(saturating_add_spec(self.view_height() / 2, self.view.offset.rows), 0)
    }

    /// The cursor moved to the first column of the first line of the screen.
    pub open spec fn to_first_line_of_terminal(self) -> Self {
        self.to_line(saturating_add_spec(self.view.offset.rows, 1), 0)
    }

    /// The cursor moved to the first column of the last line of the screen.
    pub open spec fn to_last_line_of_terminal(self) -> Self {
        self.to_line(saturating_add_spec(self.view_height(), self.view.offset.rows), 0)
    }

    /// The cursor moved to the first column of the line that lies `percent`
    /// hundredths into the document, at most all of them.
    pub open spec fn to_percentage(self, percent: usize) -> Self {
        self.to_line((self.num_rows() * min_spec(percent, 100) / 100) as usize, 0)
    }

    /// The cursor moved to the symbol that matches the one under it: from an
    /// opening bracket or a quote forward to what closes it, from a closing
    /// bracket backward to what opens it. Nothing moves where the cursor is
    /// on no such symbol or the symbol has no match.
    pub open spec fn to_matching_symbol(self) -> Self {
        let forward = seed(true, self.rows, self.column() as int, self.row() as int) is Some;
        match matching_target(forward, self.rows, self.column() as int, self.row() as int) {
            Some(p) => self.to_x_y(p.x, p.y),
            None => self,
        }
    }

    /// The cluster before the cursor deleted, as the backspace key does it.
    /// In the first column of the screen, below the first row of the screen,
    /// the row is joined onto the one above, and the cursor goes to where
    /// that row ended; in the first column of the first row nothing happens.
    pub open spec fn erased_backwards(self) -> Self {
        if self.view.cursor.x == 0 {
            if self.view.cursor.y > 0 {
                let above = saturating_sub_spec(self.row(), 1);
                self.with_rows(char_deleted(self.rows, 0, 0, self.row() as int)).to_x_y(
                    row_length(self.rows, above),
                    above,
                )
            } else {
                self
            }
        } else {
            self.with_rows(
                char_deleted(
                    self.rows,
                    saturating_sub_spec(self.column(), 1),
                    self.column(),
                    self.row() as int,
                ),
            ).stepped(Direction::Left, 1)
        }
    }

    /// The line broken at the cursor, and the cursor at the start of the row
    /// below.
    pub open spec fn line_broken(self) -> Self {
        self.with_rows(newline_inserted(self.rows, self.column() as int, self.row() as int)).to_x_y(
            0,
            saturating_add_spec(self.row(), 1),
        )
    }

    /// The character `c` put in at the cursor `times` times, and the cursor
    /// moved on behind them.
    pub open spec fn typed(self, c: char, times: nat) -> Self {
        self.with_rows(
            chars_inserted(self.rows, c, self.column() as int, self.row() as int, times),
        ).stepped(Direction::Right, times)
    }

    /// The matches of the last search forgotten.
    pub open spec fn search_reset(self) -> Self {
        EditorView { search_matches: Seq::empty(), current_search_match_index: 0, ..self }
    }

    /// The cursor on the match at `index`, and a message that says so; only
    /// the index and the message change where the search has no match at
    /// `index`.
    pub open spec fn at_search_match(self, index: usize) -> Self {
        let e = EditorView {
            current_search_match_index: index,
            message: match_message(index, self.search_matches.len() as usize),
            ..self
        };
        if index < self.search_matches.len() {
            e.to_line(self.search_matches[index as int].0.y, self.search_matches[index as int].0.x)
        } else {
            e
        }
    }

    /// The cursor on the next match of the search, going round from the last
    /// to the first. Nothing changes where the search has no match.
    pub open spec fn at_next_search_match(self) -> Self {
        if self.search_matches.len() == 0 {
            self
        } else if self.current_search_match_index == saturating_sub_spec(
            self.search_matches.len() as usize,
            1,
        ) {
            self.at_search_match(0)
        } else {
            self.at_search_match(saturating_add_spec(self.current_search_match_index, 1))
        }
    }

    /// The cursor on the previous match of the search, going round from the
    /// first to the last. Nothing changes where the search has no match.
    pub open spec fn at_previous_search_match(self) -> Self {
        if self.search_matches.len() == 0 {
            self
        } else if self.current_search_match_index == 0 {
            self.at_search_match(saturating_sub_spec(self.search_matches.len() as usize, 1))
        } else {
            self.at_search_match(saturating_sub_spec(self.current_search_match_index, 1))
        }
    }

    /// The document searched for `pattern`: its matches kept, the cursor on
    /// the first of them, and a message that tells the number of the match,
    /// or that there are `0 matches`.
    #[verifier::opaque]
    pub open spec fn searched(self, pattern: Seq<char>) -> Self {
        let found = matches_of(self.rows, pattern);
        (EditorView {
            search_matches: found,
            current_search_match_index: saturating_sub_spec(found.len() as usize, 1),
            message: decimal_digits(found.len()) + " matches"@,
            ..self
        }).at_next_search_match()
    }

    /// The editor asked to quit: it will, unless the document has unsaved
    /// changes and `force` is not set, which a message then says.
    pub open spec fn quitting(self, force: bool) -> Self {
        if self.is_dirty() && !force {
            self.with_message(red_spec("Unsaved changes! Run :q! to override"@))
        } else {
            EditorView { should_quit: true, ..self }
        }
    }

    /// The document that was read from a file taken as the document of the
    /// editor, with the cursor at the top left of the screen.
    pub open spec fn loaded(self, rows: Lines, filename: Option<PathBuf>) -> Self {
        EditorView {
            rows,
            filename,
            last_saved_hash: content_digest(hash_input(rows)),
            message: Seq::empty(),
            view: Viewport { cursor: Position { x: 0, y: 0 }, offset: self.view.offset },
            ..self
        }
    }

    /// The editor before the document is written to a file: the whitespace
    /// at the end of every row removed, and the cursor moved left onto the
    /// last cluster of its row where it stood behind it.
    pub open spec fn ready_to_save(self) -> Self {
        let e = self.with_rows(rows_trimmed(self.rows));
        if e.view.cursor.x >= e.current_length() {
            e.with_view(
                Viewport {
                    cursor: Position {
                        x: saturating_sub_spec(e.current_length(), 1),
                        y: e.view.cursor.y,
                    },
                    offset: e.view.offset,
                },
            )
        } else {
            e
        }
    }

    /// The editor asked to save the document, under the name `new_name`
    /// where that is not empty, and then to quit where `and_quit` is set.
    /// Without a name to save under there is nothing to write, which a
    /// message says.
    #[verifier::opaque]
    pub open spec fn save_requested(self, new_name: Seq<char>, and_quit: bool) -> (
        EditorView,
        ActionView,
    ) {
        let e = self.ready_to_save();
        if new_name.len() == 0 && e.filename is None {
            let refused = e.with_message(red_spec("No file name"@));
            if and_quit {
                (refused.quitting(false), ActionView::Nothing)
            } else {
                (refused, ActionView::Nothing)
            }
        } else if and_quit {
            (e, ActionView::SaveAndQuit)
        } else {
            (e, ActionView::Save(new_name))
        }
    }

    /// The editor after an attempt to save the document, under the name
    /// `new_name` where that is not empty, ended with `outcome`.
    #[verifier::opaque]
    pub open spec fn save_finished(self, new_name: Seq<char>, outcome: SaveOutcome) -> Self {
        let saved = EditorView {
            unsaved_edits: 0,
            last_saved_hash: content_digest(hash_input(self.rows)),
            ..self
        };
        if new_name.len() == 0 {
            match outcome {
                SaveOutcome::Saved => saved.with_message("File successfully saved"@),
                _ => self.with_message(red_spec("Error writing to file!"@)),
            }
        } else {
            match outcome {
                SaveOutcome::Saved => EditorView {
                    filename: Some(path_from_text(new_name)),
                    message: if self.filename is None {
                        "Buffer saved to "@ + new_name
                    } else {
                        new_name + " successfully renamed to "@ + new_name
                    },
                    ..saved
                },
                SaveOutcome::NotRenamed => saved.with_message(red_spec("Error writing to file!"@)),
                SaveOutcome::NotWritten => EditorView {
                    filename: Some(path_from_text(new_name)),
                    message: red_spec("Error writing to file!"@),
                    ..saved
                },
            }
        }
    }

    /// The editor after the document was written to its swap file, or not.
    pub open spec fn swap_saved(self, ok: bool) -> Self {
        if ok {
            EditorView { unsaved_edits: 0, ..self }
        } else {
            self
        }
    }

    /// The number of times that the next command of normal mode is to be
    /// done: the number that the keys typed before it write, and once where
    /// they write none.
    pub open spec fn repetitions(self) -> usize {
        if self.normal_command_buffer.len() == 0 {
            1
        } else {
            match parse_number_spec(self.normal_command_buffer.flatten()) {
                Some(times) => times,
                None => 1,
            }
        }
    }

    /// The completions of the prompt dropped.
    pub open spec fn autocompletions_reset(self) -> Self {
        EditorView { command_suggestions: Seq::empty(), current_autocompletion_index: 0, ..self }
    }

    /// The next completion of the prompt chosen, going round from the last to
    /// the first.
    pub open spec fn suggestions_cycled(self) -> Self {
        EditorView {
            current_autocompletion_index: if self.current_autocompletion_index
                == saturating_sub_spec(self.command_suggestions.len() as usize, 1) {
                0
            } else {
                saturating_add_spec(self.current_autocompletion_index, 1)
            },
            ..self
        }
    }

    /// The chosen completion taken into the prompt, and the completions
    /// dropped.
    pub open spec fn suggestion_accepted(self) -> Self {
        (if self.current_autocompletion_index < self.command_suggestions.len() {
            self.with_command_buffer(
                seq![':'] + self.command_suggestions[self.current_autocompletion_index as int],
            )
        } else {
            self
        }).autocompletions_reset()
    }

    /// The prompt completed from what was typed behind its colon. One name
    /// that begins with it goes into the prompt; of several the prompt offers
    /// all; with none nothing changes.
    #[verifier::opaque]
    pub open spec fn autocompleted(self) -> Self {
        let typed = if self.command_buffer.len() > 0 && self.command_buffer[0] == ':' {
            self.command_buffer.skip(1)
        } else {
            Seq::empty()
        };
        let found = completions(all_command_names(), typed);
        if found.len() == 0 {
            self
        } else if found.len() == 1 {
            self.with_command_buffer(seq![':'] + found[0])
        } else {
            EditorView { command_suggestions: found, ..self }
        }
    }

    /// The command `command` of the prompt carried out.
    #[verifier::opaque]
    pub open spec fn prompt_command(self, command: Seq<char>) -> (EditorView, ActionView) {
        if command.len() == 0 {
            (self, ActionView::Nothing)
        } else if parse_number_spec(command) is Some {
            (self.to_line(parse_number_spec(command)->0, 0), ActionView::Nothing)
        } else if index_of(command, ' ') < command.len() {
            let name = first_word(command);
            let rest = after_first_word(command);
            match parse_spec(name) {
                Commands::Open | Commands::OpenShort => (self, ActionView::Open(first_word(rest))),
                Commands::New => (
                    EditorView {
                        rows: seq![Seq::empty()],
                        filename: Some(path_from_text(first_word(rest))),
                        mode: Mode::Insert,
                        ..self
                    },
                    ActionView::Nothing,
                ),
                Commands::Save => self.save_requested(trimmed(rest), false),
                _ => (self.with_message(unknown_command_message(name)), ActionView::Nothing),
            }
        } else {
            match parse_spec(command) {
                Commands::ForceQuit => (self.quitting(true), ActionView::Nothing),
                Commands::Quit => (self.quitting(false), ActionView::Nothing),
                Commands::LineNumbers => (
                    EditorView {
                        config: Config {
                            display_line_numbers: !self.config.display_line_numbers,
                            display_stats: self.config.display_stats,
                        },
                        row_prefix_length: if !self.config.display_line_numbers {
                            LINE_NUMBER_OFFSET
                        } else {
                            0
                        },
                        ..self
                    },
                    ActionView::Nothing,
                ),
                Commands::Stats => (
                    EditorView {
                        config: Config {
                            display_line_numbers: self.config.display_line_numbers,
                            display_stats: !self.config.display_stats,
                        },
                        ..self
                    },
                    ActionView::Nothing,
                ),
                Commands::Help => (
                    EditorView { alternate_screen: true, ..self },
                    ActionView::Nothing,
                ),
                Commands::Save => self.save_requested(Seq::empty(), false),
                Commands::SaveAnQuit => self.save_requested(Seq::empty(), true),
                Commands::Debug => (self, ActionView::Debug),
                _ => (self.with_message(unknown_command_message(command)), ActionView::Nothing),
            }
        }
    }

    /// What stands in the prompt carried out: a search behind a slash, a
    /// command behind a colon.
    #[verifier::opaque]
    pub open spec fn command_received(self) -> (EditorView, ActionView) {
        if self.command_buffer.len() > 0 && self.command_buffer[0] == '/' {
            (self.searched(self.command_buffer.skip(1)), ActionView::Nothing)
        } else if self.command_buffer.len() > 0 && self.command_buffer[0] == ':' {
            self.prompt_command(self.command_buffer.skip(1))
        } else {
            (self, ActionView::Nothing)
        }
    }

    /// The editor after the key `key` went to the open prompt: escape closes
    /// it, enter carries out what stands in it and closes it, tab completes
    /// it, backspace takes its last character, and any other character goes
    /// into it.
    #[verifier::opaque]
    pub open spec fn after_prompt_key(self, key: Key) -> (EditorView, ActionView) {
        match key {
            Key::Esc => (self.with_command_buffer(Seq::empty()), ActionView::Nothing),
            Key::Char(c) => if c == '\n' {
                let (e, action) = self.command_received();
                (e.with_command_buffer(Seq::empty()), action)
            } else if c == '\t' {
                (self.autocompleted(), ActionView::Nothing)
            } else {
                (self.with_command_buffer(self.command_buffer.push(c)), ActionView::Nothing)
            },
            Key::Backspace => (
                self.with_command_buffer(
                    if self.command_buffer.len() > 0 {
                        self.command_buffer.drop_last()
                    } else {
                        self.command_buffer
                    },
                ),
                ActionView::Nothing,
            ),
            Key::Other => (self, ActionView::Nothing),
        }
    }

    /// The editor after the command of normal mode that the character `c`
    /// stands for, done `times` times.
    #[verifier::opaque]
    pub open spec fn after_repeated_command(self, c: char, times: usize) -> Self {
        if c == 'b' {
            self.to_word(Boundary::Start, times as nat)
        } else if c == 'w' {
            self.to_word(Boundary::End, times as nat)
        } else if c == 'h' {
            self.stepped(Direction::Left, times as nat)
        } else if c == 'j' {
            self.stepped(Direction::Down, times as nat)
        } else if c == 'k' {
            self.stepped(Direction::Up, times as nat)
        } else if c == 'l' {
            self.stepped(Direction::Right, times as nat)
        } else if c == '}' {
            self.to_paragraph(Boundary::End, times as nat)
        } else if c == '{' {
            self.to_paragraph(Boundary::Start, times as nat)
        } else if c == '%' {
            self.to_percentage(times)
        } else {
            self
        }
    }

    /// The editor after the character `c` was typed in normal mode. A digit
    /// goes to the count of the next repeated command, but for a zero that
    /// begins no count, which moves to the start of the line. The characters
    /// that stand for a command carry it out; those that can be repeated use
    /// up the count.
    #[verifier::opaque]
    pub open spec fn after_normal_char(self, c: char) -> Self {
        if c == '0' {
            if self.normal_command_buffer.len() == 0 {
                self.to_line_boundary(Boundary::Start)
            } else {
                EditorView {
                    normal_command_buffer: self.normal_command_buffer.push(seq![c]),
                    ..self
                }
            }
        } else if '1' <= c <= '9' {
            EditorView { normal_command_buffer: self.normal_command_buffer.push(seq![c]), ..self }
        } else if c == 'i' {
            self.with_mode(Mode::Insert)
        } else if c == ':' || c == '/' {
            self.with_command_buffer(self.command_buffer.push(c))
        } else if c == 'G' {
            self.to_document_boundary(Boundary::End)
        } else if c == 'g' {
            self.to_document_boundary(Boundary::Start)
        } else if c == '$' {
            self.to_line_boundary(Boundary::End)
        } else if c == '^' {
            self.to_first_non_whitespace()
        } else if c == 'H' {
            self.to_first_line_of_terminal()
        } else if c == 'M' {
            self.to_middle_of_terminal()
        } else if c == 'L' {
            self.to_last_line_of_terminal()
        } else if c == 'm' {
            self.to_matching_symbol()
        } else if c == 'n' {
            self.at_next_search_match()
        } else if c == 'N' {
            self.at_previous_search_match()
        } else if c == 'q' {
            EditorView { message: Seq::empty(), alternate_screen: false, ..self }
        } else if c == 'd' {
            self.line_deleted()
        } else if c == 'x' {
            self.grapheme_deleted()
        } else if c == 'o' {
            self.newline_after()
        } else if c == 'O' {
            self.newline_before()
        } else if c == 'A' {
            self.appending()
        } else if c == 'J' {
            self.joined_with_next()
        } else {
            (EditorView { normal_command_buffer: Seq::empty(), ..self }).after_repeated_command(
                c,
                self.repetitions(),
            )
        }
    }

    /// The editor after the key `key` was pressed in normal mode. Escape
    /// clears the message and the search; a character is a command; nothing
    /// else does anything.
    #[verifier::opaque]
    pub open spec fn after_normal_key(self, key: Key) -> Self {
        match key {
            Key::Esc => self.with_message(Seq::empty()).search_reset(),
            Key::Char(c) => self.after_normal_char(c),
            _ => self,
        }
    }

    /// The editor after the key `key` was pressed in insert mode. Escape
    /// leads back to normal mode. Any other key counts as an edit: backspace
    /// deletes backwards, enter breaks the line, tab puts in spaces, any other
    /// character goes into the text. Every [`SWAP_SAVE_EVERY`] edits the
    /// document is due to be saved to its swap file.
    #[verifier::opaque]
    pub open spec fn after_insert_key(self, key: Key) -> (EditorView, ActionView) {
        match key {
            Key::Esc => (self.with_mode(Mode::Normal), ActionView::Nothing),
            _ => {
                let e = match key {
                    Key::Backspace => self.erased_backwards(),
                    Key::Char(c) => if c == '\n' {
                        self.line_broken()
                    } else if c == '\t' {
                        self.typed(' ', SPACES_PER_TAB as nat)
                    } else {
                        self.typed(c, 1)
                    },
                    _ => self,
                };
                let edits = if self.unsaved_edits == u8::MAX {
                    u8::MAX
                } else {
                    (self.unsaved_edits + 1) as u8
                };
                (
                    EditorView { unsaved_edits: edits, ..e },
                    if edits >= SWAP_SAVE_EVERY {
                        ActionView::SaveSwap
                    } else {
                        ActionView::Nothing
                    },
                )
            },
        }
    }

    /// The editor after the key `key` was pressed. With the prompt open the
    /// key goes to the prompt; where the prompt offers completions, tab goes
    /// on to the next, enter takes the chosen one and carries it out, and any
    /// other key drops them and goes to the prompt. With the prompt closed the
    /// key goes to the mode that the editor is in.
    pub open spec fn after_key(self, key: Key) -> (EditorView, ActionView) {
        if self.is_receiving_command() {
            if self.is_autocompleting_command() {
                if key == Key::Char('\t') {
                    (self.suggestions_cycled(), ActionView::Nothing)
                } else if key == Key::Char('\n') {
                    self.suggestion_accepted().after_prompt_key(key)
                } else {
                    self.autocompletions_reset().after_prompt_key(key)
                }
            } else {
                self.after_prompt_key(key)
            }
        } else {
            match self.mode {
                Mode::Normal => (self.after_normal_key(key), ActionView::Nothing),
                Mode::Insert => self.after_insert_key(key),
            }
        }
    }

    /// The editor after the mouse did `event`. A press of the left button is
    /// kept; a release moves the cursor to where the last press was, if the
    /// document has text there.
    pub open spec fn after_mouse(self, event: MouseEvent) -> Self {
        match event {
            MouseEvent::PressLeft { x, y } => EditorView {
                mouse_event_buffer: self.mouse_event_buffer.push(
                    cursor_index_of_press(x, y, self.row_prefix_length),
                ),
                ..self
            },
            MouseEvent::Release => if self.mouse_event_buffer.len() > 0 {
                (EditorView {
                    mouse_event_buffer: self.mouse_event_buffer.drop_last(),
                    ..self
                }).clicked(self.mouse_event_buffer.last())
            } else {
                self
            },
            MouseEvent::Other => self,
        }
    }
}

} // verus!
