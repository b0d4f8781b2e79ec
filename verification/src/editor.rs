//! The cursor, the viewport, and the rules that move them over a document.

use crate::config::Config;
use crate::console::ConsoleSize;
use crate::document::{content_digest, hash_input, Document};
use crate::indexing::{line_number_of, saturating_add_spec, saturating_sub_spec, LineNumber, RowIndex};
use crate::mode::Mode;
use crate::model::{matches_of, path_from_text, ActionView, EditorView, SaveOutcome};
use crate::navigator::{Boundary, Navigator};
use crate::row::{cluster_at, Row};
use crate::terminal::AnsiPosition;
use crate::text::{lemma_first_byte_offset, texts};
use crate::utils::{decimal_string, red};
use crate::viewport::{row_length, stepped_times, Direction, Viewport};
use std::path::PathBuf;
use vstd::prelude::*;
use vstd::std_specs::convert::FromSpecImpl;
use vstd::string::StringExecFns;

verus! {

/// A column `x` and a row `y`, both counted from 0.
#[derive(Debug, PartialEq, Eq, Structural, Clone, Copy)]
pub struct Position {
    pub x: usize,
    pub y: usize,
}

impl Default for Position {
    fn default() -> (r: Self)
        ensures
            r == (Position { x: 0, y: 0 }),
    {
        Self { x: 0, y: 0 }
    }
}

impl Position {
    /// Moves to the first column.
    pub fn reset_x(&mut self)
        ensures
            final(self).x == 0,
            final(self).y == old(self).y,
    {
        self.x = 0;
    }

    /// The first column of the first row.
    #[must_use]
    pub fn top_left() -> (r: Self)
        ensures
            r == (Position { x: 0, y: 0 }),
    {
        Self { x: 0, y: 0 }
    }
}

/// The 0-based coordinate of an ANSI one: one less, held at zero.
pub open spec fn zero_based(v: u16) -> usize {
    if v == 0 {
        0
    } else {
        (v - 1) as usize
    }
}

impl From<AnsiPosition> for Position {
    fn from(p: AnsiPosition) -> (r: Self) {
        Self { x: p.x.saturating_sub(1) as usize, y: p.y.saturating_sub(1) as usize }
    }
}

impl FromSpecImpl<AnsiPosition> for Position {
    open spec fn obeys_from_spec() -> bool {
        true
    }

    open spec fn from_spec(p: AnsiPosition) -> Self {
        Position { x: zero_based(p.x), y: zero_based(p.y) }
    }
}

/// How far the viewport is scrolled: the number of rows above it and of
/// columns to its left.
#[derive(Debug, PartialEq, Eq, Structural, Clone, Copy)]
pub struct ViewportOffset {
    pub rows: usize,
    pub columns: usize,
}

impl Default for ViewportOffset {
    fn default() -> (r: Self)
        ensures
            r == (ViewportOffset { rows: 0, columns: 0 }),
    {
        Self { rows: 0, columns: 0 }
    }
}


/// What is left to do outside the editor after a key was handled.
#[derive(Debug, PartialEq, Eq)]
pub enum Action {
    /// Nothing.
    Nothing,
    /// Open the file of this name and hand the document to
    /// [`Editor::load`].
    Open(String),
    /// Write the document to its file, or to a file of this name where it is
    /// not empty, and tell [`Editor::finish_save`] how it went.
    Save(String),
    /// Write the document to its file, tell [`Editor::finish_save`] how it
    /// went, and call [`Editor::quit`].
    SaveAndQuit,
    /// Write the document to its swap file and tell
    /// [`Editor::finish_swap_save`] if it went well.
    SaveSwap,
    /// Write the state of the editor to the log.
    Debug,
}

impl View for Action {
    type V = ActionView;

    open spec fn view(&self) -> ActionView {
        match *self {
            Action::Nothing => ActionView::Nothing,
            Action::Open(name) => ActionView::Open(name@),
            Action::Save(name) => ActionView::Save(name@),
            Action::SaveAndQuit => ActionView::SaveAndQuit,
            Action::SaveSwap => ActionView::SaveSwap,
            Action::Debug => ActionView::Debug,
        }
    }
}

/// Trusted: `std::path::PathBuf::from` makes a path of a text; the path is
/// what [`path_from_text`] names.
#[verifier::external_body]
pub(crate) fn path_of(text: &str) -> (r: PathBuf)
    ensures
        r == path_from_text(text@),
{
    PathBuf::from(text)
}

/// The state of the editor: the document, the cursor and the scroll offset,
/// the mode, the prompt, the search, and the size of the terminal that the
/// editor was last told of.
#[derive(Debug)]
pub struct Editor {
    pub should_quit: bool,
    pub cursor_position: Position,
    pub document: Document,
    pub offset: ViewportOffset,
    pub message: String,
    pub mode: Mode,
    pub command_buffer: String,
    pub command_suggestions: Vec<String>,
    pub current_autocompletion_index: usize,
    pub config: Config,
    pub normal_command_buffer: Vec<String>,
    pub mouse_event_buffer: Vec<Position>,
    pub search_matches: Vec<(Position, Position)>,
    pub current_search_match_index: usize,
    pub alternate_screen: bool,
    pub last_saved_hash: u64,
    pub unsaved_edits: u8,
    pub row_prefix_length: u8,
    pub console_size: ConsoleSize,
}

impl View for Editor {
    type V = EditorView;

    open spec fn view(&self) -> EditorView {
        EditorView {
            rows: self.document@,
            filename: self.document.filename,
            view: Viewport { cursor: self.cursor_position, offset: self.offset },
            mode: self.mode,
            size: self.console_size,
            config: self.config,
            message: self.message@,
            search_matches: self.search_matches@,
            current_search_match_index: self.current_search_match_index,
            last_saved_hash: self.last_saved_hash,
            unsaved_edits: self.unsaved_edits,
            should_quit: self.should_quit,
            command_buffer: self.command_buffer@,
            command_suggestions: texts(self.command_suggestions@),
            current_autocompletion_index: self.current_autocompletion_index,
            normal_command_buffer: texts(self.normal_command_buffer@),
            mouse_event_buffer: self.mouse_event_buffer@,
            alternate_screen: self.alternate_screen,
            row_prefix_length: self.row_prefix_length,
        }
    }
}

impl Editor {
    /// An editor on `document`, in normal mode, with the cursor at the top
    /// left of an unscrolled screen of `console_size`, the prompt closed, no
    /// message, no search, and the document taken as saved.
    pub fn new(document: Document, console_size: ConsoleSize) -> (r: Self)
        ensures
            r@ == (EditorView {
                rows: document@,
                filename: document.filename,
                view: Viewport {
                    cursor: Position { x: 0, y: 0 },
                    offset: ViewportOffset { rows: 0, columns: 0 },
                },
                mode: Mode::Normal,
                size: console_size,
                config: Config { display_line_numbers: false, display_stats: false },
                message: Seq::empty(),
                search_matches: Seq::empty(),
                current_search_match_index: 0,
                last_saved_hash: content_digest(hash_input(document@)),
                unsaved_edits: 0,
                should_quit: false,
                command_buffer: Seq::empty(),
                command_suggestions: Seq::empty(),
                current_autocompletion_index: 0,
                normal_command_buffer: Seq::empty(),
                mouse_event_buffer: Seq::empty(),
                alternate_screen: false,
                row_prefix_length: 0,
            }),
    {
        let last_saved_hash = document.hashed();
        let r = Self {
            should_quit: false,
            cursor_position: Position::top_left(),
            document,
            offset: ViewportOffset::default(),
            message: String::new(),
            mode: Mode::Normal,
            command_buffer: String::new(),
            command_suggestions: Vec::new(),
            current_autocompletion_index: 0,
            config: Config::default(),
            normal_command_buffer: Vec::new(),
            mouse_event_buffer: Vec::new(),
            search_matches: Vec::new(),
            current_search_match_index: 0,
            alternate_screen: false,
            last_saved_hash,
            unsaved_edits: 0,
            row_prefix_length: 0,
            console_size,
        };
        assert(r@.command_suggestions =~= Seq::<Seq<char>>::empty());
        assert(r@.normal_command_buffer =~= Seq::<Seq<char>>::empty());
        r
    }

    /// Tells the editor the size of the terminal.
    pub fn resize(&mut self, console_size: ConsoleSize)
        ensures
            final(self)@ == (EditorView { size: console_size, ..old(self)@ }),
    {
        self.console_size = console_size;
    }

    /// The line number of the last row of the text area.
    pub fn bottom_of_screen_line_number(&self) -> (r: LineNumber)
        ensures
            r.value == self@.view_height(),
    {
        LineNumber::new(self.console_size.restrict_to_text_area().height as usize)
    }

    /// The line number of the row in the middle of the text area.
    pub fn middle_of_screen_line_number(&self) -> (r: LineNumber)
        ensures
            r.value == self@.view_height() / 2,
    {
        LineNumber::new(self.console_size.restrict_to_text_area().height as usize / 2)
    }

    /// The row of the document that the cursor is in.
    pub fn current_row_index(&self) -> (r: RowIndex)
        ensures
            r.value == self@.row(),
    {
        RowIndex::new(self.cursor_position.y.saturating_add(self.offset.rows))
    }

    /// The row above the one that the cursor is in.
    pub fn previous_row_index(&self) -> (r: RowIndex)
        ensures
            r.value == saturating_sub_spec(self@.row(), 1),
    {
        self.current_row_index().previous()
    }

    /// The row below the one that the cursor is in.
    pub fn next_row_index(&self) -> (r: RowIndex)
        ensures
            r.value == saturating_add_spec(self@.row(), 1),
    {
        self.current_row_index().next()
    }

    /// The column of the document that the cursor is in.
    pub fn current_x_position(&self) -> (r: usize)
        ensures
            r == self@.column(),
    {
        self.cursor_position.x.saturating_add(self.offset.columns)
    }

    /// The number of the line that the cursor is in.
    pub fn current_line_number(&self) -> (r: LineNumber)
        ensures
            r == line_number_of(RowIndex { value: self@.row() }),
    {
        LineNumber::from(self.current_row_index())
    }

    /// The row at `index`, if the document has it.
    pub fn get_row(&self, index: RowIndex) -> (r: Option<&Row>)
        ensures
            index.value < self@.rows.len() ==> r is Some && r->0@ == self@.rows[index.value as int],
            index.value >= self@.rows.len() ==> r is None,
    {
        self.document.get_row(index)
    }

    /// The row that the cursor is in, if the document has it.
    pub fn current_row(&self) -> (r: Option<&Row>)
        ensures
            self@.row() < self@.rows.len() ==> r is Some && r->0@ == self@.rows[self@.row() as int],
            self@.row() >= self@.rows.len() ==> r is None,
    {
        self.get_row(self.current_row_index())
    }

    /// The number of clusters of row `index`; zero where the document has no
    /// such row.
    pub fn row_len(&self, index: RowIndex) -> (r: usize)
        ensures
            r == row_length(self@.rows, index.value),
    {
        match self.document.get_row(index) {
            Some(row) => row.len(),
            None => 0,
        }
    }

    /// The cluster under the cursor; the empty string where there is none.
    pub fn current_grapheme(&self) -> (r: String)
        ensures
            r@ == (if self@.row() < self@.rows.len() {
                cluster_at(self@.rows[self@.row() as int], self@.column() as int)
            } else {
                Seq::empty()
            }),
    {
        match self.current_row() {
            Some(row) => row.nth_grapheme(self.current_x_position()),
            None => String::new(),
        }
    }

    /// Whether the prompt is open.
    pub fn is_receiving_command(&self) -> (r: bool)
        ensures
            r == self@.is_receiving_command(),
    {
        self.command_buffer.as_str().unicode_len() > 0
    }

    /// Whether the prompt offers completions.
    pub fn is_autocompleting_command(&self) -> (r: bool)
        ensures
            r == self@.is_autocompleting_command(),
    {
        self.is_receiving_command() && self.command_suggestions.len() > 0
    }

    /// Whether the document has changed since it was last saved.
    pub fn is_dirty(&self) -> (r: bool)
        ensures
            r == self@.is_dirty(),
    {
        self.last_saved_hash != self.document.hashed()
    }

    /// Moves the cursor to row `y` of the document, scrolling where the row
    /// is not on the screen.
    pub fn move_cursor_to_position_y(&mut self, y: RowIndex)
        ensures
            final(self)@ == old(self)@.to_row(y.value),
            final(self).document == old(self).document,
    {
        let max_line_number = self.document.last_line_number();
        let term_height = self.bottom_of_screen_line_number().value;
        let middle_of_screen_line_number = self.middle_of_screen_line_number();
        let last = RowIndex::from(max_line_number).value;
        let y = if y.value <= last {
            y.value
        } else {
            last
        };
        let middle = RowIndex::from(middle_of_screen_line_number).value;
        if self.offset.rows <= y && y <= self.offset.rows.saturating_add(term_height) {
            self.cursor_position.y = y.saturating_sub(self.offset.rows);
        } else if y < middle {
            self.offset.rows = 0;
            self.cursor_position.y = y;
        } else if y >= RowIndex::from(max_line_number.sub(middle_of_screen_line_number.value)).value {
            self.offset.rows = max_line_number.sub(term_height).value;
            self.cursor_position.y = y.saturating_sub(self.offset.rows);
        } else {
            self.offset.rows = y - middle;
            self.cursor_position.y = middle;
        }
    }

    /// Moves the cursor to column `x` of the document, scrolling where the
    /// column is beyond the right edge of the screen.
    pub fn move_cursor_to_position_x(&mut self, x: usize)
        ensures
            final(self)@ == old(self)@.to_column(x),
            final(self).document == old(self).document,
    {
        let term_width = self.console_size.width as usize;
        if x > term_width {
            self.cursor_position.x = term_width.saturating_sub(1);
            self.offset.columns = x.saturating_sub(term_width).saturating_sub(
                self.offset.columns,
            ).saturating_add(1);
        } else {
            self.cursor_position.x = x;
            self.offset.columns = 0;
        }
    }

    /// Moves the cursor to column `x` of row `y`.
    pub fn goto_x_y(&mut self, x: usize, y: RowIndex)
        ensures
            final(self)@ == old(self)@.to_x_y(x, y.value),
            final(self).document == old(self).document,
    {
        self.move_cursor_to_position_x(x);
        self.move_cursor_to_position_y(y);
    }

    /// Moves the cursor to column `x_position` of line `line_number`.
    pub fn goto_line(&mut self, line_number: LineNumber, x_position: usize)
        ensures
            final(self)@ == old(self)@.to_line(line_number.value, x_position),
            final(self).document == old(self).document,
    {
        self.goto_x_y(x_position, RowIndex::from(line_number));
    }

    /// Moves the cursor `times` steps in `direction`.
    pub fn move_cursor(&mut self, direction: &Direction, times: usize)
        ensures
            final(self)@ == old(self)@.stepped(*direction, times as nat),
            final(self).document == old(self).document,
    {
        let term_height = self.console_size.height.saturating_sub(1) as usize;
        let term_width = self.console_size.width.saturating_sub(1) as usize;
        let last_row = self.document.last_line_number().sub(1).value;
        let length = self.row_len(self.current_row_index());
        let mut x = self.cursor_position.x;
        let mut y = self.cursor_position.y;
        let mut offset_x = self.offset.columns;
        let mut offset_y = self.offset.rows;
        let ghost start = self@.view;
        let mut i: usize = 0;
        while i < times
            invariant
                i <= times,
                (Viewport {
                    cursor: Position { x, y },
                    offset: ViewportOffset { rows: offset_y, columns: offset_x },
                }) == stepped_times(
                    start,
                    *direction,
                    i as nat,
                    last_row,
                    length,
                    term_height,
                    term_width,
                ),
            decreases times - i,
        {
            match *direction {
                Direction::Up => {
                    if y == 0 {
                        offset_y = offset_y.saturating_sub(1);
                    } else {
                        y = y - 1;
                    }
                },
                Direction::Down => {
                    if y.saturating_add(offset_y) < last_row {
                        if y < term_height {
                            y = y + 1;
                        } else {
                            offset_y = offset_y.saturating_add(1);
                        }
                    }
                },
                Direction::Left => {
                    if x >= term_width {
                        offset_x = offset_x.saturating_sub(1);
                    } else {
                        x = x.saturating_sub(1);
                    }
                },
                Direction::Right => {
                    if x.saturating_add(offset_x) <= length.saturating_sub(1) {
                        if x < term_width {
                            x = x + 1;
                        } else {
                            offset_x = offset_x.saturating_add(1);
                        }
                    }
                },
            }
            i += 1;
        }
        self.cursor_position.y = y;
        self.offset.columns = offset_x;
        self.offset.rows = offset_y;
        match self.mode {
            Mode::Normal => {
                let now = self.row_len(self.current_row_index());
                let limit = now.saturating_sub(1);
                self.cursor_position.x = if limit <= x {
                    limit
                } else {
                    x
                };
            },
            Mode::Insert => {
                self.cursor_position.x = x;
            },
        }
    }

    /// Resolves a click on the screen cell `click`: the cursor goes there,
    /// or stays where it is if the document has no text there.
    pub fn click(&mut self, click: Position)
        ensures
            final(self)@ == old(self)@.clicked(click),
            final(self).document == old(self).document,
    {
        if click.y.saturating_add(1) <= self.document.num_rows() {
            match self.get_row(RowIndex::new(click.y)) {
                Some(target_row) => {
                    if click.x <= target_row.len() {
                        self.cursor_position = click;
                    }
                },
                None => {},
            }
        }
    }

    /// Switches to insert mode.
    pub fn enter_insert_mode(&mut self)
        ensures
            final(self)@ == old(self)@.with_mode(Mode::Insert),
            final(self).document == old(self).document,
    {
        self.mode = Mode::Insert;
    }

    /// Switches to normal mode.
    pub fn enter_normal_mode(&mut self)
        ensures
            final(self)@ == old(self)@.with_mode(Mode::Normal),
            final(self).document == old(self).document,
    {
        self.mode = Mode::Normal;
    }

    /// Deletes the line that the cursor is in.
    pub fn delete_current_line(&mut self)
        ensures
            final(self)@ == old(self)@.line_deleted(),
            old(self).document.well_formed() ==> final(self).document.well_formed(),
    {
        let index = self.current_row_index();
        self.document.delete_row(index);
        if self.cursor_position.y >= self.document.num_rows().saturating_sub(1) {
            self.goto_line(LineNumber::new(self.document.num_rows()), self.cursor_position.x);
        } else {
            self.cursor_position.reset_x();
        }
    }

    /// Deletes the cluster under the cursor.
    pub fn delete_current_grapheme(&mut self)
        ensures
            final(self)@ == old(self)@.grapheme_deleted(),
            old(self).document.well_formed() ==> final(self).document.well_formed(),
    {
        let x = self.current_x_position();
        let y = self.current_row_index();
        self.document.delete(x, x, y);
    }

    /// Opens a line below the current one and moves to it in insert mode.
    pub fn insert_newline_after_current_line(&mut self)
        ensures
            final(self)@ == old(self)@.newline_after(),
            old(self).document.well_formed() ==> final(self).document.well_formed(),
    {
        let y = self.current_row_index();
        let length = self.row_len(y);
        self.document.insert_newline(length, y);
        let next = self.next_row_index();
        self.goto_x_y(0, next);
        self.enter_insert_mode();
    }

    /// Breaks the line at the start of the current one and moves to the start
    /// of the row in insert mode.
    pub fn insert_newline_before_current_line(&mut self)
        ensures
            final(self)@ == old(self)@.newline_before(),
            old(self).document.well_formed() ==> final(self).document.well_formed(),
    {
        let y = self.current_row_index();
        self.document.insert_newline(0, y);
        self.goto_x_y(0, y);
        self.enter_insert_mode();
    }

    /// Moves behind the end of the line and switches to insert mode.
    pub fn append_to_line(&mut self)
        ensures
            final(self)@ == old(self)@.appending(),
            final(self).document == old(self).document,
    {
        self.enter_insert_mode();
        self.goto_start_or_end_of_line(&Boundary::End);
        self.move_cursor(&Direction::Right, 1);
    }

    /// Joins the next line onto the current one, with a space between them.
    pub fn join_current_line_with_next_one(&mut self)
        ensures
            final(self)@ == old(self)@.joined_with_next(),
            old(self).document.well_formed() ==> final(self).document.well_formed(),
    {
        let y = self.current_row_index();
        if y.value < self.document.num_rows() {
            let length = self.row_len(y);
            let next = self.next_row_index();
            self.document.join_row_with_previous_one(length.saturating_sub(1), next, Some(' '));
            self.goto_start_or_end_of_line(&Boundary::End);
        }
    }

    /// Moves `times` paragraphs on: to the line after the paragraph, or to
    /// the line before it.
    pub fn goto_start_or_end_of_paragraph(&mut self, boundary: &Boundary, times: usize)
        ensures
            final(self)@ == old(self)@.to_paragraph(*boundary, times as nat),
            final(self).document == old(self).document,
    {
        let mut i: usize = 0;
        while i < times
            invariant
                i <= times,
                self@ == old(self)@.to_paragraph(*boundary, i as nat),
                self.document == old(self).document,
            decreases times - i,
        {
            let next_line_number = Navigator::find_line_number_of_start_or_end_of_paragraph(
                &self.document,
                self.current_line_number(),
                boundary,
            );
            self.goto_line(next_line_number, 0);
            i += 1;
        }
    }

    /// Moves to the first line of the document, or to the last.
    pub fn goto_start_or_end_of_document(&mut self, boundary: &Boundary)
        ensures
            final(self)@ == old(self)@.to_document_boundary(*boundary),
            final(self).document == old(self).document,
    {
        match *boundary {
            Boundary::Start => self.goto_line(LineNumber::new(1), 0),
            Boundary::End => {
                let last = self.document.last_line_number();
                self.goto_line(last, 0)
            },
        }
    }

    /// Moves to the first cluster of the line, or to the last.
    pub fn goto_start_or_end_of_line(&mut self, boundary: &Boundary)
        ensures
            final(self)@ == old(self)@.to_line_boundary(*boundary),
            final(self).document == old(self).document,
    {
        match *boundary {
            Boundary::Start => self.move_cursor_to_position_x(0),
            Boundary::End => {
                let length = self.row_len(self.current_row_index());
                self.move_cursor_to_position_x(length.saturating_sub(1));
            },
        }
    }

    /// Moves `times` words on: to the start of the next word, or of the
    /// previous one.
    pub fn goto_start_or_end_of_word(&mut self, boundary: &Boundary, times: usize)
        ensures
            final(self)@ == old(self)@.to_word(*boundary, times as nat),
            final(self).document == old(self).document,
    {
        let mut i: usize = 0;
        while i < times
            invariant
                i <= times,
                self@ == old(self)@.to_word(*boundary, i as nat),
                self.document == old(self).document,
            decreases times - i,
        {
            let column = self.current_x_position();
            let target = match self.current_row() {
                Some(row) => Some(
                    Navigator::find_index_of_next_or_previous_word(row, column, boundary),
                ),
                None => None,
            };
            match target {
                Some(x) => self.move_cursor_to_position_x(x),
                None => {},
            }
            i += 1;
        }
    }

    /// Moves to the first character of the line that is not whitespace.
    pub fn goto_first_non_whitespace(&mut self)
        ensures
            final(self)@ == old(self)@.to_first_non_whitespace(),
            final(self).document == old(self).document,
    {
        let target = match self.current_row() {
            Some(row) => Navigator::find_index_of_first_non_whitespace(row),
            None => None,
        };
        match target {
            Some(x) => self.move_cursor_to_position_x(x),
            None => {},
        }
    }

    /// Moves to the line in the middle of the screen.
    pub fn goto_middle_of_terminal(&mut self)
        ensures
            final(self)@ == old(self)@.to_middle_of_terminal(),
            final(self).document == old(self).document,
    {
        let line = self.middle_of_screen_line_number().add(self.offset.rows);
        self.goto_line(line, 0);
    }

    /// Moves to the first line of the screen.
    pub fn goto_first_line_of_terminal(&mut self)
        ensures
            final(self)@ == old(self)@.to_first_line_of_terminal(),
            final(self).document == old(self).document,
    {
        self.goto_line(LineNumber::new(self.offset.rows.saturating_add(1)), 0);
    }

    /// Moves to the last line of the screen.
    pub fn goto_last_line_of_terminal(&mut self)
        ensures
            final(self)@ == old(self)@.to_last_line_of_terminal(),
            final(self).document == old(self).document,
    {
        let line = self.bottom_of_screen_line_number().add(self.offset.rows);
        self.goto_line(line, 0);
    }

    /// Moves to the line that lies `percent` hundredths into the document.
    pub fn goto_percentage_in_document(&mut self, percent: usize)
        ensures
            final(self)@ == old(self)@.to_percentage(percent),
            final(self).document == old(self).document,
    {
        let percent: u128 = if percent <= 100 {
            percent as u128
        } else {
            100
        };
        let rows = self.document.last_line_number().value;
        assert(rows as u128 * percent <= rows as u128 * 100) by (nonlinear_arith)
            requires
                percent <= 100,
        ;
        assert(rows as u128 * percent / 100 <= rows);
        let line = (rows as u128 * percent / 100) as usize;
        self.goto_line(LineNumber::new(line), 0);
    }

    /// Moves to the symbol that matches the one under the cursor: from an
    /// opening bracket or a quote forward to what closes it, from a closing
    /// bracket backward to what opens it.
    pub fn goto_matching_closing_symbol(&mut self)
        ensures
            final(self)@ == old(self)@.to_matching_symbol(),
            final(self).document == old(self).document,
    {
        let x0 = self.current_x_position();
        let y0 = self.current_row_index().value;
        let found = if Navigator::symbol_under_cursor(true, &self.document, x0, y0).is_some() {
            Navigator::find_matching_closing_symbol(
                &self.document,
                &self.cursor_position,
                &self.offset,
            )
        } else {
            Navigator::find_matching_opening_symbol(
                &self.document,
                &self.cursor_position,
                &self.offset,
            )
        };
        match found {
            Some(position) => {
                self.goto_x_y(position.x, RowIndex::new(position.y));
            },
            None => {},
        }
    }

    /// Deletes backwards from the cursor, as the backspace key does in insert
    /// mode.
    pub fn erase_backwards(&mut self)
        ensures
            final(self)@ == old(self)@.erased_backwards(),
            old(self).document.well_formed() ==> final(self).document.well_formed(),
    {
        if self.cursor_position.x == 0 {
            if self.cursor_position.y > 0 {
                let above = self.previous_row_index();
                let previous_line_len = self.row_len(above);
                let y = self.current_row_index();
                self.document.delete(0, 0, y);
                self.goto_x_y(previous_line_len, above);
            }
        } else {
            let x = self.current_x_position();
            let y = self.current_row_index();
            self.document.delete(x.saturating_sub(1), x, y);
            self.move_cursor(&Direction::Left, 1);
        }
    }

    /// Breaks the line at the cursor, as the enter key does in insert mode.
    pub fn break_line(&mut self)
        ensures
            final(self)@ == old(self)@.line_broken(),
            old(self).document.well_formed() ==> final(self).document.well_formed(),
    {
        let x = self.current_x_position();
        let y = self.current_row_index();
        self.document.insert_newline(x, y);
        let next = self.next_row_index();
        self.goto_x_y(0, next);
    }

    /// Puts `c` in at the cursor `times` times and moves the cursor behind
    /// them, as a character key does in insert mode, and the tab key with
    /// spaces.
    pub fn type_char(&mut self, c: char, times: usize)
        ensures
            final(self)@ == old(self)@.typed(c, times as nat),
            times > 0 || old(self).document.well_formed() ==> final(self).document.well_formed(),
    {
        let x = self.current_x_position();
        let y = self.current_row_index();
        let mut i: usize = 0;
        while i < times
            invariant
                i <= times,
                self@ == old(self)@.with_rows(
                    crate::model::chars_inserted(
                        old(self)@.rows,
                        c,
                        x as int,
                        y.value as int,
                        i as nat,
                    ),
                ),
                i > 0 || old(self).document.well_formed() ==> self.document.well_formed(),
            decreases times - i,
        {
            self.document.insert(c, x, y);
            i += 1;
        }
        self.move_cursor(&Direction::Right, times);
    }

    /// Shows `message` in the message bar.
    pub fn display_message(&mut self, message: String)
        ensures
            final(self)@ == old(self)@.with_message(message@),
            final(self).document == old(self).document,
    {
        self.message = message;
    }

    /// Clears the message bar.
    pub fn reset_message(&mut self)
        ensures
            final(self)@ == old(self)@.with_message(Seq::empty()),
            final(self).document == old(self).document,
    {
        self.message = String::new();
    }

    /// Forgets the matches of the last search.
    pub fn reset_search(&mut self)
        ensures
            final(self)@ == old(self)@.search_reset(),
            final(self).document == old(self).document,
    {
        self.search_matches = Vec::new();
        self.current_search_match_index = 0;
    }

    /// Moves to the match at `index` and says so in the message bar.
    fn goto_search_match(&mut self, index: usize)
        ensures
            final(self)@ == old(self)@.at_search_match(index),
            final(self).document == old(self).document,
    {
        self.current_search_match_index = index;
        let mut message = String::from_str("Match ");
        message.append(decimal_string(index.saturating_add(1)).as_str());
        message.append("/");
        message.append(decimal_string(self.search_matches.len()).as_str());
        self.message = message;
        if index < self.search_matches.len() {
            let start = self.search_matches[index].0;
            self.goto_line(LineNumber::new(start.y), start.x);
        }
    }

    /// Moves to the next match of the search, and from the last to the
    /// first. Does nothing where the search has no match.
    pub fn goto_next_search_match(&mut self)
        ensures
            final(self)@ == old(self)@.at_next_search_match(),
            final(self).document == old(self).document,
    {
        if self.search_matches.len() == 0 {
            return ;
        }
        let index = if self.current_search_match_index == self.search_matches.len().saturating_sub(
            1,
        ) {
            0
        } else {
            self.current_search_match_index.saturating_add(1)
        };
        self.goto_search_match(index);
    }

    /// Moves to the previous match of the search, and from the first to the
    /// last. Does nothing where the search has no match.
    pub fn goto_previous_search_match(&mut self)
        ensures
            final(self)@ == old(self)@.at_previous_search_match(),
            final(self).document == old(self).document,
    {
        if self.search_matches.len() == 0 {
            return ;
        }
        let index = if self.current_search_match_index == 0 {
            self.search_matches.len().saturating_sub(1)
        } else {
            self.current_search_match_index.saturating_sub(1)
        };
        self.goto_search_match(index);
    }

    /// Searches the document for `search_pattern` and moves to the first
    /// match.
    pub fn process_search_command(&mut self, search_pattern: &str)
        ensures
            final(self)@ == old(self)@.searched(search_pattern@),
            final(self).document == old(self).document,
    {
        proof {
            reveal(EditorView::searched);
        }
        self.reset_search();
        let pattern_length = search_pattern.as_bytes().len();
        let mut found: Vec<(Position, Position)> = Vec::new();
        let mut row_index: usize = 0;
        assert(self.document@.take(0) =~= Seq::<Seq<char>>::empty());
        while row_index < self.document.num_rows()
            invariant
                row_index <= self.document@.len(),
                pattern_length == vstd::utf8::encode_utf8(search_pattern@).len(),
                found@ == matches_of(self.document@.take(row_index as int), search_pattern@),
            decreases self.document@.len() - row_index,
        {
            proof {
                let seen = self.document@.take(row_index + 1);
                assert(seen.drop_last() =~= self.document@.take(row_index as int));
                assert(seen.last() == self.document@[row_index as int]);
            }
            let row = &self.document.rows[row_index];
            if row.contains(search_pattern) {
                match row.find(search_pattern) {
                    Some(match_start_index) => {
                        proof {
                            lemma_first_byte_offset(
                                row@,
                                search_pattern@,
                                match_start_index as nat,
                            );
                        }
                        let match_start = Position {
                            x: match_start_index,
                            y: row_index.saturating_add(1),
                        };
                        let match_end = Position {
                            x: match_start_index.saturating_add(1).saturating_add(pattern_length),
                            y: row_index.saturating_add(1),
                        };
                        found.push((match_start, match_end));
                    },
                    None => {},
                }
            }
            row_index += 1;
        }
        assert(self.document@.take(row_index as int) =~= self.document@);
        self.search_matches = found;
        let mut message = decimal_string(self.search_matches.len());
        message.append(" matches");
        self.message = message;
        self.current_search_match_index = self.search_matches.len().saturating_sub(1);
        self.goto_next_search_match();
    }

    /// Asks the editor to quit. It refuses, with a message, where the
    /// document has unsaved changes and `force` is not set.
    pub fn quit(&mut self, force: bool)
        ensures
            final(self)@ == old(self)@.quitting(force),
            final(self).document == old(self).document,
    {
        if self.is_dirty() && !force {
            self.display_message(red("Unsaved changes! Run :q! to override"));
        } else {
            self.should_quit = true;
        }
    }

    /// Takes `document`, which was read from a file, as the document of the
    /// editor, and puts the cursor at the top left of the screen.
    pub fn load(&mut self, document: Document)
        ensures
            final(self)@ == old(self)@.loaded(document@, document.filename),
            final(self).document == document,
    {
        self.last_saved_hash = document.hashed();
        self.document = document;
        self.reset_message();
        self.cursor_position = Position::default();
    }

    /// Makes the document ready to be written to a file: removes the
    /// whitespace at the end of every row, and moves the cursor left onto the
    /// last cluster of its row where it stood behind it.
    pub fn prepare_save(&mut self)
        ensures
            final(self)@ == old(self)@.ready_to_save(),
            old(self).document.well_formed() ==> final(self).document.well_formed(),
    {
        self.document.trim_trailing_spaces();
        assert(self.document@ =~= crate::model::rows_trimmed(old(self).document@));
        let length = self.row_len(self.current_row_index());
        if self.cursor_position.x >= length {
            self.cursor_position.x = length.saturating_sub(1);
        }
    }

    /// Asks the editor to save the document, under the name `new_name` where
    /// that is not empty, and then to quit where `and_quit` is set. The
    /// editor makes the document ready and says what is to be written; where
    /// it has no name to save under it says so in a message instead.
    pub fn save(&mut self, new_name: &str, and_quit: bool) -> (action: Action)
        ensures
            (final(self)@, action@) == old(self)@.save_requested(new_name@, and_quit),
            old(self).document.well_formed() ==> final(self).document.well_formed(),
    {
        proof {
            reveal(EditorView::save_requested);
        }
        self.prepare_save();
        if new_name.unicode_len() == 0 && self.document.filename.is_none() {
            self.display_message(red("No file name"));
            if and_quit {
                self.quit(false);
            }
            Action::Nothing
        } else if and_quit {
            Action::SaveAndQuit
        } else {
            Action::Save(String::from_str(new_name))
        }
    }

    /// Tells the editor how the attempt to save the document ended, under
    /// the name `new_name` where that is not empty.
    pub fn finish_save(&mut self, new_name: &str, outcome: SaveOutcome)
        ensures
            final(self)@ == old(self)@.save_finished(new_name@, outcome),
            final(self).document.rows == old(self).document.rows,
    {
        proof {
            reveal(EditorView::save_finished);
        }
        if new_name.unicode_len() == 0 {
            match outcome {
                SaveOutcome::Saved => {
                    self.display_message(String::from_str("File successfully saved"));
                },
                _ => {
                    self.display_message(red("Error writing to file!"));
                    return ;
                },
            }
        } else {
            match outcome {
                SaveOutcome::Saved => {
                    let mut message = String::new();
                    if self.document.filename.is_none() {
                        message.append("Buffer saved to ");
                        message.append(new_name);
                        proof {
                            assert(message@ =~= "Buffer saved to "@ + new_name@);
                        }
                    } else {
                        message.append(new_name);
                        message.append(" successfully renamed to ");
                        message.append(new_name);
                        proof {
                            assert(message@ =~= new_name@ + " successfully renamed to "@
                                + new_name@);
                        }
                    }
                    self.display_message(message);
                    self.document.filename = Some(path_of(new_name));
                },
                SaveOutcome::NotRenamed => {
                    self.display_message(red("Error writing to file!"));
                },
                SaveOutcome::NotWritten => {
                    self.display_message(red("Error writing to file!"));
                    self.document.filename = Some(path_of(new_name));
                },
            }
        }
        self.unsaved_edits = 0;
        self.last_saved_hash = self.document.hashed();
    }

    /// Tells the editor whether the document was written to its swap file.
    pub fn finish_swap_save(&mut self, ok: bool)
        ensures
            final(self)@ == old(self)@.swap_saved(ok),
            final(self).document == old(self).document,
    {
        if ok {
            self.unsaved_edits = 0;
        }
    }
}

} // verus!
