//! The texts of the status bar and of the prompt's completions.

use crate::document::word_total;
use crate::editor::Editor;
use crate::help::{join, joined};
use crate::indexing::{saturating_add_spec, saturating_sub_spec};
use crate::mode::Mode;
use crate::model::EditorView;
use crate::text::texts;
use crate::utils::{as_bold, bold_spec, decimal_digits, decimal_string, red, red_spec, repeated};
use std::path::PathBuf;
use vstd::prelude::*;
use vstd::string::StringExecFns;

verus! {

/// The text of `path`, as `Path::to_str` gives it; the empty text for a path
/// that is not valid Unicode.
pub uninterp spec fn path_text_of(path: PathBuf) -> Seq<char>;

/// Trusted: `Path::to_str` of the path, copied into a `String`, and the empty
/// string where it gives none, which is for a path that is not valid Unicode.
/// The text is what [`path_text_of`] names.
#[verifier::external_body]
fn path_text(path: &PathBuf) -> (r: String)
    ensures
        r@ == path_text_of(*path),
{
    path.to_str().unwrap_or_default().to_string()
}

/// The name under which the status bar shows the file `filename`: the text
/// of its path, and `No Name` for a document that has no file.
pub open spec fn shown_file_name(filename: Option<PathBuf>) -> Seq<char> {
    match filename {
        Some(path) => path_text_of(path),
        None => "No Name"@,
    }
}

/// The name of `mode` as the status bar shows it.
pub open spec fn mode_name(mode: Mode) -> Seq<char> {
    match mode {
        Mode::Insert => "INSERT"@,
        Mode::Normal => "NORMAL"@,
    }
}

/// The left part of the status bar: the name of the file in brackets, a plus
/// sign where the document has unsaved changes, and the mode.
pub open spec fn left_status(e: EditorView, name: Seq<char>) -> Seq<char> {
    "["@ + name + "]"@ + (if e.is_dirty() {
        " +"@
    } else {
        ""@
    }) + " "@ + mode_name(e.mode)
}

/// The right part of the status bar: where the options ask for them, the
/// numbers of lines and of words in brackets; then the line and the column of
/// the cursor, both counted from 1.
pub open spec fn right_status(e: EditorView, words: usize) -> Seq<char> {
    let position = "Ln "@ + decimal_digits(saturating_add_spec(e.row(), 1) as nat) + ", Col "@
        + decimal_digits(saturating_add_spec(e.column(), 1) as nat);
    if e.config.display_stats {
        "["@ + decimal_digits(e.rows.len()) + "L/"@ + decimal_digits(words as nat) + "W]"@ + " "@
            + position
    } else {
        position
    }
}

/// The status bar for a file called `name` and a document of `words` words:
/// the left part, the right part, and between them the spaces that fill the
/// width of the terminal, counted in bytes; then a carriage return.
pub open spec fn status_text(e: EditorView, name: Seq<char>, words: usize) -> Seq<char> {
    let left = left_status(e, name);
    let right = right_status(e, words);
    let room = saturating_sub_spec(
        saturating_sub_spec(e.size.width as usize, vstd::utf8::encode_utf8(left).len() as usize),
        vstd::utf8::encode_utf8(right).len() as usize,
    );
    left + repeated(seq![' '], room as nat) + right + "\r"@
}

/// The number of words of a document of the rows `rows`, held at
/// `usize::MAX`.
pub open spec fn word_count(rows: Seq<Seq<char>>) -> usize {
    if word_total(rows) > usize::MAX {
        usize::MAX
    } else {
        word_total(rows) as usize
    }
}

/// The completions `suggestions` as the message bar shows them: with bars
/// between them, and the one at `chosen` in bold and red.
pub open spec fn suggestions_text(suggestions: Seq<Seq<char>>, chosen: usize) -> Seq<char> {
    joined(shown_suggestions(suggestions, chosen), "|"@)
}

/// The completions `suggestions`, with the one at `chosen` in bold and red.
pub open spec fn shown_suggestions(suggestions: Seq<Seq<char>>, chosen: usize) -> Seq<Seq<char>> {
    Seq::new(
        suggestions.len(),
        |i: int|
            if i == chosen {
                red_spec(bold_spec(suggestions[i]))
            } else {
                suggestions[i]
            },
    )
}

impl Editor {
    /// The text of the status bar, for a file called `name`.
    pub fn generate_status_for(&self, name: &str) -> (r: String)
        ensures
            r@ == status_text(self@, name@, word_count(self@.rows)),
    {
        let mut left = String::from_str("[");
        left.append(name);
        left.append("]");
        if self.is_dirty() {
            left.append(" +");
        } else {
            left.append("");
        }
        left.append(" ");
        left.append(self.mode.to_string().as_str());
        let mut right = String::new();
        if self.config.display_stats {
            right.append("[");
            right.append(decimal_string(self.document.last_line_number().value).as_str());
            right.append("L/");
            right.append(decimal_string(self.document.num_words()).as_str());
            right.append("W]");
            right.append(" ");
        }
        right.append("Ln ");
        right.append(decimal_string(self.current_line_number().value).as_str());
        right.append(", Col ");
        right.append(decimal_string(self.current_x_position().saturating_add(1)).as_str());
        proof {
            assert(left@ =~= left_status(self@, name@));
            assert(right@ =~= right_status(self@, word_count(self@.rows)));
            reveal_strlit(" ");
            assert(" "@ =~= seq![' ']);
        }
        let room = (self.console_size.width as usize).saturating_sub(
            left.as_str().as_bytes().len(),
        ).saturating_sub(right.as_str().as_bytes().len());
        let ghost start = left@;
        let mut out = left;
        let mut i: usize = 0;
        assert(out@ =~= start + repeated(seq![' '], 0));
        while i < room
            invariant
                i <= room,
                " "@ == seq![' '],
                out@ == start + repeated(seq![' '], i as nat),
            decreases room - i,
        {
            out.append(" ");
            assert(start + repeated(seq![' '], i as nat) + seq![' '] =~= start + repeated(
                seq![' '],
                (i + 1) as nat,
            ));
            i += 1;
        }
        out.append(right.as_str());
        out.append("\r");
        out
    }

    /// The text of the status bar. The file of a document that has none is
    /// called `No Name`.
    pub fn generate_status(&self) -> (r: String)
        ensures
            r@ == status_text(self@, shown_file_name(self@.filename), word_count(self@.rows)),
    {
        let name = match &self.document.filename {
            Some(path) => path_text(path),
            None => String::from_str("No Name"),
        };
        self.generate_status_for(name.as_str())
    }

    /// The completions of the prompt as the message bar shows them.
    pub fn generate_command_autocompletion_message(&self) -> (r: String)
        ensures
            r@ == suggestions_text(self@.command_suggestions, self@.current_autocompletion_index),
    {
        let mut tokens: Vec<String> = Vec::new();
        let mut i: usize = 0;
        let ghost shown = shown_suggestions(
            self@.command_suggestions,
            self@.current_autocompletion_index,
        );
        assert(texts(tokens@) =~= shown.take(0));
        while i < self.command_suggestions.len()
            invariant
                i <= self.command_suggestions.len(),
                shown == shown_suggestions(
                    self@.command_suggestions,
                    self@.current_autocompletion_index,
                ),
                texts(tokens@) == shown.take(i as int),
            decreases self.command_suggestions.len() - i,
        {
            let suggestion = self.command_suggestions[i].as_str();
            assert(suggestion@ == self@.command_suggestions[i as int]);
            let token = if i == self.current_autocompletion_index {
                red(as_bold(suggestion).as_str())
            } else {
                String::from_str(suggestion)
            };
            assert(token@ == shown[i as int]);
            let ghost before = texts(tokens@);
            tokens.push(token);
            assert(texts(tokens@) =~= before.push(shown[i as int]));
            assert(shown.take(i + 1) =~= shown.take(i as int).push(shown[i as int]));
            i += 1;
        }
        assert(shown.take(i as int) =~= shown);
        join(&tokens, "|")
    }
}

} // verus!
