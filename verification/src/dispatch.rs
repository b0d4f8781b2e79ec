//! From keys and mouse events to the commands of the editor.

use crate::commands::{all_commands, Commands};
use crate::config::Config;
use crate::document::Document;
use crate::editor::{path_of, Action, Editor};
use crate::indexing::LineNumber;
use crate::mode::Mode;
use crate::model::{
    after_first_word, all_command_names, all_digits, completions, decimal_value,
    first_word, index_of, is_digit, parse_number_spec, starts_with, EditorView, Key, MouseEvent,
    LINE_NUMBER_OFFSET, SPACES_PER_TAB, SWAP_SAVE_EVERY,
};
use crate::navigator::Boundary;
use crate::terminal::get_cursor_index_from_mouse_event;
use crate::text::{collect_chars, string_from_chars, texts, trim};
use crate::utils::red;
use crate::viewport::Direction;
use vstd::prelude::*;
use vstd::string::StringExecFns;

verus! {

/// The number that longer text writes is no smaller than the number that
/// its beginning writes.
pub proof fn lemma_decimal_value_grows(s: Seq<char>, k: int)
    requires
        0 <= k <= s.len(),
    ensures
        decimal_value(s.take(k)) <= decimal_value(s),
    decreases s.len() - k,
{
    if k == s.len() {
        assert(s.take(k) =~= s);
    } else {
        assert(s.drop_last().take(k) =~= s.take(k));
        lemma_decimal_value_grows(s.drop_last(), k);
        assert(decimal_value(s.drop_last()) <= decimal_value(s.drop_last()) * 10)
            by (nonlinear_arith);
    }
}

/// The index of the first `c` in `chars`, or their number where there is
/// none.
pub fn index_of_char(chars: &Vec<char>, c: char) -> (r: usize)
    ensures
        r == index_of(chars@, c),
        r <= chars.len(),
{
    let mut i: usize = 0;
    assert(chars@.skip(0) =~= chars@);
    while i < chars.len()
        invariant
            i <= chars.len(),
            index_of(chars@, c) == i + index_of(chars@.skip(i as int), c),
        decreases chars.len() - i,
    {
        assert(chars@.skip(i as int)[0] == chars@[i as int]);
        assert(chars@.skip(i as int).drop_first() =~= chars@.skip(i + 1));
        if chars[i] == c {
            return i;
        }
        i += 1;
    }
    i
}

/// The number that `s` writes in decimal; `None` where `s` is not made of
/// one or more digits or the number does not fit.
pub fn parse_number(s: &str) -> (r: Option<usize>)
    ensures
        r == parse_number_spec(s@),
{
    let chars = collect_chars(s);
    if chars.len() == 0 {
        return None;
    }
    let mut value: usize = 0;
    let mut i: usize = 0;
    assert(chars@.take(0) =~= Seq::<char>::empty());
    while i < chars.len()
        invariant
            i <= chars.len(),
            chars@ == s@,
            all_digits(chars@.take(i as int)),
            value == decimal_value(chars@.take(i as int)),
        decreases chars.len() - i,
    {
        let c = chars[i];
        proof {
            assert(chars@.take(i + 1).drop_last() =~= chars@.take(i as int));
            assert(chars@.take(i + 1).last() == c);
        }
        if !('0' <= c && c <= '9') {
            assert(!is_digit(chars@[i as int]));
            return None;
        }
        let digit = (c as u32 - '0' as u32) as usize;
        let next = match value.checked_mul(10) {
            Some(tens) => tens.checked_add(digit),
            None => None,
        };
        match next {
            Some(n) => {
                value = n;
            },
            None => {
                proof {
                    lemma_decimal_value_grows(chars@, i + 1);
                }
                return None;
            },
        }
        assert(all_digits(chars@.take(i + 1))) by {
            assert forall|j: int| 0 <= j < i + 1 implies is_digit(
                #[trigger] chars@.take(i + 1)[j],
            ) by {
                if j < i {
                    assert(chars@.take(i + 1)[j] == chars@.take(i as int)[j]);
                }
            }
        }
        i += 1;
    }
    assert(chars@.take(i as int) =~= chars@);
    Some(value)
}

/// Whether `s` begins with `prefix`.
pub fn begins_with(s: &Vec<char>, prefix: &Vec<char>) -> (r: bool)
    ensures
        r == starts_with(s@, prefix@),
{
    if prefix.len() > s.len() {
        return false;
    }
    let mut i: usize = 0;
    while i < prefix.len()
        invariant
            i <= prefix.len() <= s.len(),
            forall|j: int| 0 <= j < i ==> s@[j] == prefix@[j],
        decreases prefix.len() - i,
    {
        if s[i] != prefix[i] {
            assert(s@.take(prefix@.len() as int)[i as int] != prefix@[i as int]);
            return false;
        }
        i += 1;
    }
    assert(s@.take(prefix@.len() as int) =~= prefix@);
    true
}

/// The names of commands that begin with `prefix`.
pub fn complete(prefix: &Vec<char>) -> (r: Vec<String>)
    ensures
        texts(r@) == completions(all_command_names(), prefix@),
{
    let all = all_commands();
    let ghost names = Seq::new(all@.len(), |i: int| all@[i]@);
    proof {
        reveal_strlit("q");
        reveal_strlit("q!");
        reveal_strlit("ln");
        reveal_strlit("stats");
        reveal_strlit("help");
        reveal_strlit("open");
        reveal_strlit("o");
        reveal_strlit("new");
        reveal_strlit("w");
        reveal_strlit("wq");
        reveal_strlit("debug");
        assert(names =~= all_command_names());
    }
    let mut found: Vec<String> = Vec::new();
    let mut i: usize = 0;
    assert(names.take(0) =~= Seq::<Seq<char>>::empty());
    assert(texts(found@) =~= Seq::<Seq<char>>::empty());
    while i < all.len()
        invariant
            i <= all.len(),
            names == Seq::new(all@.len(), |i: int| all@[i]@),
            texts(found@) == completions(names.take(i as int), prefix@),
        decreases all.len() - i,
    {
        proof {
            assert(names.take(i + 1).drop_last() =~= names.take(i as int));
            assert(names.take(i + 1).last() == all@[i as int]@);
        }
        let name = collect_chars(all[i]);
        if begins_with(&name, prefix) {
            let ghost before = texts(found@);
            found.push(String::from_str(all[i]));
            assert(texts(found@) =~= before.push(all@[i as int]@));
        }
        i += 1;
    }
    assert(names.take(i as int) =~= names);
    found
}

/// All the strings of `parts`, one after the other.
pub fn concat_all(parts: &Vec<String>) -> (r: String)
    ensures
        r@ == texts(parts@).flatten(),
{
    let ghost g = texts(parts@);
    let mut out = String::new();
    let mut i: usize = 0;
    assert(g.take(0) =~= Seq::<Seq<char>>::empty());
    while i < parts.len()
        invariant
            i <= parts.len(),
            g == texts(parts@),
            out@ == g.take(i as int).flatten(),
        decreases parts.len() - i,
    {
        proof {
            assert(g.take(i + 1) =~= g.take(i as int).push(g[i as int]));
            g.take(i as int).lemma_flatten_push(g[i as int]);
        }
        out.append(parts[i].as_str());
        i += 1;
    }
    assert(g.take(i as int) =~= g);
    out
}

impl Editor {
    /// Opens the prompt for a command.
    pub fn start_receiving_command(&mut self)
        ensures
            final(self)@ == old(self)@.with_command_buffer(old(self)@.command_buffer.push(':')),
            final(self).document == old(self).document,
    {
        self.command_buffer.push(':');
    }

    /// Opens the prompt for a search.
    pub fn start_receiving_search_pattern(&mut self)
        ensures
            final(self)@ == old(self)@.with_command_buffer(old(self)@.command_buffer.push('/')),
            final(self).document == old(self).document,
    {
        self.command_buffer.push('/');
    }

    /// Closes the prompt.
    pub fn stop_receiving_command(&mut self)
        ensures
            final(self)@ == old(self)@.with_command_buffer(Seq::empty()),
            final(self).document == old(self).document,
    {
        self.command_buffer = String::new();
    }

    /// Drops the completions of the prompt.
    pub fn reset_autocompletions(&mut self)
        ensures
            final(self)@ == old(self)@.autocompletions_reset(),
            final(self).document == old(self).document,
    {
        self.command_suggestions = Vec::new();
        self.current_autocompletion_index = 0;
        assert(texts(self.command_suggestions@) =~= Seq::<Seq<char>>::empty());
    }

    /// Leaves the help screen.
    pub fn revert_to_main_screen(&mut self)
        ensures
            final(self)@ == (EditorView {
                message: Seq::empty(),
                alternate_screen: false,
                ..old(self)@
            }),
            final(self).document == old(self).document,
    {
        self.reset_message();
        self.alternate_screen = false;
    }

    /// The number of times that the next command is to be done, as the keys
    /// typed before it say; the count is used up.
    pub fn pop_normal_command_repetitions(&mut self) -> (times: usize)
        ensures
            times == old(self)@.repetitions(),
            final(self)@ == (EditorView { normal_command_buffer: Seq::empty(), ..old(self)@ }),
            final(self).document == old(self).document,
    {
        let times = if self.normal_command_buffer.len() == 0 {
            1
        } else {
            let digits = concat_all(&self.normal_command_buffer);
            match parse_number(digits.as_str()) {
                Some(times) => times,
                None => 1,
            }
        };
        self.normal_command_buffer = Vec::new();
        assert(texts(self.normal_command_buffer@) =~= Seq::<Seq<char>>::empty());
        times
    }

    /// Completes the prompt from what was typed behind its colon.
    pub fn autocomplete_command(&mut self)
        ensures
            final(self)@ == old(self)@.autocompleted(),
            final(self).document == old(self).document,
    {
        proof {
            reveal(EditorView::autocompleted);
        }
        let chars = collect_chars(self.command_buffer.as_str());
        let typed = if chars.len() > 0 && chars[0] == ':' {
            let rest = string_from_chars(&chars, 1, chars.len());
            collect_chars(rest.as_str())
        } else {
            Vec::new()
        };
        proof {
            if chars.len() > 0 && chars[0] == ':' {
                assert(typed@ =~= self.command_buffer@.skip(1));
            } else {
                assert(typed@ =~= Seq::<char>::empty());
            }
        }
        let mut matches = complete(&typed);
        assert(texts(matches@).len() == matches.len());
        if matches.len() == 0 {
        } else if matches.len() == 1 {
            let mut buffer = String::new();
            buffer.push(':');
            buffer.append(matches[0].as_str());
            assert(buffer@ =~= seq![':'] + texts(matches@)[0]);
            self.command_buffer = buffer;
        } else {
            self.command_suggestions = matches;
        }
    }

    /// Chooses the next completion of the prompt.
    pub fn cycle_through_command_suggestions(&mut self)
        ensures
            final(self)@ == old(self)@.suggestions_cycled(),
            final(self).document == old(self).document,
    {
        assert(texts(self.command_suggestions@).len() == self.command_suggestions.len());
        let next_suggestion_index = if self.current_autocompletion_index
            == self.command_suggestions.len().saturating_sub(1) {
            0
        } else {
            self.current_autocompletion_index.saturating_add(1)
        };
        self.current_autocompletion_index = next_suggestion_index;
    }

    /// Takes the chosen completion into the prompt and drops the
    /// completions.
    pub fn accept_suggestion(&mut self)
        ensures
            final(self)@ == old(self)@.suggestion_accepted(),
            final(self).document == old(self).document,
    {
        assert(texts(self.command_suggestions@).len() == self.command_suggestions.len());
        if self.current_autocompletion_index < self.command_suggestions.len() {
            let mut buffer = String::new();
            buffer.push(':');
            buffer.append(self.command_suggestions[self.current_autocompletion_index].as_str());
            assert(buffer@ =~= seq![':'] + texts(
                self.command_suggestions@,
            )[self.current_autocompletion_index as int]);
            self.command_buffer = buffer;
        }
        self.reset_autocompletions();
    }

    /// Shows the message that the command `name` is not known.
    fn display_unknown_command(&mut self, name: &str)
        ensures
            final(self)@ == old(self)@.with_message(
                crate::model::unknown_command_message(name@),
            ),
            final(self).document == old(self).document,
    {
        let mut text = String::from_str("Unknown command '");
        text.append(name);
        text.append("'");
        self.display_message(red(text.as_str()));
    }

    /// Carries out the command `command` of the prompt.
    pub fn process_prompt_command(&mut self, command: &str) -> (action: Action)
        ensures
            (final(self)@, action@) == old(self)@.prompt_command(command@),
            old(self).document.well_formed() ==> final(self).document.well_formed(),
    {
        proof {
            reveal(EditorView::prompt_command);
            reveal_strlit("");
            assert(""@ =~= Seq::<char>::empty());
        }
        let chars = collect_chars(command);
        if chars.len() == 0 {
            return Action::Nothing;
        }
        match parse_number(command) {
            Some(line_number) => {
                self.goto_line(LineNumber::new(line_number), 0);
                return Action::Nothing;
            },
            None => {},
        }
        let space = index_of_char(&chars, ' ');
        if space < chars.len() {
            let name = string_from_chars(&chars, 0, space);
            let rest = string_from_chars(&chars, space + 1, chars.len());
            proof {
                assert(name@ =~= first_word(command@));
                assert(rest@ =~= after_first_word(command@));
            }
            match Commands::parse(name.as_str()) {
                Commands::Open | Commands::OpenShort => {
                    let rest_chars = collect_chars(rest.as_str());
                    let end = index_of_char(&rest_chars, ' ');
                    let argument = string_from_chars(&rest_chars, 0, end);
                    assert(argument@ =~= first_word(rest@));
                    Action::Open(argument)
                },
                Commands::New => {
                    let rest_chars = collect_chars(rest.as_str());
                    let end = index_of_char(&rest_chars, ' ');
                    let argument = string_from_chars(&rest_chars, 0, end);
                    assert(argument@ =~= first_word(rest@));
                    self.document = Document::new_empty(path_of(argument.as_str()));
                    self.enter_insert_mode();
                    Action::Nothing
                },
                Commands::Save => {
                    let new_name = trim(rest.as_str());
                    self.save(new_name.as_str(), false)
                },
                _ => {
                    self.display_unknown_command(name.as_str());
                    Action::Nothing
                },
            }
        } else {
            match Commands::parse(command) {
                Commands::ForceQuit => {
                    self.quit(true);
                    Action::Nothing
                },
                Commands::Quit => {
                    self.quit(false);
                    Action::Nothing
                },
                Commands::LineNumbers => {
                    self.config.display_line_numbers = Config::toggle(
                        self.config.display_line_numbers,
                    );
                    self.row_prefix_length = if self.config.display_line_numbers {
                        LINE_NUMBER_OFFSET
                    } else {
                        0
                    };
                    Action::Nothing
                },
                Commands::Stats => {
                    self.config.display_stats = Config::toggle(self.config.display_stats);
                    Action::Nothing
                },
                Commands::Help => {
                    self.alternate_screen = true;
                    Action::Nothing
                },
                Commands::Save => self.save("", false),
                Commands::SaveAnQuit => self.save("", true),
                Commands::Debug => Action::Debug,
                _ => {
                    self.display_unknown_command(command);
                    Action::Nothing
                },
            }
        }
    }

    /// Carries out what stands in the prompt: a search behind a slash, a
    /// command behind a colon.
    pub fn process_received_command(&mut self) -> (action: Action)
        ensures
            (final(self)@, action@) == old(self)@.command_received(),
            old(self).document.well_formed() ==> final(self).document.well_formed(),
    {
        proof {
            reveal(EditorView::command_received);
        }
        let chars = collect_chars(self.command_buffer.as_str());
        if chars.len() > 0 && chars[0] == '/' {
            let pattern = string_from_chars(&chars, 1, chars.len());
            assert(pattern@ =~= self.command_buffer@.skip(1));
            self.process_search_command(pattern.as_str());
            Action::Nothing
        } else if chars.len() > 0 && chars[0] == ':' {
            let command = string_from_chars(&chars, 1, chars.len());
            assert(command@ =~= self.command_buffer@.skip(1));
            self.process_prompt_command(command.as_str())
        } else {
            Action::Nothing
        }
    }

    /// Handles a key that goes to the open prompt.
    pub fn process_prompt_key(&mut self, key: Key) -> (action: Action)
        ensures
            (final(self)@, action@) == old(self)@.after_prompt_key(key),
            old(self).document.well_formed() ==> final(self).document.well_formed(),
    {
        proof {
            reveal(EditorView::after_prompt_key);
        }
        match key {
            Key::Esc => {
                self.stop_receiving_command();
                Action::Nothing
            },
            Key::Char(c) => {
                if c == '\n' {
                    let action = self.process_received_command();
                    self.stop_receiving_command();
                    action
                } else if c == '\t' {
                    self.autocomplete_command();
                    Action::Nothing
                } else {
                    self.command_buffer.push(c);
                    Action::Nothing
                }
            },
            Key::Backspace => {
                let chars = collect_chars(self.command_buffer.as_str());
                if chars.len() > 0 {
                    self.command_buffer = string_from_chars(&chars, 0, chars.len() - 1);
                    assert(self.command_buffer@ =~= old(self)@.command_buffer.drop_last());
                }
                Action::Nothing
            },
            Key::Other => Action::Nothing,
        }
    }

    /// Does the command of normal mode that `c` stands for `n` times.
    pub fn process_normal_command_n_times(&mut self, c: char, n: usize)
        ensures
            final(self)@ == old(self)@.after_repeated_command(c, n),
            final(self).document == old(self).document,
    {
        proof {
            reveal(EditorView::after_repeated_command);
        }
        if c == 'b' {
            self.goto_start_or_end_of_word(&Boundary::Start, n);
        } else if c == 'w' {
            self.goto_start_or_end_of_word(&Boundary::End, n);
        } else if c == 'h' {
            self.move_cursor(&Direction::Left, n);
        } else if c == 'j' {
            self.move_cursor(&Direction::Down, n);
        } else if c == 'k' {
            self.move_cursor(&Direction::Up, n);
        } else if c == 'l' {
            self.move_cursor(&Direction::Right, n);
        } else if c == '}' {
            self.goto_start_or_end_of_paragraph(&Boundary::End, n);
        } else if c == '{' {
            self.goto_start_or_end_of_paragraph(&Boundary::Start, n);
        } else if c == '%' {
            self.goto_percentage_in_document(n);
        }
    }

    /// Puts the digit `c` at the end of the count of the next command.
    fn push_repetition_digit(&mut self, c: char)
        ensures
            final(self)@ == (EditorView {
                normal_command_buffer: old(self)@.normal_command_buffer.push(seq![c]),
                ..old(self)@
            }),
            final(self).document == old(self).document,
    {
        let mut digit = String::new();
        digit.push(c);
        assert(digit@ =~= seq![c]);
        let ghost before = texts(self.normal_command_buffer@);
        self.normal_command_buffer.push(digit);
        assert(texts(self.normal_command_buffer@) =~= before.push(seq![c]));
    }

    /// Handles a character typed in normal mode.
    pub fn process_normal_char(&mut self, c: char)
        ensures
            final(self)@ == old(self)@.after_normal_char(c),
            old(self).document.well_formed() ==> final(self).document.well_formed(),
    {
        proof {
            reveal(EditorView::after_normal_char);
        }
        assert(texts(self.normal_command_buffer@).len() == self.normal_command_buffer.len());
        if c == '0' {
            if self.normal_command_buffer.len() == 0 {
                self.goto_start_or_end_of_line(&Boundary::Start);
            } else {
                self.push_repetition_digit(c);
            }
        } else if '1' <= c && c <= '9' {
            self.push_repetition_digit(c);
        } else if c == 'i' {
            self.enter_insert_mode();
        } else if c == ':' {
            self.start_receiving_command();
        } else if c == '/' {
            self.start_receiving_search_pattern();
        } else if c == 'G' {
            self.goto_start_or_end_of_document(&Boundary::End);
        } else if c == 'g' {
            self.goto_start_or_end_of_document(&Boundary::Start);
        } else if c == '$' {
            self.goto_start_or_end_of_line(&Boundary::End);
        } else if c == '^' {
            self.goto_first_non_whitespace();
        } else if c == 'H' {
            self.goto_first_line_of_terminal();
        } else if c == 'M' {
            self.goto_middle_of_terminal();
        } else if c == 'L' {
            self.goto_last_line_of_terminal();
        } else if c == 'm' {
            self.goto_matching_closing_symbol();
        } else if c == 'n' {
            self.goto_next_search_match();
        } else if c == 'N' {
            self.goto_previous_search_match();
        } else if c == 'q' {
            self.revert_to_main_screen();
        } else if c == 'd' {
            self.delete_current_line();
        } else if c == 'x' {
            self.delete_current_grapheme();
        } else if c == 'o' {
            self.insert_newline_after_current_line();
        } else if c == 'O' {
            self.insert_newline_before_current_line();
        } else if c == 'A' {
            self.append_to_line();
        } else if c == 'J' {
            self.join_current_line_with_next_one();
        } else {
            let times = self.pop_normal_command_repetitions();
            self.process_normal_command_n_times(c, times);
        }
    }

    /// Handles a key pressed in normal mode.
    pub fn process_normal_command(&mut self, key: Key)
        ensures
            final(self)@ == old(self)@.after_normal_key(key),
            old(self).document.well_formed() ==> final(self).document.well_formed(),
    {
        proof {
            reveal(EditorView::after_normal_key);
        }
        match key {
            Key::Esc => {
                self.reset_message();
                self.reset_search();
            },
            Key::Char(c) => {
                self.process_normal_char(c);
            },
            _ => {},
        }
    }

    /// Handles a key pressed in insert mode.
    pub fn process_insert_command(&mut self, pressed_key: Key) -> (action: Action)
        ensures
            (final(self)@, action@) == old(self)@.after_insert_key(pressed_key),
            old(self).document.well_formed() ==> final(self).document.well_formed(),
    {
        proof {
            reveal(EditorView::after_insert_key);
        }
        match pressed_key {
            Key::Esc => {
                self.enter_normal_mode();
                return Action::Nothing;
            },
            Key::Backspace => {
                self.erase_backwards();
            },
            Key::Char(c) => {
                if c == '\n' {
                    self.break_line();
                } else if c == '\t' {
                    self.type_char(' ', SPACES_PER_TAB);
                } else {
                    self.type_char(c, 1);
                }
            },
            Key::Other => {},
        }
        self.unsaved_edits = self.unsaved_edits.saturating_add(1);
        if self.unsaved_edits >= SWAP_SAVE_EVERY {
            Action::SaveSwap
        } else {
            Action::Nothing
        }
    }

    /// Handles a key: changes the state of the editor, and says what is left
    /// to do outside it.
    pub fn process_keystroke(&mut self, pressed_key: Key) -> (action: Action)
        ensures
            (final(self)@, action@) == old(self)@.after_key(pressed_key),
            old(self).document.well_formed() ==> final(self).document.well_formed(),
    {
        if self.is_receiving_command() {
            if self.is_autocompleting_command() {
                match pressed_key {
                    Key::Char(c) => {
                        if c == '\t' {
                            self.cycle_through_command_suggestions();
                            return Action::Nothing;
                        } else if c == '\n' {
                            self.accept_suggestion();
                        } else {
                            self.reset_autocompletions();
                        }
                    },
                    _ => {
                        self.reset_autocompletions();
                    },
                }
            }
            self.process_prompt_key(pressed_key)
        } else {
            match self.mode {
                Mode::Normal => {
                    self.process_normal_command(pressed_key);
                    Action::Nothing
                },
                Mode::Insert => self.process_insert_command(pressed_key),
            }
        }
    }

    /// Handles what the mouse did.
    pub fn process_mouse_event(&mut self, mouse_event: MouseEvent)
        ensures
            final(self)@ == old(self)@.after_mouse(mouse_event),
            final(self).document == old(self).document,
    {
        match mouse_event {
            MouseEvent::PressLeft { x, y } => {
                let position = get_cursor_index_from_mouse_event(x, y, self.row_prefix_length);
                self.mouse_event_buffer.push(position);
            },
            MouseEvent::Release => {
                match self.mouse_event_buffer.pop() {
                    Some(cursor_position) => {
                        assert(self.mouse_event_buffer@ =~= old(
                            self,
                        ).mouse_event_buffer@.drop_last());
                        self.click(cursor_position);
                    },
                    None => {},
                }
            },
            MouseEvent::Other => {},
        }
    }
}

} // verus!
