use bo::editor::{Action, Editor};
use bo::model::{Key, MouseEvent, SaveOutcome, SPACES_PER_TAB};
use bo::screen::{help_layout, welcome_message, HelpLayout, ScreenLine};
use bo::viewport::Direction;
use bo::{ConsoleSize, Document, LineNumber, Mode, Position, Row, RowIndex};
use std::path::PathBuf;

fn get_short_document() -> Document {
    let lines: Vec<&str> = vec!["Hello world", "Hello world!", "Hello world!!"];
    let mut rows: Vec<Row> = vec![];
    for line in lines {
        rows.push(Row::from(line));
    }
    Document::new(rows, PathBuf::from("test"))
}

fn get_long_document() -> Document {
    let mut rows: Vec<Row> = vec![];
    for _ in 0..200 {
        rows.push(Row::from("Some line"));
    }
    Document::new(rows, PathBuf::from("test"))
}

fn get_test_editor() -> Editor {
    Editor::new(get_short_document(), ConsoleSize::default())
}

fn get_test_editor_with_long_document() -> Editor {
    Editor::new(get_long_document(), ConsoleSize::default())
}

fn assert_position_is(editor: &Editor, x: usize, y: usize) {
    assert_eq!(editor.cursor_position, Position { x, y });
}

fn assert_nth_row_is(editor: &Editor, n: usize, s: &str) {
    assert_eq!(
        editor.document.get_row(RowIndex::new(n)).unwrap().string,
        String::from(s)
    );
}

fn assert_current_line_is(editor: &Editor, s: &str) {
    assert_eq!(editor.current_row().unwrap().string, String::from(s));
}

/// Handles a key and does what would be left to the program around the
/// editor, as far as that needs no file: a file that is asked for counts as
/// missing, and gives an empty document of its name.
fn press(editor: &mut Editor, key: Key) {
    match editor.process_keystroke(key) {
        Action::Open(name) => editor.load(Document::new_empty(PathBuf::from(name))),
        _ => (),
    }
}

fn process_keystrokes(editor: &mut Editor, keys: Vec<char>) {
    for c in keys {
        press(editor, Key::Char(c));
    }
}

fn process_command(editor: &mut Editor, command: &str) {
    let mut command = String::from(command);
    command.push('\n');
    for c in command.chars() {
        press(editor, Key::Char(c));
    }
}

#[test]
fn test_editor_enter_mode() {
    let mut editor = get_test_editor();
    assert_eq!(editor.mode, Mode::Normal); // default mode
    editor.enter_insert_mode();
    assert_eq!(editor.mode, Mode::Insert);
    editor.enter_normal_mode();
    assert_eq!(editor.mode, Mode::Normal);
}

#[test]
fn test_editor_command_buffer() {
    let mut editor = get_test_editor();
    assert!(!editor.is_receiving_command());
    editor.start_receiving_command();
    editor.command_buffer.push_str("help");
    assert!(editor.is_receiving_command());
    editor.stop_receiving_command();
    assert!(!editor.is_receiving_command());
}

#[test]
fn test_editor_pop_normal_command_repetitions() {
    let mut editor = get_test_editor();
    editor.normal_command_buffer.push("123".to_string());
    let times = editor.pop_normal_command_repetitions();
    assert_eq!(times, 123);
    assert!(editor.normal_command_buffer.is_empty());
}

#[test]
fn test_editor_process_keystroke_command() {
    let mut editor = get_test_editor();

    assert!(!editor.is_receiving_command());
    press(&mut editor, Key::Char(':'));
    assert!(editor.is_receiving_command());
}

#[test]
fn test_editor_process_keystroke_navigation() {
    let mut editor = get_test_editor();

    assert_position_is(&editor, 0, 0);

    press(&mut editor, Key::Char('j'));
    assert_position_is(&editor, 0, 1);

    press(&mut editor, Key::Char('k'));
    assert_position_is(&editor, 0, 0);

    press(&mut editor, Key::Char('l'));
    assert_position_is(&editor, 1, 0);

    press(&mut editor, Key::Char('h'));
    assert_position_is(&editor, 0, 0);

    process_keystrokes(&mut editor, vec!['2', 'j']);
    assert_position_is(&editor, 0, 2);
}

#[test]
fn test_editor_change_x_position_when_moving_down_or_up() {
    let mut editor = get_test_editor();

    assert_position_is(&editor, 0, 0);

    // move to 3rd line "Hello world!!"
    process_command(&mut editor, ":3");
    // move at the end of the line
    press(&mut editor, Key::Char('$'));
    assert_position_is(&editor, 12, 2);

    // move up to 2nd line "Hello world!", shorter than "Hello world!".
    // After having moved, the cursor should be on the last "!" and not after it
    press(&mut editor, Key::Char('k'));
    assert_position_is(&editor, 11, 1);
}

#[test]
fn test_editor_help_command() {
    let mut editor = get_test_editor();

    assert!(!editor.alternate_screen);
    process_command(&mut editor, ":help");
    assert!(editor.alternate_screen);
    press(&mut editor, Key::Char('q'));
    assert!(!editor.alternate_screen);
}

#[test]
fn test_editor_goto_line() {
    let mut editor = get_test_editor();

    assert_position_is(&editor, 0, 0);
    process_command(&mut editor, ":2");
    assert_position_is(&editor, 0, 1);
    assert_eq!(editor.current_line_number(), LineNumber::new(2));
}

#[test]
fn test_editor_search() {
    let mut editor = get_test_editor();

    assert!(editor.search_matches.is_empty());
    process_command(&mut editor, "/world");
    assert_eq!(editor.search_matches.len(), 3);
    assert_eq!(
        editor.search_matches,
        vec![
            (Position { x: 6, y: 1 }, Position { x: 12, y: 1 }),
            (Position { x: 6, y: 2 }, Position { x: 12, y: 2 }),
            (Position { x: 6, y: 3 }, Position { x: 12, y: 3 })
        ]
    );
    assert_eq!(editor.message, "Match 1/3");
    assert_eq!(editor.current_search_match_index, 0);

    press(&mut editor, Key::Char('n'));
    assert_eq!(editor.current_search_match_index, 1);
    assert_position_is(&editor, 6, 1);

    press(&mut editor, Key::Char('n'));
    assert_eq!(editor.current_search_match_index, 2);
    assert_position_is(&editor, 6, 2);

    press(&mut editor, Key::Char('n'));
    assert_eq!(editor.current_search_match_index, 0);
    assert_position_is(&editor, 6, 0);

    press(&mut editor, Key::Char('N'));
    assert_eq!(editor.current_search_match_index, 2);
    assert_position_is(&editor, 6, 2);

    press(&mut editor, Key::Esc);
    assert!(editor.search_matches.is_empty());
    assert_eq!(editor.current_search_match_index, 0);
}

#[test]
fn test_editor_unknown_command() {
    let mut editor = get_test_editor();

    process_command(&mut editor, ":derp");
    assert_eq!(
        editor.message,
        "\u{1b}[38;5;1mUnknown command 'derp'\u{1b}[39m"
    );
}

#[test]
fn test_editor_navigation() {
    let mut editor = get_test_editor();

    assert_position_is(&editor, 0, 0);

    press(&mut editor, Key::Char('G'));
    assert_position_is(&editor, 0, 2);

    press(&mut editor, Key::Char('g'));
    assert_position_is(&editor, 0, 0);

    press(&mut editor, Key::Char('$'));
    assert_position_is(&editor, 10, 0);

    press(&mut editor, Key::Char('^'));
    assert_position_is(&editor, 0, 0);

    press(&mut editor, Key::Char('w'));
    assert_position_is(&editor, 6, 0);

    press(&mut editor, Key::Char('b'));
    assert_position_is(&editor, 0, 0);

    process_keystrokes(&mut editor, vec!['2', 'w']);
    assert_position_is(&editor, 10, 0);

    process_keystrokes(&mut editor, vec!['2', 'b']);
    assert_position_is(&editor, 0, 0);
}

#[test]
fn test_editor_deletion() {
    let mut editor = get_test_editor();

    editor.goto_x_y(1, RowIndex::new(1));
    press(&mut editor, Key::Char('i'));
    press(&mut editor, Key::Backspace);
    assert_eq!(editor.document.num_rows(), 3);
    assert_eq!(
        editor.document.get_row(RowIndex::new(1)).unwrap().string,
        "ello world!"
    );
    editor.goto_x_y(0, RowIndex::new(1));
    press(&mut editor, Key::Backspace);
    assert_eq!(editor.document.num_rows(), 2);
    assert_eq!(
        editor.document.get_row(RowIndex::new(0)).unwrap().string,
        "Hello worldello world!"
    );
    assert_eq!(
        editor.document.get_row(RowIndex::new(1)).unwrap().string,
        "Hello world!!"
    );
}

#[test]
fn test_editor_edition() {
    let mut editor = get_test_editor();

    assert_eq!(editor.document.num_rows(), 3);
    press(&mut editor, Key::Char('o'));
    assert_position_is(&editor, 0, 1);
    assert_eq!(editor.document.num_rows(), 4);
    assert_nth_row_is(&editor, 1, "");

    press(&mut editor, Key::Esc);
    press(&mut editor, Key::Char('O'));
    assert_position_is(&editor, 0, 1);
    assert_eq!(editor.document.num_rows(), 5);
    assert_nth_row_is(&editor, 1, "");
    assert_nth_row_is(&editor, 2, "");

    press(&mut editor, Key::Esc);
    assert_eq!(editor.document.num_rows(), 5);
    press(&mut editor, Key::Char('d'));
    assert_eq!(editor.document.num_rows(), 4);

    editor.goto_x_y(0, RowIndex::new(1));
    press(&mut editor, Key::Char('i'));
    assert_eq!(editor.mode, Mode::Insert);
    process_keystrokes(&mut editor, vec!['b', 'o', 'o', 'p']);
    assert_nth_row_is(&editor, 1, "boop");
    press(&mut editor, Key::Backspace);
    assert_nth_row_is(&editor, 1, "boo");

    press(&mut editor, Key::Esc);
    assert_eq!(editor.mode, Mode::Normal);
    process_keystrokes(&mut editor, vec!['^', 'i']);
    assert_eq!(editor.mode, Mode::Insert);
    assert_eq!(editor.document.num_rows(), 4);
    press(&mut editor, Key::Backspace);
    assert_eq!(editor.document.num_rows(), 3);
    assert_nth_row_is(&editor, 0, "Hello worldboo");

    editor.goto_x_y(11, RowIndex::new(0));
    assert_position_is(&editor, 11, 0);
    assert_eq!(editor.document.num_rows(), 3);
    press(&mut editor, Key::Char('\n'));
    assert_eq!(editor.document.num_rows(), 4);
    assert_nth_row_is(&editor, 0, "Hello world");
    assert_nth_row_is(&editor, 1, "boo");
    assert_position_is(&editor, 0, 1);

    editor.goto_x_y(0, RowIndex::new(0));
    press(&mut editor, Key::Esc);
    press(&mut editor, Key::Char('x'));
    assert_nth_row_is(&editor, 0, "ello world");

    press(&mut editor, Key::Char('A'));
    assert_eq!(editor.mode, Mode::Insert);
    assert_position_is(&editor, 10, 0);
}

#[test]
fn test_editor_insert_spaces_for_tab() {
    let mut editor = get_test_editor();

    process_keystrokes(&mut editor, vec!['i', '\t']);
    assert_position_is(&editor, SPACES_PER_TAB, 0);
    assert_nth_row_is(&editor, 0, "    Hello world");
}

#[test]
fn test_editor_move_cursor_to_position_x() {
    let mut editor = get_test_editor();

    assert_position_is(&editor, 0, 0);
    editor.move_cursor_to_position_x(1);
    assert_position_is(&editor, 1, 0);
    assert_eq!(editor.offset.columns, 0);

    editor.move_cursor_to_position_x(140);
    assert_position_is(&editor, 119, 0);
    assert_eq!(editor.offset.columns, 21);
}

#[test]
fn test_editor_move_cursor_to_position_y() {
    let mut editor = get_test_editor_with_long_document();

    assert_position_is(&editor, 0, 0);
    assert_eq!(editor.offset.rows, 0);

    editor.move_cursor_to_position_y(RowIndex::new(10));
    assert_position_is(&editor, 0, 10);
    assert_eq!(editor.current_line_number(), LineNumber::new(11));
    assert_eq!(editor.offset.rows, 0);

    editor.move_cursor_to_position_y(RowIndex::new(199));
    assert_eq!(editor.current_line_number(), LineNumber::new(200));
    assert_eq!(editor.current_row_index(), RowIndex::new(199));
    // The editor is 78 lines high, and line 78 <--> row 77
    // and offset 122 + row 77 = row 199
    assert_position_is(&editor, 0, 77);
    assert_eq!(editor.offset.rows, 122);

    editor.move_cursor_to_position_y(RowIndex::new(110));
    assert_eq!(editor.current_line_number(), LineNumber::new(111));
    // The editor is 78 lines high, and its middle line is L39,
    // which means row 38, and row 38 + offset 72 = row 110
    assert_position_is(&editor, 0, 38);
    assert_eq!(editor.offset.rows, 72);

    // We stay in the same view
    editor.move_cursor_to_position_y(RowIndex::new(112));
    assert_position_is(&editor, 0, 40);
    assert_eq!(editor.offset.rows, 72);

    // We move to the last view
    editor.move_cursor_to_position_y(RowIndex::new(180));
    assert_eq!(editor.current_line_number(), LineNumber::new(181));
    assert_position_is(&editor, 0, 58);
    assert_eq!(editor.offset.rows, 122);

    // We move to the first half view from the last
    editor.move_cursor_to_position_y(RowIndex::new(10));
    assert_position_is(&editor, 0, 10);
    assert_eq!(editor.current_line_number(), LineNumber::new(11));
    assert_eq!(editor.offset.rows, 0);
}

#[test]
fn test_editor_goto_percentage_in_document() {
    let mut editor = get_test_editor_with_long_document();

    process_keystrokes(&mut editor, vec!['1', '0', '%']);
    assert_position_is(&editor, 0, 19); // line 20
}

#[test]
fn test_editor_navigate_long_document() {
    let mut editor = get_test_editor_with_long_document();

    editor.move_cursor_to_position_y(RowIndex::new(110));
    // The terminal is 78 lines high, middle line = 39, so middle
    // row = 38
    assert_position_is(&editor, 0, 38);
    assert_eq!(editor.offset.rows, 72);

    press(&mut editor, Key::Char('H'));
    assert_position_is(&editor, 0, 0);
    assert_eq!(editor.offset.rows, 72);

    press(&mut editor, Key::Char('M'));
    assert_position_is(&editor, 0, 38);
    assert_eq!(editor.offset.rows, 72);

    press(&mut editor, Key::Char('L'));
    assert_position_is(&editor, 0, 77);
    assert_eq!(editor.offset.rows, 72);
}

#[test]
fn test_editor_simple_utilities() {
    let editor = get_test_editor();
    assert_eq!(editor.current_row_index(), RowIndex::new(0));
    assert_eq!(editor.current_line_number(), LineNumber::new(1));
    assert_eq!(editor.current_x_position(), 0);
    assert_eq!(editor.current_grapheme(), "H");
    assert_eq!(editor.current_row().unwrap().string, "Hello world");
}

#[test]
fn test_editor_quit() {
    let mut editor = get_test_editor();
    assert!(!editor.should_quit);
    assert!(!editor.is_dirty());
    editor.quit(false);
    assert!(editor.should_quit);

    editor.should_quit = false;
    // insert new characters
    process_keystrokes(&mut editor, vec!['i', 'o']);

    assert!(!editor.should_quit);
    editor.quit(false);
    assert!(!editor.should_quit);
    assert_eq!(
        editor.message,
        "\u{1b}[38;5;1mUnsaved changes! Run :q! to override\u{1b}[39m"
    );

    editor.quit(true);
    assert!(editor.should_quit);
}

#[test]
fn test_editor_join_lines() {
    let mut editor = get_test_editor();
    // Go to end of line and join it with the next one
    process_keystrokes(&mut editor, vec!['$', 'J']);
    assert_nth_row_is(&editor, 0, "Hello world Hello world!");
    assert_eq!(editor.document.num_rows(), 2);
}

#[test]
fn test_editor_edit_long_document() {
    let mut editor = get_test_editor_with_long_document();
    assert_eq!(editor.document.num_rows(), 200);
    assert_eq!(editor.mode, Mode::Normal);
    editor.move_cursor_to_position_y(RowIndex::new(110));
    // line 111
    // terminal height is 78, and we're positioned at line 39, meaning
    // row 38, offset is 110 - 38 = 72
    assert_position_is(&editor, 0, 38);
    assert_eq!(editor.offset.rows, 72);

    // Go to Insert mode and append a new line
    press(&mut editor, Key::Char('o'));
    assert_eq!(editor.mode, Mode::Insert);
    assert_eq!(editor.document.num_rows(), 201);
    assert_position_is(&editor, 0, 39);
    assert_eq!(editor.offset.rows, 72);

    // write some text
    process_keystrokes(&mut editor, vec!['d', 'e', 'r', 'p']);
    assert_eq!(editor.document.num_rows(), 201);
    assert_current_line_is(&editor, "derp");
    assert_position_is(&editor, 4, 39);
    assert_eq!(editor.offset.rows, 72);

    // enter newline
    press(&mut editor, Key::Char('\n'));
    assert_eq!(editor.document.num_rows(), 202);
    assert_position_is(&editor, 0, 40);
    assert_eq!(editor.offset.rows, 72);
    assert_current_line_is(&editor, "");

    // delete line
    press(&mut editor, Key::Backspace);
    assert_position_is(&editor, 4, 39);
    assert_current_line_is(&editor, "derp");
}

#[test]
fn test_stop_receiving_command_after_processing_esc_key() {
    let mut editor = get_test_editor();
    press(&mut editor, Key::Char(':'));
    assert!(editor.is_receiving_command());
    press(&mut editor, Key::Esc);
    assert!(!editor.is_receiving_command());
}

#[test]
fn test_process_backspace_mid_receiving_command() {
    let mut editor = get_test_editor();
    process_keystrokes(&mut editor, vec![':', 'o']);
    assert!(editor.is_receiving_command());
    assert_eq!(editor.command_buffer, String::from(":o"));
    press(&mut editor, Key::Backspace);
    assert!(editor.is_receiving_command());
    assert_eq!(editor.command_buffer, String::from(":"));
}

#[test]
fn test_open_non_existing_file() {
    let mut editor = get_test_editor();
    process_command(&mut editor, ":o nope.txt");
    // the file will be opened but unsaved
    assert_eq!(editor.document.filename, Some(PathBuf::from("nope.txt")));
}

#[test]
fn test_new_file() {
    let mut editor = get_test_editor();
    process_command(&mut editor, ":new nope.txt");
    // the file will be opened but unsaved
    assert_eq!(editor.document.filename, Some(PathBuf::from("nope.txt")));
}

#[test]
fn test_display_line_numbers() {
    let mut editor = get_test_editor();
    assert!(!editor.config.display_line_numbers);
    process_command(&mut editor, ":ln");
    assert!(editor.config.display_line_numbers);
    process_command(&mut editor, ":ln");
    assert!(!editor.config.display_line_numbers);
}

#[test]
fn test_display_stats() {
    let mut editor = get_test_editor();
    assert!(!editor.config.display_stats);
    process_command(&mut editor, ":stats");
    assert!(editor.config.display_stats);
    process_command(&mut editor, ":stats");
    assert!(!editor.config.display_stats);
}

#[test]
fn test_go_to_start_of_line() {
    let mut editor = get_test_editor();
    press(&mut editor, Key::Char('w'));
    assert_position_is(&editor, 6, 0);
    press(&mut editor, Key::Char('0'));
    assert_position_is(&editor, 0, 0);
}

#[test]
fn test_goto_matching_closing_symbol() {
    let mut editor = get_test_editor();
    press(&mut editor, Key::Char('A'));
    process_keystrokes(&mut editor, vec!['(', 'o', 'h', ')']);
    let first_line_content = editor
        .document
        .get_row(RowIndex::new(0))
        .unwrap()
        .string
        .clone();
    assert_eq!(first_line_content.chars().nth(11), Some('('));
    assert_eq!(first_line_content.chars().nth(14), Some(')'));
    editor.cursor_position = Position { x: 11, y: 0 }; // first paren
    press(&mut editor, Key::Esc);
    press(&mut editor, Key::Char('m'));
    assert_position_is(&editor, 14, 0);
}

#[test]
fn test_move_by_paragraph() {
    let mut editor = get_test_editor();
    assert_position_is(&editor, 0, 0);
    press(&mut editor, Key::Char('}'));
    assert_position_is(&editor, 0, 2);
    press(&mut editor, Key::Char('{'));
    assert_position_is(&editor, 0, 0);
}

#[test]
fn test_delete_last_line() {
    let mut editor = get_test_editor();
    assert_eq!(editor.document.num_rows(), 3);
    press(&mut editor, Key::Char('G'));
    assert_position_is(&editor, 0, 2);
    press(&mut editor, Key::Char('d'));
    assert_eq!(editor.document.num_rows(), 2);
    assert_position_is(&editor, 0, 1);
}

#[test]
fn test_process_command_not_found() {
    let mut editor = get_test_editor();
    process_command(&mut editor, ":nope");
    assert_eq!(
        editor.message,
        "\u{1b}[38;5;1mUnknown command 'nope'\u{1b}[39m"
    );
}

#[test]
fn test_editor_move_cursor_steps() {
    let mut editor = get_test_editor();
    assert_eq!(editor.mode, Mode::Normal);

    editor.move_cursor(&Direction::Down, 1);
    assert_position_is(&editor, 0, 1);
    editor.move_cursor(&Direction::Up, 1);
    assert_position_is(&editor, 0, 0);
    editor.move_cursor(&Direction::Right, 1);
    assert_position_is(&editor, 1, 0);
    editor.move_cursor(&Direction::Left, 1);
    assert_position_is(&editor, 0, 0);
    editor.move_cursor(&Direction::Down, 2);
    assert_position_is(&editor, 0, 2);
    // no step past the last row, nor above the first
    editor.move_cursor(&Direction::Down, 5);
    assert_position_is(&editor, 0, 2);
    editor.move_cursor(&Direction::Up, 9);
    assert_position_is(&editor, 0, 0);
    assert_eq!(editor.offset.rows, 0);
    // nor past the end of the row
    editor.move_cursor(&Direction::Right, 40);
    assert_position_is(&editor, 10, 0);
    editor.move_cursor(&Direction::Left, 40);
    assert_position_is(&editor, 0, 0);
}

#[test]
fn test_editor_move_cursor_clamps_x_in_normal_mode() {
    let mut editor = get_test_editor();
    editor.goto_x_y(12, RowIndex::new(2));
    assert_position_is(&editor, 12, 2);
    editor.move_cursor(&Direction::Up, 1);
    assert_position_is(&editor, 11, 1);
    editor.move_cursor(&Direction::Up, 1);
    assert_position_is(&editor, 10, 0);

    let mut editor = get_test_editor();
    editor.mode = Mode::Insert;
    editor.goto_x_y(12, RowIndex::new(2));
    editor.move_cursor(&Direction::Up, 1);
    assert_position_is(&editor, 12, 1);
}

#[test]
fn test_editor_move_cursor_scrolls_at_the_edges() {
    let mut editor = get_test_editor_with_long_document();
    editor.move_cursor(&Direction::Down, 79);
    assert_position_is(&editor, 0, 79);
    assert_eq!(editor.offset.rows, 0);
    editor.move_cursor(&Direction::Down, 3);
    assert_position_is(&editor, 0, 79);
    assert_eq!(editor.offset.rows, 3);
    editor.move_cursor(&Direction::Down, 500);
    assert_position_is(&editor, 0, 79);
    assert_eq!(editor.offset.rows, 120);
    editor.move_cursor(&Direction::Up, 80);
    assert_position_is(&editor, 0, 0);
    assert_eq!(editor.offset.rows, 119);
}

#[test]
fn test_editor_goto_line_clamps() {
    let mut editor = get_test_editor();
    editor.goto_line(LineNumber::new(0), 3);
    assert_position_is(&editor, 3, 0);
    editor.goto_line(LineNumber::new(40), 0);
    assert_position_is(&editor, 0, 2);
}

#[test]
fn test_editor_click() {
    let mut editor = get_test_editor();
    editor.click(Position { x: 11, y: 0 });
    assert_position_is(&editor, 11, 0);
    editor.click(Position { x: 12, y: 0 });
    assert_position_is(&editor, 11, 0);
    editor.click(Position { x: 0, y: 3 });
    assert_position_is(&editor, 11, 0);
    editor.click(Position { x: 13, y: 2 });
    assert_position_is(&editor, 13, 2);
}

#[test]
fn test_editor_mouse_events() {
    let mut editor = get_test_editor();
    editor.process_mouse_event(MouseEvent::Release);
    assert_position_is(&editor, 0, 0);
    editor.process_mouse_event(MouseEvent::PressLeft { x: 4, y: 2 });
    assert_eq!(editor.mouse_event_buffer, vec![Position { x: 3, y: 1 }]);
    assert_position_is(&editor, 0, 0);
    editor.process_mouse_event(MouseEvent::Other);
    editor.process_mouse_event(MouseEvent::Release);
    assert_position_is(&editor, 3, 1);
    assert!(editor.mouse_event_buffer.is_empty());

    // with line numbers shown, their columns do not count
    process_command(&mut editor, ":ln");
    assert_eq!(editor.row_prefix_length, 4);
    editor.process_mouse_event(MouseEvent::PressLeft { x: 8, y: 1 });
    editor.process_mouse_event(MouseEvent::Release);
    assert_position_is(&editor, 2, 0);
    // a click where the document has no text is ignored
    editor.process_mouse_event(MouseEvent::PressLeft { x: 8, y: 30 });
    editor.process_mouse_event(MouseEvent::Release);
    assert_position_is(&editor, 2, 0);
}

#[test]
fn test_editor_row_indices() {
    let mut editor = get_test_editor();
    assert_eq!(editor.previous_row_index(), RowIndex::new(0));
    assert_eq!(editor.next_row_index(), RowIndex::new(1));
    editor.goto_x_y(0, RowIndex::new(2));
    assert_eq!(editor.previous_row_index(), RowIndex::new(1));
    assert_eq!(editor.row_len(RowIndex::new(2)), 13);
    assert_eq!(editor.row_len(RowIndex::new(3)), 0);
    assert_eq!(editor.bottom_of_screen_line_number(), LineNumber::new(78));
    assert_eq!(editor.middle_of_screen_line_number(), LineNumber::new(39));
}

#[test]
fn test_editor_autocompletion() {
    let mut editor = get_test_editor();
    process_keystrokes(&mut editor, vec![':', 'h', '\t']);
    assert_eq!(editor.command_buffer, ":help");
    assert!(!editor.is_autocompleting_command());
    press(&mut editor, Key::Esc);

    process_keystrokes(&mut editor, vec![':', 'w', '\t']);
    assert_eq!(editor.command_suggestions, ["w", "wq"]);
    assert!(editor.is_autocompleting_command());
    assert_eq!(editor.current_autocompletion_index, 0);
    press(&mut editor, Key::Char('\t'));
    assert_eq!(editor.current_autocompletion_index, 1);
    press(&mut editor, Key::Char('\t'));
    assert_eq!(editor.current_autocompletion_index, 0);
    // any other key drops the suggestions and goes to the prompt
    press(&mut editor, Key::Char('q'));
    assert!(editor.command_suggestions.is_empty());
    assert_eq!(editor.command_buffer, ":wq");
    press(&mut editor, Key::Esc);

    // enter takes the chosen suggestion and carries it out
    process_keystrokes(&mut editor, vec![':', 's', '\t']);
    assert_eq!(editor.command_buffer, ":stats");
    press(&mut editor, Key::Esc);
    process_keystrokes(&mut editor, vec![':', 'o', '\t']);
    assert_eq!(editor.command_suggestions, ["open", "o"]);
    press(&mut editor, Key::Char('\t'));
    assert_eq!(editor.process_keystroke(Key::Char('\n')), Action::Nothing);
    assert_eq!(
        editor.message,
        "\u{1b}[38;5;1mUnknown command 'o'\u{1b}[39m"
    );
    assert!(!editor.is_receiving_command());
}

#[test]
fn test_editor_save_actions() {
    let mut editor = get_test_editor();
    process_keystrokes(&mut editor, vec!['A', ' ', ' ']);
    press(&mut editor, Key::Esc);
    assert_nth_row_is(&editor, 0, "Hello world  ");
    assert_eq!(editor.unsaved_edits, 2);
    assert!(editor.is_dirty());

    process_keystrokes(&mut editor, vec![':', 'w']);
    assert_eq!(
        editor.process_keystroke(Key::Char('\n')),
        Action::Save(String::new())
    );
    // the trailing spaces went, and the cursor came back into the row
    assert_nth_row_is(&editor, 0, "Hello world");
    assert_position_is(&editor, 10, 0);
    editor.finish_save("", SaveOutcome::NotWritten);
    assert_eq!(
        editor.message,
        "\u{1b}[38;5;1mError writing to file!\u{1b}[39m"
    );
    assert_eq!(editor.unsaved_edits, 2);
    editor.finish_save("", SaveOutcome::Saved);
    assert_eq!(editor.message, "File successfully saved");
    assert_eq!(editor.unsaved_edits, 0);
    assert!(!editor.is_dirty());

    process_keystrokes(&mut editor, vec![':', 'w', ' ', ' ', 'a', ' ', 'b', ' ']);
    assert_eq!(
        editor.process_keystroke(Key::Char('\n')),
        Action::Save(String::from("a b"))
    );
    editor.finish_save("a b", SaveOutcome::Saved);
    assert_eq!(editor.message, "a b successfully renamed to a b");
    assert_eq!(editor.document.filename, Some(PathBuf::from("a b")));

    process_keystrokes(&mut editor, vec![':', 'w', 'q']);
    assert_eq!(
        editor.process_keystroke(Key::Char('\n')),
        Action::SaveAndQuit
    );
    assert!(!editor.should_quit);
}

#[test]
fn test_editor_save_without_a_file_name() {
    let mut editor = Editor::new(Document::default(), ConsoleSize::default());
    assert_eq!(editor.save("", false), Action::Nothing);
    assert_eq!(editor.message, "\u{1b}[38;5;1mNo file name\u{1b}[39m");
    assert_eq!(
        editor.save("notes.txt", false),
        Action::Save(String::from("notes.txt"))
    );
    editor.finish_save("notes.txt", SaveOutcome::Saved);
    assert_eq!(editor.message, "Buffer saved to notes.txt");
    assert_eq!(editor.document.filename, Some(PathBuf::from("notes.txt")));
    // saving and quitting without a name quits, as nothing is unsaved
    let mut editor = Editor::new(Document::default(), ConsoleSize::default());
    assert_eq!(editor.save("", true), Action::Nothing);
    assert!(editor.should_quit);
}

#[test]
fn test_editor_swap_save_is_due_every_hundred_edits() {
    let mut editor = get_test_editor();
    press(&mut editor, Key::Char('i'));
    for _ in 0..99 {
        assert_eq!(editor.process_keystroke(Key::Char('a')), Action::Nothing);
    }
    assert_eq!(editor.process_keystroke(Key::Char('a')), Action::SaveSwap);
    assert_eq!(editor.unsaved_edits, 100);
    editor.finish_swap_save(false);
    assert_eq!(editor.unsaved_edits, 100);
    assert_eq!(editor.process_keystroke(Key::Char('a')), Action::SaveSwap);
    editor.finish_swap_save(true);
    assert_eq!(editor.unsaved_edits, 0);
    assert_eq!(editor.process_keystroke(Key::Esc), Action::Nothing);
    assert_eq!(editor.unsaved_edits, 0);
}

#[test]
fn test_editor_other_prompt_commands() {
    let mut editor = get_test_editor();
    process_keystrokes(&mut editor, vec![':', 'd', 'e', 'b', 'u', 'g']);
    assert_eq!(editor.process_keystroke(Key::Char('\n')), Action::Debug);
    process_keystrokes(&mut editor, vec![':', 'o', 'p', 'e', 'n', ' ', 'a', ' ', 'b']);
    assert_eq!(
        editor.process_keystroke(Key::Char('\n')),
        Action::Open(String::from("a"))
    );
    process_command(&mut editor, ":zap it");
    assert_eq!(
        editor.message,
        "\u{1b}[38;5;1mUnknown command 'zap'\u{1b}[39m"
    );
    process_command(&mut editor, ":q");
    assert!(editor.should_quit);
    let mut editor = get_test_editor();
    process_keystrokes(&mut editor, vec!['i', 'x']);
    press(&mut editor, Key::Esc);
    process_command(&mut editor, ":q");
    assert!(!editor.should_quit);
    process_command(&mut editor, ":q!");
    assert!(editor.should_quit);
    // a number too large for a line number is no command
    let mut editor = get_test_editor();
    process_command(&mut editor, ":99999999999999999999999999");
    assert_eq!(
        editor.message,
        "\u{1b}[38;5;1mUnknown command '99999999999999999999999999'\u{1b}[39m"
    );
    process_command(&mut editor, ":");
    assert!(!editor.is_receiving_command());
}

#[test]
fn test_editor_search_without_match() {
    let mut editor = get_test_editor();
    process_command(&mut editor, "/nothing");
    assert!(editor.search_matches.is_empty());
    assert_eq!(editor.message, "0 matches");
    assert_position_is(&editor, 0, 0);
    press(&mut editor, Key::Char('n'));
    assert_eq!(editor.message, "0 matches");
}

#[test]
fn test_editor_repetitions_default_to_one() {
    let mut editor = get_test_editor();
    assert_eq!(editor.pop_normal_command_repetitions(), 1);
    editor.normal_command_buffer.push("x".to_string());
    assert_eq!(editor.pop_normal_command_repetitions(), 1);
    editor.normal_command_buffer.push("1".to_string());
    editor.normal_command_buffer.push("0".to_string());
    assert_eq!(editor.pop_normal_command_repetitions(), 10);
}

#[test]
fn test_editor_load_and_resize() {
    let mut editor = get_test_editor();
    editor.goto_x_y(3, RowIndex::new(2));
    editor.display_message(String::from("hi"));
    editor.load(get_long_document());
    assert_eq!(editor.document.num_rows(), 200);
    assert_position_is(&editor, 0, 0);
    assert_eq!(editor.message, "");
    assert!(!editor.is_dirty());
    editor.resize(ConsoleSize {
        height: 12,
        width: 40,
    });
    assert_eq!(editor.bottom_of_screen_line_number(), LineNumber::new(10));
    editor.move_cursor_to_position_x(41);
    assert_position_is(&editor, 39, 0);
    assert_eq!(editor.offset.columns, 2);
}

#[test]
fn test_editor_status() {
    let mut editor = get_test_editor();

    assert_eq!(
        editor.generate_status(),
        format!("[test] NORMAL{}Ln 1, Col 1\r", " ".repeat(96))
    );

    // insert new characters
    process_keystrokes(&mut editor, vec!['i', 'o']);

    assert_eq!(
        editor.generate_status(),
        format!("[test] + INSERT{}Ln 1, Col 2\r", " ".repeat(94))
    );

    press(&mut editor, Key::Esc);

    assert_eq!(
        editor.generate_status(),
        format!("[test] + NORMAL{}Ln 1, Col 2\r", " ".repeat(94))
    );

    editor.cursor_position.x = 1;
    editor.cursor_position.y = 2;
    assert_eq!(
        editor.generate_status(),
        format!("[test] + NORMAL{}Ln 3, Col 2\r", " ".repeat(94))
    );
    editor.cursor_position.x = 0;
    editor.cursor_position.y = 0;

    editor.config.display_stats = true;
    assert_eq!(
        editor.generate_status(),
        format!("[test] + NORMAL{}[3L/6W] Ln 1, Col 1\r", " ".repeat(86))
    );
}

#[test]
fn test_editor_status_without_a_file() {
    let editor = Editor::new(Document::default(), ConsoleSize { height: 10, width: 30 });
    assert_eq!(
        editor.generate_status(),
        "[No Name] NORMAL   Ln 1, Col 1\r"
    );
    assert_eq!(
        editor.generate_status_for("a-very-long-name-of-a-file"),
        "[a-very-long-name-of-a-file] NORMALLn 1, Col 1\r"
    );
}

#[test]
fn test_editor_autocompletion_message() {
    let mut editor = get_test_editor();
    process_keystrokes(&mut editor, vec![':', 'w', '\t', '\t']);
    assert_eq!(
        editor.generate_command_autocompletion_message(),
        "w|\u{1b}[38;5;1m\u{1b}[1mwq\u{1b}[m\u{1b}[39m"
    );
}

/// Handles the keys of `command` and an enter key, and returns what the
/// editor asks for at the end.
fn submit(editor: &mut Editor, command: &str) -> Action {
    for c in command.chars() {
        press(editor, Key::Char(c));
    }
    editor.process_keystroke(Key::Char('\n'))
}

#[test]
fn test_open_existing_file() {
    let f_name_pathbuf = PathBuf::from("/tmp/some/file.txt");
    let document = Document::from_text("Hello\nHello!\nHello!!\n", f_name_pathbuf.clone());
    let editor = Editor::new(document, ConsoleSize::default());
    assert_eq!(editor.document.filename, Some(f_name_pathbuf));
    assert_eq!(editor.document.num_rows(), 3);
    assert_nth_row_is(&editor, 2, "Hello!!");
}

#[test]
fn test_save_file() {
    let document = Document::new_empty(PathBuf::from("/tmp/some/file.txt"));
    let mut editor = Editor::new(document, ConsoleSize::default());

    process_keystrokes(&mut editor, vec!['i', 'h', 'e', 'l', 'l', 'o']);
    press(&mut editor, Key::Esc);
    assert_eq!(submit(&mut editor, ":w"), Action::Save(String::new()));
    let content = editor.document.to_text();
    editor.finish_save("", SaveOutcome::Saved);
    assert_eq!(editor.unsaved_edits, 0);

    assert_eq!(content, "hello\n");
}

#[test]
fn test_save_file_trim_whitespaces() {
    let document = Document::new_empty(PathBuf::from("/tmp/some/file.txt"));
    let mut editor = Editor::new(document, ConsoleSize::default());

    process_keystrokes(&mut editor, vec!['i', ' ', 'h', 'e', 'l', 'l', 'o', ' ']);
    press(&mut editor, Key::Esc);
    assert_eq!(submit(&mut editor, ":w"), Action::Save(String::new()));
    let content = editor.document.to_text();
    editor.finish_save("", SaveOutcome::Saved);
    assert_eq!(editor.unsaved_edits, 0);

    assert_eq!(content, " hello\n"); // trailing whitespace has been removed
}

#[test]
fn test_save_and_quit() {
    let mut editor = get_test_editor();
    process_keystrokes(&mut editor, vec!['G', 'o', 'd', 'e', 'r', 'p']);
    press(&mut editor, Key::Esc);
    assert_eq!(editor.unsaved_edits, 4);
    assert!(!editor.should_quit);
    assert_eq!(submit(&mut editor, ":wq"), Action::SaveAndQuit);
    editor.finish_save("", SaveOutcome::Saved);
    editor.quit(false);
    assert_eq!(editor.unsaved_edits, 0);
    assert!(editor.should_quit);
}

#[test]
fn test_screen_lines() {
    let editor = get_test_editor();
    assert_eq!(editor.screen_line(RowIndex::new(2)), ScreenLine::Row(2));
    assert_eq!(editor.screen_line(RowIndex::new(3)), ScreenLine::Tilde);
    assert_eq!(editor.screen_line(RowIndex::new(38)), ScreenLine::Tilde);
    let editor = Editor::new(Document::default(), ConsoleSize::default());
    assert_eq!(editor.screen_line(RowIndex::new(0)), ScreenLine::Row(0));
    assert_eq!(editor.screen_line(RowIndex::new(37)), ScreenLine::Tilde);
    assert_eq!(editor.screen_line(RowIndex::new(38)), ScreenLine::Welcome);
    let mut editor = Editor::new(Document::default(), ConsoleSize::default());
    process_keystrokes(&mut editor, vec!['i', 'x']);
    assert_eq!(editor.screen_line(RowIndex::new(38)), ScreenLine::Tilde);
}

#[test]
fn test_render_row() {
    let mut editor = Editor::new(
        get_short_document(),
        ConsoleSize {
            height: 10,
            width: 8,
        },
    );
    let row = Row::from("Hello world!");
    assert_eq!(editor.render_row(&row, LineNumber::new(2)), "Hello wo");
    process_command(&mut editor, ":ln");
    assert_eq!(editor.render_row(&row, LineNumber::new(2)), "   2 Hel");
    editor.offset.columns = 6;
    assert_eq!(editor.render_row(&row, LineNumber::new(12)), "  12 wor");
}

#[test]
fn test_welcome_message() {
    assert_eq!(welcome_message("bo v1", 12), "~   bo v1  ");
    assert_eq!(welcome_message("bo v1", 7), "~ bo v1");
    assert_eq!(welcome_message("bo v1", 4), "~ bo");
    assert_eq!(welcome_message("bo v1", 0), "");
}

#[test]
fn test_help_layout() {
    assert_eq!(
        help_layout(10, 40, ConsoleSize::default()),
        HelpLayout {
            v_padding: 34,
            h_padding: 40,
            closing_line: false,
        }
    );
    assert_eq!(
        help_layout(11, 200, ConsoleSize::default()),
        HelpLayout {
            v_padding: 33,
            h_padding: 0,
            closing_line: false,
        }
    );
    assert_eq!(
        help_layout(5, 2, ConsoleSize { height: 6, width: 4 }),
        HelpLayout {
            v_padding: 0,
            h_padding: 1,
            closing_line: true,
        }
    );
}
