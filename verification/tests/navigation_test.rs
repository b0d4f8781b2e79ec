use bo::{Boundary, Document, LineNumber, Navigator, Position, Row, ViewportOffset};
use std::path::PathBuf;

fn test_document() -> Document {
    Document::new(
        vec![
            Row::from("Test line 2"),
            Row::from(""),
            Row::from("Test line 2"),
        ],
        PathBuf::from("test.txt"),
    )
}

fn test_row_word_nav() -> Row {
    Row::from("const STATUS_FG_COLOR: color::Rgb = color::Rgb(63, 63, 63);")
}

fn closing_in_row(row: Row, x: usize) -> Option<usize> {
    let doc = Document::new(vec![row], PathBuf::from("test.txt"));
    Navigator::find_matching_closing_symbol(
        &doc,
        &Position { x, y: 0 },
        &ViewportOffset { columns: 0, rows: 0 },
    )
    .map(|p| p.x)
}

fn opening_in_row(row: Row, x: usize) -> Option<usize> {
    let doc = Document::new(vec![row], PathBuf::from("test.txt"));
    Navigator::find_matching_opening_symbol(
        &doc,
        &Position { x, y: 0 },
        &ViewportOffset { columns: 0, rows: 0 },
    )
    .map(|p| p.x)
}

#[test]
fn navigation_test_test_find_index_of_first_non_whitespace() {
    assert_eq!(
        Navigator::find_index_of_first_non_whitespace(&Row::from("  test")),
        Some(2)
    );
}

#[test]
fn test_find_x_index_of_matching_closing_symbol() {
    let row = Row::from("Hello(world);");
    assert_eq!(closing_in_row(row, 5), Some(11));
}

#[test]
fn test_find_x_index_of_matching_closing_symbol_no_match() {
    let row = Row::from("Hello(world;");
    assert_eq!(closing_in_row(row, 5), None);
}

#[test]
fn test_find_x_index_of_matching_opening_symbol() {
    let row = Row::from("Hello(world);");
    assert_eq!(opening_in_row(row, 11), Some(5));
}

#[test]
fn test_find_x_index_of_matching_opening_symbol_no_match() {
    let row = Row::from("Helloworld);");
    assert_eq!(opening_in_row(row, 11), None);
}

#[test]
fn navigation_test_test_find_line_number_of_end_of_paragraph() {
    let current_line_number = LineNumber::new(1);
    assert_eq!(
        Navigator::find_line_number_of_start_or_end_of_paragraph(
            &test_document(),
            current_line_number,
            &Boundary::End
        ),
        LineNumber::new(2)
    );
}

#[test]
fn navigation_test_test_find_line_number_of_end_of_paragraph_when_at_end_of_document() {
    assert_eq!(
        Navigator::find_line_number_of_start_or_end_of_paragraph(
            &test_document(),
            test_document().last_line_number(),
            &Boundary::End
        ),
        test_document().last_line_number()
    );
}

#[test]
fn navigation_test_test_find_line_number_of_start_of_paragraph() {
    assert_eq!(
        Navigator::find_line_number_of_start_or_end_of_paragraph(
            &test_document(),
            test_document().last_line_number(),
            &Boundary::Start
        ),
        LineNumber::new(2)
    );
}

#[test]
fn navigation_test_test_find_line_number_of_start_of_paragraph_when_at_first_line() {
    assert_eq!(
        Navigator::find_line_number_of_start_or_end_of_paragraph(
            &test_document(),
            LineNumber::new(1),
            &Boundary::Start
        ),
        LineNumber::new(1)
    );
}

#[test]
fn navigation_test_test_is_word_delimiter_false() {
    assert!(!Navigator::is_word_delimiter('a', 'a'));
    assert!(!Navigator::is_word_delimiter('a', ' '));
    assert!(!Navigator::is_word_delimiter('a', '_'));
    assert!(!Navigator::is_word_delimiter('_', 'a'));
    assert!(!Navigator::is_word_delimiter(':', ':'));
}

#[test]
fn navigation_test_test_is_word_delimiter_true() {
    assert!(Navigator::is_word_delimiter('a', ':'));
    assert!(Navigator::is_word_delimiter(':', 'a'));
    assert!(Navigator::is_word_delimiter(' ', 'a'));
    assert!(Navigator::is_word_delimiter('"', 'a'));
    assert!(Navigator::is_word_delimiter('a', '"'));
}

#[test]
fn navigation_test_test_find_index_of_next_word() {
    let test_cases: Vec<(usize, usize)> = vec![
        (0, 6),
        (6, 21),
        (21, 23),
        (23, 28),
        (58, 58), // EOL
    ];
    for (start_index, expected_next_word_start_index) in test_cases {
        assert_eq!(
            Navigator::find_index_of_next_or_previous_word(
                &test_row_word_nav(),
                start_index,
                &Boundary::End
            ),
            expected_next_word_start_index
        )
    }
}

#[test]
fn navigation_test_test_find_index_of_previous_word() {
    let test_cases: Vec<(usize, usize)> = vec![
        (6, 0),
        (21, 6),
        (23, 21),
        (28, 23),
        (1, 0),
        (0, 0),
    ];
    for (start_index, expected_next_word_start_index) in test_cases {
        assert_eq!(
            Navigator::find_index_of_next_or_previous_word(
                &test_row_word_nav(),
                start_index,
                &Boundary::Start
            ),
            expected_next_word_start_index
        )
    }
}
