use bo::Row;

#[test]
fn test_row_render() {
    assert_eq!(Row::from("Test").render(0, 50, 1, 0), "Test");
    assert_eq!(Row::from("Test").render(0, 50, 1, 4), "   1 Test");
    assert_eq!(Row::from("Test").render(0, 50, 11, 4), "  11 Test");
    assert_eq!(Row::from("Test").render(10, 60, 11, 4), "  11 ");
    assert_eq!(Row::from("\u{2764}").render(0, 50, 11, 4), "  11 \u{2764}");
}

#[test]
fn test_row_graphemes_index() {
    let row = Row::from("I \u{2764} unicode!");
    let mut graphemes = row.graphemes().into_iter();
    assert_eq!(graphemes.next().as_deref(), Some("I"));
    assert_eq!(graphemes.next().as_deref(), Some(" "));
    assert_eq!(graphemes.next().as_deref(), Some("\u{2764}"));
    assert_eq!(graphemes.next().as_deref(), Some(" "));
    assert_eq!(graphemes.next().as_deref(), Some("u"));
}

#[test]
fn test_row_len() {
    assert_eq!(Row::from("Hello World!").len(), 12);
    assert_eq!(Row::from("\u{2764}\u{2764}\u{2764}!").len(), 4); // 3 unicode hearts
    assert_eq!(Row::from("").len(), 0);
}

#[test]
fn test_row_is_empty() {
    assert!(Row::from("").is_empty());
}

#[test]
fn test_row_index() {
    assert_eq!(Row::from("I \u{2764} unicode!").nth_grapheme(2), "\u{2764}")
}

#[test]
fn test_row_num_words() {
    assert_eq!(Row::from("I l\u{f8}ve unicode!").num_words(), 3);
    assert_eq!(Row::from("I \u{9ec} unicode!").num_words(), 3);

    // a heart is not alphabetic, so it does not count as a word
    assert_eq!(Row::from("I \u{2764} unicode!").num_words(), 2);
    assert_eq!(Row::from("I \u{2764}\u{2764} unicode!").num_words(), 2);
}

#[test]
fn test_row_contains() {
    assert!(Row::from("I \u{2764} unicode!").contains("\u{2764}"));

    // the match is done on the unicode char and not the raw text
    assert!(!Row::from("I \u{2764} unicode!").contains("2764"));
    assert!(!Row::from("Hello").contains("Plop"));
    assert!(Row::from("Hello").contains("lo"));
    assert!(!Row::from("Hello").contains("LO"));
}

#[test]
fn test_row_find() {
    assert_eq!(Row::from("Hello world!").find("world"), Some(6));
    assert_eq!(Row::from("Hello world!").find("\u{2764}"), None);
    assert_eq!(Row::from("Hello \u{2764} world!").find("\u{2764}"), Some(6));
}

#[test]
fn test_row_is_whitespace() {
    assert!(Row::from(" ").is_whitespace());
    assert!(Row::from("\t").is_whitespace());
    assert!(Row::from("\t ").is_whitespace());
    assert!(!Row::from("a").is_whitespace());
    assert!(!Row::from("aa").is_whitespace());
    assert!(!Row::from(" \u{2764}").is_whitespace());
}

#[test]
fn test_row_string_chars() {
    assert_eq!(
        Row::from(" \u{2764}").string.chars().collect::<Vec<char>>(),
        [' ', '\u{2764}']
    );
}

#[test]
fn test_row_insert() {
    let mut row = Row::from("Hell");
    row.insert(4, 'o');
    assert_eq!(row.string, "Hello");
    row.insert(8, 'o');
    assert_eq!(row.string, "Helloo");
    row.insert(0, '.');
    assert_eq!(row.string, ".Helloo");
}

#[test]
fn test_row_delete() {
    let mut row = Row::from("Hello!");
    row.delete(8); // outside the string's boundaries
    assert_eq!(row.string, "Hello!");
    row.delete(5);
    assert_eq!(row.string, "Hello");
    row.delete(2);
    assert_eq!(row.string, "Helo");
}

#[test]
fn test_row_empty_is_whitespace() {
    assert!(Row::from("").is_whitespace());
    assert!(Row::default().is_empty());
}

#[test]
fn test_row_chars_method() {
    assert_eq!(Row::from("a\u{2764}").chars().collect::<Vec<char>>(), ['a', '\u{2764}']);
}

#[test]
fn test_row_nth_out_of_range() {
    let row = Row::from("ab");
    assert_eq!(row.nth_grapheme(2), "");
    assert_eq!(row.nth_char(2), '\0');
    assert_eq!(row.nth_char(1), 'b');
}

#[test]
fn test_row_grapheme_is_one_position() {
    // 'e' followed by a combining acute accent is one cluster of two chars
    let mut row = Row::from("ae\u{301}b");
    assert_eq!(row.len(), 3);
    assert_eq!(row.nth_grapheme(1), "e\u{301}");
    row.insert(2, 'X');
    assert_eq!(row.string, "ae\u{301}Xb");
    row.delete(1);
    assert_eq!(row.string, "aXb");
}

#[test]
fn test_row_insert_str() {
    let mut row = Row::from("Hd");
    row.insert_str(1, "ello worl");
    assert_eq!(row.string, "Hello world");
    row.insert_str(40, "!");
    assert_eq!(row.string, "Hello world!");
}

#[test]
fn test_row_split_and_append() {
    let mut row = Row::from("Hello world!");
    let mut rest = row.split(5);
    assert_eq!(row.string, "Hello");
    assert_eq!(rest.string, " world!");
    let empty = rest.split(20);
    assert_eq!(rest.string, " world!");
    assert_eq!(empty.string, "");
    row.append(&rest);
    assert_eq!(row.string, "Hello world!");
}

#[test]
fn test_row_insert_then_delete_restores() {
    for index in 0..=5 {
        let mut row = Row::from("Hello");
        row.insert(index, 'x');
        row.delete(index);
        assert_eq!(row.string, "Hello");
    }
}

#[test]
fn test_row_insert_then_delete_behind_the_end_keeps_the_char() {
    let mut row = Row::from("Hell");
    row.insert(8, 'o');
    row.delete(8);
    assert_eq!(row.string, "Hello");
}

#[test]
fn test_row_trim_end_inplace() {
    let mut row = Row::from("  a b \t ");
    row.trim_end_inplace();
    assert_eq!(row.string, "  a b");
    let mut blank = Row::from(" \t");
    blank.trim_end_inplace();
    assert_eq!(blank.string, "");
}

#[test]
fn test_row_as_bytes() {
    assert_eq!(Row::from("a\u{2764}").as_bytes(), [0x61, 0xE2, 0x9D, 0xA4]);
}

#[test]
fn test_row_render_clips_to_clusters() {
    assert_eq!(Row::from("Hello").render(1, 3, 1, 0), "el");
    assert_eq!(Row::from("Hello").render(3, 1, 1, 0), "");
    assert_eq!(Row::from("Hello").render(0, 5, 12345, 3), "12345 Hello");
}

#[test]
fn test_row_without_text_has_no_cluster() {
    let mut row = Row::from("a");
    assert!(!row.is_empty());
    row.delete(0);
    assert_eq!(row.string, "");
    assert!(row.is_empty());
    assert_eq!(row.len(), 0);
    for text in ["", "a", "e\u{301}", "\u{2764}\u{2764}", "\r\n"] {
        let row = Row::from(text);
        assert!(row.len() <= text.chars().count());
        assert!(row.graphemes().iter().all(|cluster| !cluster.is_empty()));
        assert_eq!(row.graphemes().concat(), text);
    }
}
