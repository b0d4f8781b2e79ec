use bo::{Document, LineNumber, Row, RowIndex};
use std::path::PathBuf;

#[test]
fn test_document_get_row() {
    let doc = Document::new(
        vec![Row::from("Hello"), Row::from("world!")],
        PathBuf::from("test.rs"),
    );
    assert_eq!(
        doc.get_row(RowIndex::new(0)).unwrap().string,
        "Hello".to_string()
    );
    assert_eq!(
        doc.get_row(RowIndex::new(1)).unwrap().string,
        "world!".to_string()
    );
    assert!(doc.get_row(RowIndex::new(2)).is_none());
}

#[test]
fn test_document_is_empty() {
    // a document always has a row: made of none, it gets an empty one
    assert!(!Document::new(vec![], PathBuf::from("test.rs")).is_empty());
    assert!(!Document::new(vec![Row::from("Hello")], PathBuf::from("test.rs")).is_empty());
}

#[test]
fn test_document_num_rows() {
    assert_eq!(
        Document::new(vec![], PathBuf::from("test.rs")).num_rows(),
        1
    );
    assert_eq!(
        Document::new(vec![Row::from("")], PathBuf::from("test.rs")).num_rows(),
        1
    );
}

#[test]
fn test_document_num_words() {
    assert_eq!(
        Document::new(
            vec![Row::from("Hello world"), Row::from("dear reader!")],
            PathBuf::from("test.rs")
        )
        .num_words(),
        4
    );
}

#[test]
fn test_document_row_for_line_number() {
    let row1 = Row::from("Hello world");
    let row2 = Row::from("dear reader!");
    assert_eq!(
        Document::new(vec![row1, row2], PathBuf::from("test.rs"))
            .row_for_line_number(LineNumber::new(1))
            .unwrap()
            .string,
        "Hello world"
    );
    assert!(Document::default()
        .row_for_line_number(LineNumber::new(1))
        .is_some());
    assert!(Document::default()
        .row_for_line_number(LineNumber::new(2))
        .is_none());
}

#[test]
fn test_document_last_line_number() {
    assert_eq!(
        Document::new(
            vec![Row::from("Hello world"), Row::from("dear reader!")],
            PathBuf::from("test.rs")
        )
        .last_line_number(),
        LineNumber::new(2)
    );
}

#[test]
fn test_document_insert() {
    let mut doc = Document::new(
        vec![Row::from("Hello"), Row::from("world!")],
        PathBuf::from("test.rs"),
    );
    doc.insert(' ', 6, RowIndex::new(1));
    assert_eq!(doc.rows.get(0).unwrap().string, "Hello");
    assert_eq!(doc.rows.get(1).unwrap().string, "world! ");
    doc.insert('W', 0, RowIndex::new(2));
    assert_eq!(doc.rows.get(2).unwrap().string, "W");
}

#[test]
fn test_document_insert_newline_at_the_end() {
    let mut doc = Document::new(
        vec![Row::from("Hello"), Row::from("world!")],
        PathBuf::from("test.rs"),
    );
    assert_eq!(doc.num_rows(), 2);
    doc.insert_newline(6, RowIndex::new(1));
    assert_eq!(doc.num_rows(), 3);
}

#[test]
fn test_document_delete() {
    let mut doc = Document::new(
        vec![Row::from("Hello"), Row::from("world!")],
        PathBuf::from("test.rs"),
    );
    doc.delete(5, 6, RowIndex::new(1));
    assert_eq!(doc.rows.get(0).unwrap().string, "Hello");
    assert_eq!(doc.rows.get(1).unwrap().string, "world");
    doc.delete(2, 6, RowIndex::new(1));
    assert_eq!(doc.rows.get(1).unwrap().string, "wold");
}

#[test]
fn test_document_delete_at_start_of_line() {
    let mut doc = Document::new(
        vec![Row::from("Hello"), Row::from("world!")],
        PathBuf::from("test.rs"),
    );
    doc.delete(0, 0, RowIndex::new(1));
    assert_eq!(doc.rows.get(0).unwrap().string, "Helloworld!");
    assert!(doc.rows.get(1).is_none());
}

#[test]
fn test_document_delete_all_rows() {
    let mut doc = Document::new(
        vec![Row::from("Hello"), Row::from("world!")],
        PathBuf::from("test.rs"),
    );
    doc.delete_row(RowIndex::new(1));
    doc.delete_row(RowIndex::new(0));
    assert_eq!(doc.get_row(RowIndex::new(0)).unwrap().string, "");
}

#[test]
fn test_insert_newline() {
    let mut doc = Document::new(
        vec![Row::from("Hello"), Row::from("world!")],
        PathBuf::from("test.rs"),
    );
    doc.insert_newline(0, RowIndex::new(0));
    assert_eq!(doc.rows.get(0).unwrap().string, "");
    assert_eq!(doc.rows.get(1).unwrap().string, "Hello");
    assert_eq!(doc.rows.get(2).unwrap().string, "world!");

    doc.insert_newline(0, RowIndex::new(2));
    assert_eq!(doc.rows.get(0).unwrap().string, "");
    assert_eq!(doc.rows.get(1).unwrap().string, "Hello");
    assert_eq!(doc.rows.get(2).unwrap().string, "");
    assert_eq!(doc.rows.get(3).unwrap().string, "world!");
}

#[test]
fn test_insert_newline_row_split() {
    let mut doc = Document::new(vec![Row::from("Hello world!")], PathBuf::from("test.rs"));
    doc.insert_newline(5, RowIndex::new(0));
    assert_eq!(doc.rows.get(0).unwrap().string, "Hello");
    assert_eq!(doc.rows.get(1).unwrap().string, " world!");
}

#[test]
fn test_document_swapfile() {
    assert_eq!(
        Document::swap_filename("test.txt"),
        Some(String::from(".test.txt.swp"))
    );
    assert_eq!(
        Document::swap_filename("/home/br/code/bo/test.txt"),
        Some(String::from("/home/br/code/bo/.test.txt.swp"))
    );
}

#[test]
fn test_document_swapfile_without_a_file_name() {
    assert_eq!(Document::swap_filename(""), None);
    assert_eq!(Document::swap_filename("/"), None);
    assert_eq!(Document::swap_filename("//"), None);
    assert_eq!(Document::swap_filename("/."), None);
    assert_eq!(Document::swap_filename("./"), None);
    assert_eq!(Document::swap_filename("a/../"), None);
    assert_eq!(Document::swap_filename("a/.."), None);
    assert_eq!(Document::swap_filename("."), None);
    assert_eq!(
        Document::swap_filename("a/..b"),
        Some(String::from("a/...b.swp"))
    );
}

#[test]
fn test_document_swapfile_skips_separators_at_the_end() {
    for path in ["a/b/", "a/b//", "a/b/.", "a/b/./", "a/b"] {
        assert_eq!(
            Document::swap_filename(path),
            Some(String::from("a/.b.swp"))
        );
    }
    assert_eq!(
        Document::swap_filename("/b/"),
        Some(String::from("/.b.swp"))
    );
    assert_eq!(
        Document::swap_filename("b/."),
        Some(String::from(".b.swp"))
    );
    // the same file as the standard library finds from the parts of the path
    for path in ["a/b/", "a/b/.", "x.txt", "/home/me/x.txt/", "a//b", "a/./b/"] {
        let given = std::path::Path::new(path);
        let name = format!(".{}.swp", given.file_name().unwrap().to_str().unwrap());
        let expected = given.parent().unwrap().join(name);
        assert_eq!(
            PathBuf::from(Document::swap_filename(path).unwrap()),
            expected
        );
    }
    for path in ["", "/", ".", "..", "a/..", "./", "/."] {
        let given = std::path::Path::new(path);
        assert!(given.parent().is_none() || given.file_name().is_none());
        assert_eq!(Document::swap_filename(path), None);
    }
}

#[test]
fn test_document_from_text() {
    let doc = Document::from_text("Hello\r\nHello!\n\nHello!!", PathBuf::from("t"));
    assert_eq!(lines(&doc), ["Hello", "Hello!", "", "Hello!!"]);
    assert_eq!(doc.filename, Some(PathBuf::from("t")));
    let doc = Document::from_text("Hello\nHello!\nHello!!\n", PathBuf::from("t"));
    assert_eq!(lines(&doc), ["Hello", "Hello!", "Hello!!"]);
    assert_eq!(lines(&Document::from_text("", PathBuf::from("t"))), [""]);
    assert_eq!(lines(&Document::from_text("\n", PathBuf::from("t"))), [""]);
    assert_eq!(lines(&Document::from_text("a\r", PathBuf::from("t"))), ["a\r"]);
    let text = "a\r\n\r\nb\n\n";
    let expected: Vec<String> = text.lines().map(String::from).collect();
    assert_eq!(lines(&Document::from_text(text, PathBuf::from("t"))), expected);
}

#[test]
fn test_document_to_text() {
    assert_eq!(three_rows().to_text(), "Hello world\nworld!\nHello world!!\n");
    assert_eq!(Document::default().to_text(), "\n");
    assert_eq!(Document::new(vec![], PathBuf::from("t")).to_text(), "\n");
    let none = Document {
        rows: vec![],
        filename: None,
    };
    assert!(none.is_empty());
    assert_eq!(none.to_text(), "");
    let text = "one\ntwo\n";
    assert_eq!(Document::from_text(text, PathBuf::from("t")).to_text(), text);
}

#[test]
fn test_document_iter() {
    let doc = three_rows();
    let lengths: Vec<usize> = doc.iter().map(Row::len).collect();
    assert_eq!(lengths, [11, 6, 13]);
}

#[test]
fn test_document_trim_trailing_spaces() {
    let mut doc = Document::new(
        vec![Row::from("Hello world!    ")],
        PathBuf::from("test.rs"),
    );
    doc.trim_trailing_spaces();
    assert_eq!(doc.rows.get(0).unwrap().string, "Hello world!");
}

#[test]
fn test_document_join_row_with_previous_one() {
    let mut doc = Document::new(
        vec![Row::from("Hello"), Row::from("world!")],
        PathBuf::from("test.rs"),
    );
    doc.join_row_with_previous_one(4, RowIndex::new(1), Some(' '));
    assert_eq!(doc.rows.get(0).unwrap().string, "Hello world!");
    assert_eq!(doc.num_rows(), 1);
}

fn lines(doc: &Document) -> Vec<String> {
    doc.rows.iter().map(|row| row.string.clone()).collect()
}

fn three_rows() -> Document {
    Document::new(
        vec![
            Row::from("Hello world"),
            Row::from("world!"),
            Row::from("Hello world!!"),
        ],
        PathBuf::from("test"),
    )
}

#[test]
fn test_document_insert_leaves_other_rows() {
    let mut doc = three_rows();
    doc.insert(' ', 6, RowIndex::new(1));
    assert_eq!(lines(&doc), ["Hello world", "world! ", "Hello world!!"]);
}

#[test]
fn test_document_never_loses_its_last_row() {
    let mut doc = Document::default();
    assert_eq!(doc.num_rows(), 1);
    doc.insert('a', 0, RowIndex::new(0));
    doc.delete_row(RowIndex::new(0));
    assert_eq!(lines(&doc), [""]);
    doc.delete_row(RowIndex::new(1));
    assert_eq!(doc.num_rows(), 1);
    doc.delete(0, 0, RowIndex::new(0));
    assert_eq!(doc.num_rows(), 1);
    doc.join_row_with_previous_one(0, RowIndex::new(0), None);
    assert_eq!(doc.num_rows(), 1);
    doc.insert_newline(0, RowIndex::new(5));
    assert_eq!(doc.num_rows(), 1);
    doc.delete_string("\n\nab\n", 0, RowIndex::new(0));
    assert_eq!(doc.num_rows(), 1);
}

#[test]
fn test_document_new_of_no_rows() {
    let doc = Document::new(vec![], PathBuf::from("a.txt"));
    assert_eq!(lines(&doc), [""]);
    assert_eq!(doc.filename, Some(PathBuf::from("a.txt")));
    let doc = Document::new(vec![Row::from("a"), Row::from("")], PathBuf::from("a.txt"));
    assert_eq!(lines(&doc), ["a", ""]);
}

#[test]
fn test_document_new_empty() {
    let doc = Document::new_empty(PathBuf::from("a.txt"));
    assert_eq!(lines(&doc), [""]);
    assert_eq!(doc.filename, Some(PathBuf::from("a.txt")));
    assert!(Document::default().filename.is_none());
}

#[test]
fn test_document_delete_row_out_of_range() {
    let mut doc = three_rows();
    doc.delete_row(RowIndex::new(3));
    doc.delete_row(RowIndex::new(17));
    assert_eq!(doc.num_rows(), 3);
    doc.delete_row(RowIndex::new(1));
    assert_eq!(lines(&doc), ["Hello world", "Hello world!!"]);
}

#[test]
fn test_document_out_of_range_edits_do_nothing() {
    let mut doc = three_rows();
    doc.insert_newline(0, RowIndex::new(3));
    doc.delete(0, 0, RowIndex::new(3));
    doc.join_row_with_previous_one(0, RowIndex::new(0), Some(' '));
    doc.join_row_with_previous_one(0, RowIndex::new(3), Some(' '));
    assert_eq!(lines(&doc), ["Hello world", "world!", "Hello world!!"]);
}

#[test]
fn test_document_remove_row() {
    let mut doc = three_rows();
    let row = doc.remove_row(RowIndex::new(1));
    assert_eq!(row.string, "world!");
    assert_eq!(lines(&doc), ["Hello world", "Hello world!!"]);
}

#[test]
fn test_document_row_lengths() {
    assert_eq!(three_rows().row_lengths(), [11, 6, 13]);
    let doc = Document::new(vec![Row::from("\u{2764}e\u{301}")], PathBuf::from("t"));
    assert_eq!(doc.row_lengths(), [2]);
}

#[test]
fn test_document_insert_string() {
    let mut doc = Document::new(vec![Row::from("Hd")], PathBuf::from("t"));
    doc.insert_string("ello worl", 1, RowIndex::new(0));
    assert_eq!(lines(&doc), ["Hello world"]);
    let mut doc = Document::default();
    doc.insert_string("ab\ncd\n", 0, RowIndex::new(0));
    assert_eq!(lines(&doc), ["ab", "cd", ""]);
}

#[test]
fn test_document_delete_string() {
    let mut doc = Document::new(vec![Row::from("rust")], PathBuf::from("t"));
    doc.delete_string("tsur", 3, RowIndex::new(0));
    assert_eq!(lines(&doc), [""]);
    let mut doc = Document::new(vec![Row::from("ab"), Row::from("cd")], PathBuf::from("t"));
    doc.delete_string("dc\nba", 1, RowIndex::new(1));
    assert_eq!(lines(&doc), [""]);
}

#[test]
fn test_document_hashed() {
    assert_eq!(three_rows().hashed(), three_rows().hashed());
    let mut doc = three_rows();
    doc.insert('x', 0, RowIndex::new(0));
    assert_ne!(doc.hashed(), three_rows().hashed());
    // the order of the rows counts
    let ab = Document::new(vec![Row::from("a"), Row::from("b")], PathBuf::from("t"));
    let ba = Document::new(vec![Row::from("b"), Row::from("a")], PathBuf::from("t"));
    assert_ne!(ab.hashed(), ba.hashed());
    // and so does where one row ends and the next begins
    let a_b = Document::new(vec![Row::from("ab"), Row::from("")], PathBuf::from("t"));
    let ab_ = Document::new(vec![Row::from("a"), Row::from("b")], PathBuf::from("t"));
    assert_ne!(a_b.hashed(), ab_.hashed());
}

#[test]
fn test_document_hashed_value() {
    let doc = Document::new(
        vec![
            Row::from("Hello world"),
            Row::from("Hello world!"),
            Row::from("Hello world!!"),
        ],
        PathBuf::from("test"),
    );
    assert_eq!(doc.hashed(), 6894519061004685273);
}
