use bo::utils::{decimal_string, expand_tilde, zfill};
use bo::{AnsiPosition, Config, ConsoleSize, LineNumber, Mode, Position, RowIndex};

#[test]
fn test_config_toggle() {
    let mut conf = Config::default();
    assert!(!conf.display_stats);
    conf.display_stats = Config::toggle(conf.display_stats);
    assert!(conf.display_stats);
}

#[test]
fn test_mode_display() {
    assert_eq!(Mode::Normal.to_string(), "NORMAL");
    assert_eq!(Mode::Insert.to_string(), "INSERT");
}

#[test]
fn test_position_to_ansi_position_conversion() {
    let pos = Position { x: 10, y: 5 };
    assert_eq!(AnsiPosition::from(pos), AnsiPosition { x: 11, y: 6 });
}

#[test]
fn test_position_from_ansiposition() {
    let ap = AnsiPosition { x: 10, y: 8 }; // 1-indexed
    let p = Position::from(ap); // 0-indexed
    assert_eq!(p.x, 9);
    assert_eq!(p.y, 7);
}

#[test]
fn test_zfill() {
    assert_eq!(zfill("7", "0", 3), "007");
    assert_eq!(zfill("7", "0", 0), "");
    assert_eq!(zfill("7", "1", 1), "7");
}

#[test]
fn test_zfill_longer_than_size() {
    assert_eq!(zfill("12345", " ", 3), "12345");
    assert_eq!(zfill("7", "ab", 3), "abab7");
}

#[test]
fn test_decimal_string() {
    assert_eq!(decimal_string(0), "0");
    assert_eq!(decimal_string(7), "7");
    assert_eq!(decimal_string(10), "10");
    assert_eq!(decimal_string(12345), "12345");
    assert_eq!(decimal_string(usize::MAX), usize::MAX.to_string());
}

#[test]
fn test_position_saturates() {
    assert_eq!(
        Position::from(AnsiPosition { x: 0, y: 1 }),
        Position { x: 0, y: 0 }
    );
    assert_eq!(
        AnsiPosition::from(Position { x: 65534, y: 65536 }),
        AnsiPosition { x: 65535, y: 1 }
    );
    let mut p = Position { x: 4, y: 2 };
    p.reset_x();
    assert_eq!(p, Position { x: 0, y: 2 });
    assert_eq!(Position::top_left(), Position { x: 0, y: 0 });
    assert_eq!(Position::default(), Position { x: 0, y: 0 });
}

#[test]
fn test_console_size() {
    assert_eq!(
        ConsoleSize::from((120, 80)),
        ConsoleSize {
            height: 80,
            width: 120
        }
    );
    assert_eq!(
        ConsoleSize::default().restrict_to_text_area(),
        ConsoleSize {
            height: 78,
            width: 120
        }
    );
    assert_eq!(
        ConsoleSize {
            height: 1,
            width: 3
        }
        .restrict_to_text_area(),
        ConsoleSize {
            height: 0,
            width: 3
        }
    );
}

#[test]
fn test_indexing_round_trip() {
    for value in [0, 1, 2, 77, usize::MAX - 1] {
        let r = RowIndex::new(value);
        assert_eq!(RowIndex::from(LineNumber::from(r)), r);
    }
    assert_eq!(
        RowIndex::from(LineNumber::from(RowIndex::new(usize::MAX))),
        RowIndex::new(usize::MAX - 1)
    );
    assert_eq!(LineNumber::from(RowIndex::new(0)), LineNumber::new(1));
    assert_eq!(RowIndex::from(LineNumber::new(0)), RowIndex::new(0));
}

#[test]
fn test_indexing_saturates() {
    assert_eq!(RowIndex::new(0).previous(), RowIndex::new(0));
    assert_eq!(RowIndex::new(3).previous(), RowIndex::new(2));
    assert_eq!(RowIndex::new(usize::MAX).next(), RowIndex::new(usize::MAX));
    assert_eq!(LineNumber::new(1).previous(), LineNumber::new(0));
    assert_eq!(LineNumber::new(0).previous(), LineNumber::new(0));
    assert_eq!(LineNumber::new(5).sub(7), LineNumber::new(0));
    assert_eq!(LineNumber::new(5).sub(2), LineNumber::new(3));
    assert_eq!(LineNumber::new(5).add(2), LineNumber::new(7));
    assert_eq!(
        LineNumber::new(usize::MAX).add(2),
        LineNumber::new(usize::MAX)
    );
    assert_eq!(LineNumber::new(5).next(), LineNumber::new(6));
}

#[test]
fn test_help_section_format() {
    let help_section = bo::Section {
        title: String::from("Test section title"),
        entries: vec![("x", "x doc"), ("yy", "yy doc")],
    };
    let expected_output = "\u{1b}[1mTest section title\u{1b}[m\n  x  => x doc\n  yy => yy doc";
    assert_eq!(help_section.format(), expected_output);
}

#[test]
fn test_help_format() {
    let help_section_1 = bo::Section {
        title: String::from("Test section title"),
        entries: vec![("yy", "yy doc"), ("x", "x doc")],
    };
    let help_section_2 = bo::Section {
        title: String::from("Other test section title"),
        entries: vec![("blah", "blah doc"), ("derp", "derp doc")],
    };
    let help = bo::Help {
        sections: vec![help_section_1, help_section_2],
    };
    let expected_output = "\u{1b}[1mTest section title\u{1b}[m\n  x  => x doc\n  yy => yy doc\n\n\u{1b}[1mOther test section title\u{1b}[m\n  blah => blah doc\n  derp => derp doc";
    assert_eq!(help.format(), expected_output);
}

#[test]
fn test_help_new() {
    let help = bo::Help::new();
    assert_eq!(help.sections.len(), 3);
    assert_eq!(help.sections[0].entries.len(), 29);
    assert_eq!(help.sections[0].entries[0].0, "j");
    assert_eq!(
        help.sections[0].entries[28],
        ("u", "undo last operation")
    );
    assert_eq!(help.sections[1].entries.len(), 8);
    assert_eq!(help.sections[1].entries[4], ("q", "quit bo"));
    assert_eq!(
        help.sections[2].entries,
        [("Esc", "go back to normal mode")]
    );
    for section in &help.sections {
        let mut keys: Vec<&str> = section.entries.iter().map(|entry| entry.0).collect();
        keys.sort();
        keys.dedup();
        assert_eq!(keys.len(), section.entries.len());
    }
    let text = help.format();
    assert!(text.starts_with("\u{1b}[1mNormal commands\u{1b}[m\n  $  => go to end of line\n  /  => open search prompt\n"));
    assert!(text.contains("\n\n\u{1b}[1mInsert commands\u{1b}[m\n  Esc => go back to normal mode"));
    assert!(text.contains("\n  open/o <filename> => open a file\n  q                 => quit bo\n"));
}

#[test]
fn test_expand_tilde() {
    assert_eq!(expand_tilde("~/code", "/home/me"), "/home/me/code");
    assert_eq!(expand_tilde("/code/~", "/home/me"), "/code/~");
    assert_eq!(expand_tilde("~/a~b", "/h"), "/h/a/hb");
    assert_eq!(expand_tilde("", "/h"), "");
}

#[test]
fn test_red() {
    assert_eq!(bo::utils::red("x"), "\u{1b}[38;5;1mx\u{1b}[39m");
}

#[test]
fn test_cursor_cell() {
    let cell = bo::terminal::cursor_cell_of(Position { x: 10, y: 5 }, 0, 120, 80);
    assert_eq!(cell, AnsiPosition { x: 11, y: 6 });
    // behind line numbers four wide, and the space after them
    let cell = bo::terminal::cursor_cell_of(Position { x: 10, y: 5 }, 4, 120, 80);
    assert_eq!(cell, AnsiPosition { x: 16, y: 6 });
    // held within the terminal
    let cell = bo::terminal::cursor_cell_of(Position { x: 200, y: 100 }, 4, 120, 80);
    assert_eq!(cell, AnsiPosition { x: 120, y: 80 });
}

#[test]
fn test_cursor_index_from_mouse_event() {
    assert_eq!(
        bo::terminal::get_cursor_index_from_mouse_event(1, 1, 0),
        Position { x: 0, y: 0 }
    );
    assert_eq!(
        bo::terminal::get_cursor_index_from_mouse_event(3, 9, 4),
        Position { x: 0, y: 8 }
    );
    assert_eq!(
        bo::terminal::get_cursor_index_from_mouse_event(7, 9, 4),
        Position { x: 1, y: 8 }
    );
}

#[test]
fn test_is_ascii_punctuation() {
    for code in 0..=0x2FFu32 {
        let c = char::from_u32(code).unwrap();
        assert_eq!(bo::text::is_ascii_punctuation(c), c.is_ascii_punctuation());
    }
}

#[test]
fn test_text_find_and_trim() {
    assert_eq!(bo::text::find("a\u{2764}bc", "bc"), Some(4));
    assert_eq!(bo::text::find("abc", ""), Some(0));
    assert_eq!(bo::text::find("", "a"), None);
    assert_eq!(bo::text::find("aab", "ab"), Some(1));
    assert_eq!(bo::text::trim_end(" a \u{a0}\t"), " a");
    assert_eq!(bo::text::trim(" \n a b \t"), "a b");
    assert_eq!(bo::text::trim("   "), "");
    for text in ["", " ", "x", " x", "x ", "\u{3000}x y\u{2003}", "\t\n"] {
        assert_eq!(bo::text::trim(text), text.trim());
        assert_eq!(bo::text::trim_end(text), text.trim_end());
        for pattern in ["", " ", "x", "x y", "y\u{2003}"] {
            assert_eq!(bo::text::find(text, pattern), text.find(pattern));
        }
    }
}
