use ted::buffer::{Bound, Buffer, Format, Location};
use ted::event::DP;
use ted::Error;

fn buffer(text: &str, cursor: usize) -> Buffer {
    let mut buf = Buffer::from_text(text, Location::default(), 1);
    buf.set_cursor(cursor);
    buf
}

#[test]
fn test_from_reader() {
    let loc = Location::Disk { path_file: "/tmp/a.txt".to_string() };
    let buf = Buffer::from_reader("hello\nworld".as_bytes(), loc.clone(), 7).unwrap();
    assert_eq!(buf.to_string(), "hello\nworld");
    assert_eq!(buf.to_char_cursor(), 0);
    assert_eq!(buf.to_mode(), "normal");
    assert_eq!(buf.to_num(), 7);
    assert_eq!(buf.to_id(), "/tmp/a.txt");
    assert_eq!(buf.to_location(), loc);
    assert_eq!(buf.to_format(), Format::Text);
    assert!(!buf.is_modified());
    assert!(!buf.is_read_only());
    assert_eq!(buf.to_insert_repeat(), 0);
    assert!(buf.to_last_inserts().is_empty());
    assert_eq!(buf.as_history().len(), 1);
}

#[test]
fn test_from_reader_keeps_multi_byte_characters() {
    let text = "\u{e4}\u{20ac}\u{1f600}x";
    let buf = Buffer::from_reader(text.as_bytes(), Location::default(), 1).unwrap();
    assert_eq!(buf.to_string(), text);
    assert_eq!(buf.n_chars(), 4);
}

#[test]
fn test_from_reader_fails_on_invalid_utf8() {
    for data in vec![vec![0xff_u8], vec![b'a', 0xc3], vec![0xed, 0xa0, 0x80], vec![0xc0, 0x80]] {
        match Buffer::from_reader(&data, Location::default(), 1) {
            Err(Error::FailBuffer(_)) => (),
            Err(err) => panic!("unexpected {:?}", err),
            Ok(_) => panic!("unexpected buffer"),
        }
    }
}

#[test]
fn test_empty() {
    let buf = Buffer::empty();
    assert_eq!(buf.to_string(), "");
    assert_eq!(buf.n_chars(), 0);
    assert_eq!(buf.n_lines(), 1);
    assert_eq!(buf.to_char_cursor(), 0);
    assert_eq!(buf.to_mode(), "normal");
    assert_eq!(buf.to_id(), "");
    assert!(!buf.is_modified());
}

#[test]
fn test_location_id() {
    let mem = Location::Memory { name: "scratch".to_string() };
    let ted = Location::Ted { name: "status".to_string() };
    assert_eq!(Buffer::from_text("", mem, 1).to_id(), "scratch");
    assert_eq!(Buffer::from_text("", ted, 2).to_id(), "status");
    assert_eq!(Location::default(), Location::Memory { name: String::new() });
}

#[test]
fn test_set_cursor_stays_on_the_text() {
    let mut buf = buffer("abc", 0);
    buf.set_cursor(2);
    assert_eq!(buf.to_char_cursor(), 2);
    buf.set_cursor(3);
    assert_eq!(buf.to_char_cursor(), 3);
    buf.set_cursor(4);
    assert_eq!(buf.to_char_cursor(), 3);
    buf.set_cursor(usize::MAX);
    assert_eq!(buf.to_char_cursor(), 3);
    assert!(!buf.is_modified());
}

#[test]
fn test_set_read_only_and_format() {
    let mut buf = buffer("abc", 0);
    buf.set_read_only(true);
    assert!(buf.is_read_only());
    buf.set_read_only(false);
    assert!(!buf.is_read_only());
    buf.set_format(Format::Code);
    assert_eq!(buf.to_format(), Format::Code);
    assert_eq!(Format::default(), Format::Text);
}

#[test]
fn test_mode_switch() {
    let mut buf = buffer("abc", 1);
    buf.mode_insert();
    assert_eq!(buf.to_mode(), "insert");
    buf.mode_insert();
    assert_eq!(buf.to_mode(), "insert");
    buf.mode_normal();
    assert_eq!(buf.to_mode(), "normal");
    assert_eq!(buf.to_char_cursor(), 1);
    assert_eq!(buf.to_string(), "abc");
}

#[test]
fn test_lines() {
    let buf = buffer("abc def\nghi\n", 0);
    assert_eq!(buf.n_chars(), 12);
    assert_eq!(buf.n_lines(), 3);
    assert_eq!(buf.line_to_char(0), 0);
    assert_eq!(buf.line_to_char(1), 8);
    assert_eq!(buf.line_to_char(2), 12);
    assert_eq!(buf.line_to_char(3), 12);
    assert_eq!(buf.char_to_line(0), 0);
    assert_eq!(buf.char_to_line(7), 0);
    assert_eq!(buf.char_to_line(8), 1);
    assert_eq!(buf.char_to_line(11), 1);
    assert_eq!(buf.char_to_line(12), 2);
    assert_eq!(buf.len_line(0), 8);
    assert_eq!(buf.len_line(1), 4);
    assert_eq!(buf.len_line(2), 0);
    assert_eq!(buf.line(0), "abc def\n");
    assert_eq!(buf.line(1), "ghi\n");
    assert_eq!(buf.line(2), "");
}

#[test]
fn test_only_the_line_feed_breaks_lines() {
    let buf = buffer("a\rb\u{b}c\u{c}d\u{85}e\u{2028}f\u{2029}g\r\nh", 0);
    assert_eq!(buf.n_lines(), 2);
    assert_eq!(buf.line_to_char(1), 15);
    assert_eq!(buf.char_to_line(14), 0);
}

#[test]
fn test_line_start_is_not_behind_the_position() {
    for text in vec!["", "\n", "abc", "abc def\nghi", "a\n\nb\n", "\n\n\n", "\u{e4}\n\u{20ac}x"] {
        let buf = buffer(text, 0);
        for c in 0..=buf.n_chars() {
            let row = buf.char_to_line(c);
            assert!(row < buf.n_lines());
            assert!(buf.line_to_char(row) <= c);
            assert!(c <= buf.line_to_char(row + 1));
        }
    }
}

#[test]
fn test_xy_cursor_and_line_home() {
    let mut buf = buffer("abc def\nghi", 0);
    let c = buf.to_xy_cursor();
    assert_eq!((c.col, c.row), (0, 0));
    buf.set_cursor(7);
    let c = buf.to_xy_cursor();
    assert_eq!((c.col, c.row), (7, 0));
    assert_eq!(buf.to_line_home(), 0);
    buf.set_cursor(10);
    let c = buf.to_xy_cursor();
    assert_eq!((c.col, c.row), (2, 1));
    assert_eq!(buf.to_line_home(), 8);
    assert_eq!(buf.to_home_of(3), 0);
    assert_eq!(buf.to_line_stop(3), 7);
    assert_eq!(buf.to_line_stop(8), 11);
}

#[test]
fn test_bytes_and_characters() {
    let buf = buffer("a\u{e4}\u{20ac}b", 0);
    assert_eq!(buf.char_to_byte(0), 0);
    assert_eq!(buf.char_to_byte(1), 1);
    assert_eq!(buf.char_to_byte(2), 3);
    assert_eq!(buf.char_to_byte(3), 6);
    assert_eq!(buf.char_to_byte(4), 7);
    assert_eq!(buf.byte_to_char(0), 0);
    assert_eq!(buf.byte_to_char(1), 1);
    assert_eq!(buf.byte_to_char(2), 1);
    assert_eq!(buf.byte_to_char(3), 2);
    assert_eq!(buf.byte_to_char(5), 2);
    assert_eq!(buf.byte_to_char(6), 3);
    assert_eq!(buf.byte_to_char(7), 4);
    assert_eq!(buf.byte_to_char(8), 4);
    assert_eq!(buf.byte_to_char(usize::MAX), 4);
}

#[test]
fn test_chars_at() {
    let buf = buffer("abcd", 0);
    assert_eq!(buf.chars_at(1, DP::Right).unwrap(), vec!['b', 'c', 'd']);
    assert_eq!(buf.chars_at(1, DP::Left).unwrap(), vec!['a']);
    assert_eq!(buf.chars_at(3, DP::Left).unwrap(), vec!['c', 'b', 'a']);
    assert_eq!(buf.chars_at(4, DP::Right).unwrap(), Vec::<char>::new());
    assert_eq!(buf.chars_at(9, DP::Left).unwrap(), vec!['d', 'c', 'b', 'a']);
    assert_eq!(buf.chars_at(0, DP::Left).unwrap(), Vec::<char>::new());
    match buf.chars_at(1, DP::Start) {
        Err(Error::Fatal(_)) => (),
        other => panic!("unexpected {:?}", other),
    }
}

#[test]
fn test_lines_at() {
    let buf = buffer("a\nbc\n\nd", 0);
    assert_eq!(buf.lines_at(1, DP::Right).unwrap(), vec!["bc\n", "\n", "d"]);
    assert_eq!(buf.lines_at(0, DP::Right).unwrap(), vec!["a\n", "bc\n", "\n", "d"]);
    assert_eq!(buf.lines_at(3, DP::Left).unwrap(), vec!["\n", "bc\n", "a\n"]);
    assert_eq!(buf.lines_at(9, DP::Left).unwrap(), vec!["d", "\n", "bc\n", "a\n"]);
    assert_eq!(buf.lines_at(4, DP::Right).unwrap(), Vec::<String>::new());
    assert_eq!(buf.lines_at(0, DP::Left).unwrap(), Vec::<String>::new());
    match buf.lines_at(1, DP::TextCol) {
        Err(Error::Fatal(_)) => (),
        other => panic!("unexpected {:?}", other),
    }
}

#[test]
fn test_insert_char() {
    let mut buf = buffer("abc", 1);
    buf.cmd_insert_char('X');
    assert_eq!(buf.to_string(), "aXbc");
    assert_eq!(buf.to_char_cursor(), 2);
    assert!(buf.is_modified());
    buf.set_cursor(4);
    buf.cmd_insert_char('\n');
    assert_eq!(buf.to_string(), "aXbc\n");
    assert_eq!(buf.to_char_cursor(), 5);
    assert_eq!(buf.n_lines(), 2);
}

#[test]
fn test_insert_text() {
    let mut buf = buffer("abc", 3);
    buf.cmd_insert(1, "XY");
    assert_eq!(buf.to_string(), "aXYbc");
    assert_eq!(buf.to_char_cursor(), 3);
    buf.cmd_insert(0, "");
    assert_eq!(buf.to_string(), "aXYbc");
    buf.cmd_insert(100, "\u{e4}");
    assert_eq!(buf.to_string(), "aXYbc\u{e4}");
    assert!(buf.is_modified());
}

#[test]
fn test_backspace() {
    let mut buf = buffer("abcd", 3);
    buf.cmd_backspace(1);
    assert_eq!(buf.to_string(), "abd");
    assert_eq!(buf.to_char_cursor(), 2);
    buf.cmd_backspace(5);
    assert_eq!(buf.to_string(), "d");
    assert_eq!(buf.to_char_cursor(), 0);
    buf.cmd_backspace(1);
    assert_eq!(buf.to_string(), "d");
    assert_eq!(buf.to_char_cursor(), 0);

    let mut buf = buffer("abcd", 2);
    buf.cmd_backspace(0);
    assert_eq!(buf.to_string(), "abcd");
    assert_eq!(buf.to_char_cursor(), 2);
    assert!(buf.is_modified());
}

#[test]
fn test_remove_at() {
    let with = |a: Bound, z: Bound, cursor: usize| {
        let mut buf = buffer("abcdef", cursor);
        buf.cmd_remove_at(a, z);
        assert!(buf.is_modified());
        (buf.to_string(), buf.to_char_cursor())
    };
    assert_eq!(with(Bound::Included(1), Bound::Included(2), 0), ("adef".to_string(), 0));
    assert_eq!(with(Bound::Included(1), Bound::Excluded(2), 5), ("acdef".to_string(), 4));
    assert_eq!(with(Bound::Excluded(1), Bound::Included(3), 3), ("abef".to_string(), 2));
    assert_eq!(with(Bound::Unbounded, Bound::Excluded(2), 6), ("cdef".to_string(), 4));
    assert_eq!(with(Bound::Included(4), Bound::Unbounded, 6), ("abcd".to_string(), 4));
    assert_eq!(with(Bound::Unbounded, Bound::Unbounded, 3), ("".to_string(), 0));
    assert_eq!(with(Bound::Included(9), Bound::Included(9), 1), ("abcde".to_string(), 1));
    assert_eq!(with(Bound::Included(3), Bound::Included(1), 1), ("abcdef".to_string(), 1));
    assert_eq!(with(Bound::Excluded(9), Bound::Unbounded, 1), ("abcdef".to_string(), 1));
    assert_eq!(with(Bound::Included(2), Bound::Included(usize::MAX), 1), ("ab".to_string(), 1));
    // a range that starts behind the text starts on its last character.
    assert_eq!(with(Bound::Included(6), Bound::Excluded(6), 6), ("abcde".to_string(), 5));
}

#[test]
fn test_insert_then_remove_gives_the_text_back() {
    for text in vec!["", "abc", "abc def\nghi", "\u{e4}\u{20ac}"] {
        for part in vec!["", "X", "two\nlines", "\u{1f600}!"] {
            let len = text.chars().count();
            for at in 0..=len {
                let mut buf = buffer(text, 0);
                buf.cmd_insert(at, part);
                let n = part.chars().count();
                assert_eq!(buf.n_chars(), len + n);
                if n > 0 {
                    buf.cmd_remove_at(Bound::Included(at), Bound::Excluded(at + n));
                }
                assert_eq!(buf.to_string(), text);
            }
        }
    }
}

#[test]
fn test_modified_stays_modified() {
    let mut buf = buffer("abc", 1);
    assert!(!buf.is_modified());
    buf.cmd_backspace(1);
    assert!(buf.is_modified());
    buf.cmd_insert_char('a');
    assert_eq!(buf.to_string(), "abc");
    assert!(buf.is_modified());
    buf.set_cursor(0);
    buf.mode_insert();
    buf.mode_normal();
    buf.set_read_only(true);
    assert!(buf.is_modified());
}
