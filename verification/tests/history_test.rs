use ted::buffer::{Buffer, Location};
use ted::history::History;

#[test]
fn test_start() {
    let h = History::start("abc");
    assert_eq!(h.len(), 1);
    assert_eq!(h.head(), 0);
    assert_eq!(h.text_of(0), Some("abc".to_string()));
    assert_eq!(h.text_of(1), None);
    assert_eq!(h.cursor_of(0), Some(0));
    assert_eq!(h.cursor_of(1), None);
    assert_eq!(h.parent_of(0), None);
    assert_eq!(h.children_of(0), Vec::<usize>::new());
    assert!(!h.is_modified());
    assert_eq!(h.n_chars(), 3);
    assert_eq!(h.char_at(1), 'b');
    assert_eq!(h.to_char_cursor(), 0);
}

#[test]
fn test_advance_links_the_old_head() {
    let mut h = History::start("abc");
    h.set_cursor(2);
    assert_eq!(h.advance(), 1);
    assert_eq!(h.len(), 2);
    assert_eq!(h.head(), 1);
    assert_eq!(h.parent_of(0), Some(1));
    assert_eq!(h.parent_of(1), None);
    assert_eq!(h.children_of(1), vec![0]);
    assert_eq!(h.children_of(0), Vec::<usize>::new());
    assert_eq!(h.children_of(2), Vec::<usize>::new());
    assert_eq!(h.text_of(1), Some("abc".to_string()));
    assert_eq!(h.cursor_of(1), Some(2));
    assert!(h.is_modified());

    assert_eq!(h.advance(), 2);
    assert_eq!(h.parent_of(1), Some(2));
    assert_eq!(h.parent_of(0), Some(1));
    assert_eq!(h.children_of(2), vec![1]);
    assert_eq!(h.parent_of(2), None);
}

#[test]
fn test_old_head_stays_readable() {
    let mut h = History::start("abc");
    h.set_cursor(1);
    h.advance();
    assert_eq!(h.text_of(0), Some("abc".to_string()));
    h.insert_char('X');
    assert_eq!(h.text_of(0), Some("abc".to_string()));
    assert_eq!(h.cursor_of(0), Some(1));
    assert_eq!(h.text_of(1), Some("aXbc".to_string()));
    assert_eq!(h.cursor_of(1), Some(2));
    h.advance();
    h.remove(0, 3);
    h.insert(1, "yz");
    assert_eq!(h.text_of(0), Some("abc".to_string()));
    assert_eq!(h.text_of(1), Some("aXbc".to_string()));
    assert_eq!(h.text_of(2), Some("cyz".to_string()));
    assert_eq!(h.cursor_of(2), Some(0));
}

#[test]
fn test_remove_moves_the_cursor() {
    let with = |cursor: usize| {
        let mut h = History::start("abcdef");
        h.set_cursor(cursor);
        h.remove(2, 4);
        assert_eq!(h.text_of(0), Some("abef".to_string()));
        h.to_char_cursor()
    };
    assert_eq!(with(0), 0);
    assert_eq!(with(2), 2);
    assert_eq!(with(3), 2);
    assert_eq!(with(4), 2);
    assert_eq!(with(6), 4);
}

#[test]
fn test_every_edit_of_a_buffer_makes_a_snapshot() {
    let mut buf = Buffer::from_text("abc", Location::default(), 1);
    buf.set_cursor(3);
    buf.cmd_insert_char('d');
    buf.cmd_backspace(2);
    buf.cmd_insert(0, ">");
    let h = buf.as_history();
    assert_eq!(h.len(), 4);
    assert_eq!(h.head(), 3);
    assert_eq!(h.text_of(0), Some("abc".to_string()));
    assert_eq!(h.text_of(1), Some("abcd".to_string()));
    assert_eq!(h.text_of(2), Some("ab".to_string()));
    assert_eq!(h.text_of(3), Some(">ab".to_string()));
    assert_eq!(h.cursor_of(0), Some(3));
    assert_eq!(h.cursor_of(1), Some(4));
    assert_eq!(h.cursor_of(2), Some(2));
    for i in 0..3 {
        assert_eq!(h.parent_of(i), Some(i + 1));
        assert_eq!(h.children_of(i + 1), vec![i]);
    }
}
