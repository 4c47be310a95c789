use ted::buffer::{Buffer, Location, StickyCol};
use ted::event::{Cud, Event, Mod, Modifiers, Mto, Opr, DP};
use ted::Error;

fn buffer(text: &str, cursor: usize) -> Buffer {
    let mut buf = Buffer::from_text(text, Location::default(), 1);
    buf.set_cursor(cursor);
    buf
}

fn key(ch: char) -> Event {
    Event::Char(ch, Modifiers::empty())
}

fn used(buf: &mut Buffer, evnt: Event) {
    match buf.on_event(evnt) {
        Ok(Event::Noop) => (),
        other => panic!("unexpected {:?}", other),
    }
}

fn state(buf: &Buffer) -> (String, usize, &'static str) {
    (buf.to_string(), buf.to_char_cursor(), buf.to_mode())
}

#[test]
fn test_insert_session_is_repeated_on_esc() {
    let mut buf = buffer("ab", 1);
    used(&mut buf, Event::Md(Mod::Insert(3, DP::Nope)));
    assert_eq!(state(&buf), ("ab".to_string(), 1, "insert"));
    assert_eq!(buf.to_insert_repeat(), 2);
    assert!(!buf.is_modified());

    used(&mut buf, key('X'));
    assert_eq!(state(&buf), ("aXb".to_string(), 2, "insert"));
    assert_eq!(buf.to_last_inserts(), vec![key('X')]);
    assert!(buf.is_modified());

    used(&mut buf, Event::Esc);
    assert_eq!(state(&buf), ("aXXXb".to_string(), 3, "normal"));
    assert_eq!(buf.to_insert_repeat(), 0);
    assert!(buf.to_last_inserts().is_empty());
    assert!(buf.is_modified());
}

#[test]
fn test_repeat_of_a_longer_session() {
    let mut buf = buffer("", 0);
    used(&mut buf, Event::Md(Mod::Insert(2, DP::Nope)));
    used(&mut buf, key('a'));
    used(&mut buf, key('b'));
    used(&mut buf, Event::Backspace(Modifiers::empty()));
    used(&mut buf, Event::Enter(Modifiers::empty()));
    used(&mut buf, Event::Tab(Modifiers::empty()));
    assert_eq!(state(&buf), ("a\n\t".to_string(), 3, "insert"));
    used(&mut buf, Event::Esc);
    assert_eq!(state(&buf), ("a\n\ta\n\t".to_string(), 5, "normal"));
    // every key of the session and of its repeat made a snapshot.
    assert_eq!(buf.as_history().len(), 11);
}

#[test]
fn test_session_with_a_motion_is_not_repeated() {
    let mut buf = buffer("ab", 1);
    used(&mut buf, Event::Md(Mod::Insert(3, DP::Nope)));
    used(&mut buf, key('X'));
    used(&mut buf, Event::Mt(Mto::Left(1, DP::LineBound)));
    assert_eq!(buf.to_last_inserts().len(), 2);
    used(&mut buf, Event::Esc);
    assert_eq!(state(&buf), ("aXb".to_string(), 0, "normal"));
    assert_eq!(buf.to_insert_repeat(), 0);
    assert!(buf.to_last_inserts().is_empty());
}

#[test]
fn test_esc_steps_left_inside_the_line() {
    let mut buf = buffer("ab\ncd", 3);
    buf.mode_insert();
    used(&mut buf, Event::Esc);
    assert_eq!(state(&buf), ("ab\ncd".to_string(), 3, "normal"));
    assert!(!buf.is_modified());

    let mut buf = buffer("ab\ncd", 5);
    used(&mut buf, Event::Mt(Mto::LineEnd(1, DP::StickyCol)));
    buf.set_cursor(5);
    buf.mode_insert();
    used(&mut buf, Event::Esc);
    assert_eq!(state(&buf), ("ab\ncd".to_string(), 4, "normal"));
    assert_eq!(buf.to_sticky_col(), StickyCol::Unset);
}

#[test]
fn test_insert_at_first_text_column() {
    let mut buf = buffer("  ab", 3);
    used(&mut buf, Event::Md(Mod::Insert(1, DP::TextCol)));
    assert_eq!(state(&buf), ("  ab".to_string(), 2, "insert"));
    assert_eq!(buf.to_insert_repeat(), 0);
}

#[test]
fn test_append() {
    let mut buf = buffer("ab\ncd", 0);
    used(&mut buf, Event::Md(Mod::Append(1, DP::Right)));
    assert_eq!(state(&buf), ("ab\ncd".to_string(), 1, "insert"));

    let mut buf = buffer("ab\ncd", 1);
    used(&mut buf, Event::Md(Mod::Append(2, DP::Right)));
    assert_eq!(state(&buf), ("ab\ncd".to_string(), 2, "insert"));
    assert_eq!(buf.to_insert_repeat(), 1);
    used(&mut buf, key('!'));
    used(&mut buf, Event::Esc);
    assert_eq!(state(&buf), ("ab!!\ncd".to_string(), 3, "normal"));

    let mut buf = buffer("ab\ncd", 0);
    used(&mut buf, Event::Md(Mod::Append(1, DP::End)));
    assert_eq!(state(&buf), ("ab\ncd".to_string(), 2, "insert"));

    let mut buf = buffer("ab\ncd", 2);
    used(&mut buf, Event::Md(Mod::Append(1, DP::Right)));
    assert_eq!(state(&buf), ("ab\ncd".to_string(), 2, "insert"));
}

#[test]
fn test_open_line() {
    let mut buf = buffer("ab\ncd", 0);
    used(&mut buf, Event::Md(Mod::Open(1, DP::Right)));
    assert_eq!(state(&buf), ("ab\n\ncd".to_string(), 3, "insert"));
    used(&mut buf, key('x'));
    assert_eq!(state(&buf), ("ab\nx\ncd".to_string(), 4, "insert"));

    let mut buf = buffer("ab\ncd", 4);
    used(&mut buf, Event::Md(Mod::Open(1, DP::Left)));
    assert_eq!(state(&buf), ("ab\n\ncd".to_string(), 3, "insert"));
    used(&mut buf, key('x'));
    assert_eq!(state(&buf), ("ab\nx\ncd".to_string(), 4, "insert"));
    assert!(buf.is_modified());

    let mut buf = buffer("ab", 1);
    used(&mut buf, Event::Md(Mod::Open(1, DP::Right)));
    assert_eq!(state(&buf), ("ab\n".to_string(), 3, "insert"));

    let mut buf = buffer("ab", 1);
    used(&mut buf, Event::Md(Mod::Open(1, DP::Left)));
    assert_eq!(state(&buf), ("\nab".to_string(), 0, "insert"));
}

#[test]
fn test_open_without_a_direction_does_nothing() {
    let mut buf = buffer("ab", 1);
    used(&mut buf, Event::Md(Mod::Open(3, DP::Nope)));
    assert_eq!(state(&buf), ("ab".to_string(), 1, "normal"));
    assert_eq!(buf.to_insert_repeat(), 0);
    assert!(!buf.is_modified());
}

#[test]
fn test_commands_with_count_zero_are_passed_on() {
    for md in vec![Mod::Insert(0, DP::Nope), Mod::Append(0, DP::End), Mod::Open(0, DP::Left)] {
        let mut buf = buffer("ab", 1);
        assert_eq!(buf.on_event(Event::Md(md)).unwrap(), Event::Md(md));
        assert_eq!(state(&buf), ("ab".to_string(), 1, "normal"));
    }
}

#[test]
fn test_normal_mode_passes_other_events_on() {
    let events = vec![
        key('x'),
        Event::Esc,
        Event::Backspace(Modifiers::empty()),
        Event::FKey(1, Modifiers::empty()),
        Event::Md(Mod::Esc),
        Event::Md(Mod::Replace(1, DP::Nope)),
        Event::Wr(Cud::Char('a')),
        Event::Op(Opr::Delete(1, Mto::Left(1, DP::Nobound))),
        Event::TabInsert("abc".to_string()),
        Event::N(3),
        Event::JumpFrom(2),
    ];
    for evnt in events {
        let mut buf = buffer("ab", 1);
        assert_eq!(buf.on_event(evnt.clone()).unwrap(), evnt);
        assert_eq!(state(&buf), ("ab".to_string(), 1, "normal"));
        assert!(!buf.is_modified());
        assert!(buf.to_last_inserts().is_empty());
    }
}

#[test]
fn test_noop() {
    let mut buf = buffer("ab", 1);
    used(&mut buf, Event::Noop);
    buf.mode_insert();
    used(&mut buf, Event::Noop);
    assert_eq!(state(&buf), ("ab".to_string(), 1, "insert"));
    assert!(buf.to_last_inserts().is_empty());
}

#[test]
fn test_insert_mode_keys() {
    let mut buf = buffer("abc", 1);
    buf.mode_insert();
    used(&mut buf, Event::Delete(Modifiers::empty()));
    assert_eq!(state(&buf), ("ac".to_string(), 1, "insert"));
    used(&mut buf, Event::Backspace(Modifiers::empty()));
    assert_eq!(state(&buf), ("c".to_string(), 0, "insert"));
    used(&mut buf, Event::Backspace(Modifiers::empty()));
    assert_eq!(state(&buf), ("c".to_string(), 0, "insert"));
    used(&mut buf, Event::Enter(Modifiers::empty()));
    assert_eq!(state(&buf), ("\nc".to_string(), 1, "insert"));
    used(&mut buf, Event::Tab(Modifiers::empty()));
    assert_eq!(state(&buf), ("\n\tc".to_string(), 2, "insert"));
    used(&mut buf, Event::Char('\u{20ac}', Modifiers { shift: true, control: false, alt: false }));
    assert_eq!(state(&buf), ("\n\t\u{20ac}c".to_string(), 3, "insert"));
    assert_eq!(buf.to_last_inserts().len(), 6);
}

#[test]
fn test_every_typed_key_modifies_the_buffer() {
    let keys = vec![
        key('x'),
        Event::Backspace(Modifiers::empty()),
        Event::Delete(Modifiers::empty()),
        Event::Enter(Modifiers::empty()),
        Event::Tab(Modifiers::empty()),
    ];
    for evnt in keys {
        for cursor in 0..=2 {
            let mut buf = buffer("ab", cursor);
            buf.mode_insert();
            assert!(!buf.is_modified());
            used(&mut buf, evnt.clone());
            assert!(buf.is_modified());
            used(&mut buf, Event::Mt(Mto::Left(1, DP::LineBound)));
            used(&mut buf, Event::Esc);
            assert!(buf.is_modified());
        }
    }
}

#[test]
fn test_insert_mode_motions() {
    let mut buf = buffer("abc def\nghi", 5);
    buf.mode_insert();
    used(&mut buf, Event::Mt(Mto::Left(2, DP::LineBound)));
    assert_eq!(buf.to_char_cursor(), 3);
    used(&mut buf, Event::Mt(Mto::Right(1, DP::Nobound)));
    assert_eq!(buf.to_char_cursor(), 4);
    used(&mut buf, Event::Mt(Mto::Down(1, DP::Nope)));
    assert_eq!(buf.to_char_cursor(), 10);
    used(&mut buf, Event::Mt(Mto::Up(1, DP::Nope)));
    assert_eq!(buf.to_char_cursor(), 2);
    used(&mut buf, Event::Mt(Mto::LineEnd(1, DP::Nope)));
    assert_eq!(buf.to_char_cursor(), 6);
    used(&mut buf, Event::Mt(Mto::LineHome(DP::Nope)));
    assert_eq!(buf.to_char_cursor(), 0);
    assert_eq!(buf.to_mode(), "insert");
    assert_eq!(buf.to_last_inserts().len(), 6);
    assert!(!buf.is_modified());
}

#[test]
fn test_insert_mode_refuses_a_bad_qualifier() {
    let mut buf = buffer("abc", 1);
    buf.mode_insert();
    match buf.on_event(Event::Mt(Mto::Left(1, DP::End))) {
        Err(Error::Fatal(_)) => (),
        other => panic!("unexpected {:?}", other),
    }
    assert_eq!(state(&buf), ("abc".to_string(), 1, "insert"));
    assert_eq!(buf.to_last_inserts(), vec![Event::Mt(Mto::Left(1, DP::End))]);
}

#[test]
fn test_insert_mode_passes_other_events_on() {
    let events = vec![
        Event::Mt(Mto::Word(1, DP::Right, DP::Start)),
        Event::Mt(Mto::Cursor(0)),
        Event::FKey(2, Modifiers::empty()),
        Event::Md(Mod::Insert(2, DP::Nope)),
        Event::BackTab,
    ];
    for evnt in events {
        let mut buf = buffer("ab cd", 1);
        buf.mode_insert();
        assert_eq!(buf.on_event(evnt.clone()).unwrap(), evnt);
        assert_eq!(state(&buf), ("ab cd".to_string(), 1, "insert"));
        assert_eq!(buf.to_last_inserts(), vec![evnt]);
    }
}

#[test]
fn test_type_event() {
    let mut buf = buffer("ab", 1);
    buf.type_event(&key('x'));
    assert_eq!(state(&buf), ("axb".to_string(), 2, "normal"));
    buf.type_event(&Event::Esc);
    buf.type_event(&Event::Mt(Mto::Left(1, DP::Nobound)));
    assert_eq!(state(&buf), ("axb".to_string(), 2, "normal"));
    assert_eq!(buf.as_history().len(), 2);
    // at the end of the text the delete key takes the last character.
    buf.set_cursor(3);
    buf.type_event(&Event::Delete(Modifiers::empty()));
    assert_eq!(state(&buf), ("ax".to_string(), 2, "normal"));
}
