use ted::buffer::{Buffer, Location};
use ted::event::{Event, Mod, Modifiers, Mto, Opr, DP};
use ted::keymap::KeyEdit;
use ted::state::State;

fn key(ch: char) -> Event {
    Event::Char(ch, Modifiers::empty())
}

fn normal() -> Buffer {
    Buffer::from_text("abc", Location::default(), 1)
}

fn fold(keys: &str) -> Vec<Event> {
    let buf = normal();
    let mut keymap = KeyEdit::default();
    keys.chars().map(|ch| keymap.fold(&buf, key(ch)).unwrap()).collect()
}

fn last(keys: &str) -> Event {
    let mut evnts = fold(keys);
    for evnt in evnts.iter().take(evnts.len() - 1) {
        assert_eq!(*evnt, Event::Noop);
    }
    evnts.pop().unwrap()
}

#[test]
fn test_single_keys() {
    assert_eq!(last("h"), Event::Mt(Mto::Left(1, DP::LineBound)));
    assert_eq!(last("l"), Event::Mt(Mto::Right(1, DP::LineBound)));
    assert_eq!(last(" "), Event::Mt(Mto::Right(1, DP::Nobound)));
    assert_eq!(last("j"), Event::Mt(Mto::Down(1, DP::Nope)));
    assert_eq!(last("k"), Event::Mt(Mto::Up(1, DP::Nope)));
    assert_eq!(last("0"), Event::Mt(Mto::LineHome(DP::Nope)));
    assert_eq!(last("^"), Event::Mt(Mto::LineHome(DP::TextCol)));
    assert_eq!(last("$"), Event::Mt(Mto::LineEnd(1, DP::Nope)));
    assert_eq!(last("w"), Event::Mt(Mto::Word(1, DP::Right, DP::Start)));
    assert_eq!(last("B"), Event::Mt(Mto::WWord(1, DP::Left, DP::Start)));
    assert_eq!(last("E"), Event::Mt(Mto::WWord(1, DP::Right, DP::End)));
    assert_eq!(last("}"), Event::Mt(Mto::Para(1, DP::Right)));
    assert_eq!(last("("), Event::Mt(Mto::Sentence(1, DP::Left)));
    assert_eq!(last(";"), Event::Mt(Mto::CharR(1, DP::Right)));
    assert_eq!(last("N"), Event::Mt(Mto::PatternR(1, DP::Left)));
    assert_eq!(last("G"), Event::Mt(Mto::Row(1, DP::TextCol)));
    assert_eq!(last("i"), Event::Md(Mod::Insert(1, DP::Nope)));
    assert_eq!(last("I"), Event::Md(Mod::Insert(1, DP::TextCol)));
    assert_eq!(last("a"), Event::Md(Mod::Append(1, DP::Right)));
    assert_eq!(last("A"), Event::Md(Mod::Append(1, DP::End)));
    assert_eq!(last("o"), Event::Md(Mod::Open(1, DP::Right)));
    assert_eq!(last("O"), Event::Md(Mod::Open(1, DP::Left)));
    assert_eq!(last("q"), key('q'));
}

#[test]
fn test_counts() {
    assert_eq!(last("3w"), Event::Mt(Mto::Word(3, DP::Right, DP::Start)));
    assert_eq!(last("10j"), Event::Mt(Mto::Down(10, DP::Nope)));
    assert_eq!(last("205|"), Event::Mt(Mto::Col(205)));
    assert_eq!(last("50%"), Event::Mt(Mto::Percent(50, DP::TextCol)));
    assert_eq!(last("7G"), Event::Mt(Mto::Row(7, DP::TextCol)));
    assert_eq!(fold("3i")[1], Event::Md(Mod::Insert(3, DP::Nope)));
    assert_eq!(
        last("99999999999999999999999999h"),
        Event::Mt(Mto::Left(usize::MAX, DP::LineBound))
    );
}

#[test]
fn test_count_is_forgotten_after_a_command() {
    let evnts = fold("3ww");
    assert_eq!(evnts[1], Event::Mt(Mto::Word(3, DP::Right, DP::Start)));
    assert_eq!(evnts[2], Event::Mt(Mto::Word(1, DP::Right, DP::Start)));
    let evnts = fold("3qw");
    assert_eq!(evnts[1], key('q'));
    assert_eq!(evnts[2], Event::Mt(Mto::Word(1, DP::Right, DP::Start)));
}

#[test]
fn test_find_and_till() {
    assert_eq!(last("fx"), Event::Mt(Mto::CharF(1, Some('x'), DP::Right)));
    assert_eq!(last("2Fx"), Event::Mt(Mto::CharF(2, Some('x'), DP::Left)));
    assert_eq!(last("t3"), Event::Mt(Mto::CharT(1, Some('3'), DP::Right)));
    assert_eq!(last("4Tf"), Event::Mt(Mto::CharT(4, Some('f'), DP::Left)));
}

#[test]
fn test_brackets() {
    assert_eq!(last("[("), Event::Mt(Mto::Bracket(1, '(', ')', DP::Left)));
    assert_eq!(last("])"), Event::Mt(Mto::Bracket(1, '(', ')', DP::Right)));
    assert_eq!(last("2]}"), Event::Mt(Mto::Bracket(2, '{', '}', DP::Right)));
    assert_eq!(last("[{"), Event::Mt(Mto::Bracket(1, '{', '}', DP::Left)));
    assert_eq!(last("[x"), key('x'));
}

#[test]
fn test_global_prefix() {
    assert_eq!(last("gg"), Event::Mt(Mto::Row(1, DP::TextCol)));
    assert_eq!(last("5gg"), Event::Mt(Mto::Row(5, DP::TextCol)));
    assert_eq!(last("ge"), Event::Mt(Mto::Word(1, DP::Left, DP::End)));
    assert_eq!(last("gE"), Event::Mt(Mto::WWord(1, DP::Left, DP::End)));
    assert_eq!(last("9go"), Event::Mt(Mto::Cursor(9)));
    assert_eq!(last("gI"), Event::Md(Mod::Insert(1, DP::TextCol)));
    assert_eq!(last("gx"), key('x'));
}

#[test]
fn test_operations_take_a_motion() {
    assert_eq!(last("dw"), Event::Op(Opr::Delete(1, Mto::Word(1, DP::Right, DP::Start))));
    assert_eq!(last("3c$"), Event::Op(Opr::Change(3, Mto::LineEnd(1, DP::Nope))));
    assert_eq!(last("yh"), Event::Op(Opr::Yank(1, Mto::Left(1, DP::LineBound))));
    assert_eq!(last(">j"), Event::Op(Opr::RShift(1, Mto::Down(1, DP::Nope))));
    assert_eq!(last("<k"), Event::Op(Opr::LShift(1, Mto::Up(1, DP::Nope))));
    assert_eq!(last("gUw"), Event::Op(Opr::Uppercase(1, Mto::Word(1, DP::Right, DP::Start))));
    assert_eq!(last("g?0"), Event::Op(Opr::Encode(1, Mto::LineHome(DP::Nope))));
    assert_eq!(last("dq"), key('q'));
    let evnts = fold("dqw");
    assert_eq!(evnts[2], Event::Mt(Mto::Word(1, DP::Right, DP::Start)));
}

#[test]
fn test_other_events() {
    let buf = normal();
    let mut keymap = KeyEdit::default();
    let m = Modifiers::empty();
    assert_eq!(keymap.fold(&buf, key('4')).unwrap(), Event::Noop);
    assert_eq!(
        keymap.fold(&buf, Event::Backspace(m)).unwrap(),
        Event::Mt(Mto::Left(4, DP::Nobound))
    );
    assert_eq!(keymap.fold(&buf, Event::Enter(m)).unwrap(), Event::Mt(Mto::Down(1, DP::TextCol)));
    assert_eq!(keymap.fold(&buf, key('2')).unwrap(), Event::Noop);
    assert_eq!(
        keymap.fold(&buf, Event::Md(Mod::Insert(3, DP::Nope))).unwrap(),
        Event::Md(Mod::Insert(6, DP::Nope))
    );
    assert_eq!(keymap.fold(&buf, Event::Esc).unwrap(), Event::Esc);
    assert_eq!(keymap.fold(&buf, key('f')).unwrap(), Event::Noop);
    assert_eq!(keymap.fold(&buf, Event::Esc).unwrap(), Event::Esc);
    assert_eq!(keymap.fold(&buf, key('x')).unwrap(), key('x'));
}

#[test]
fn test_keys_with_modifiers_are_not_folded() {
    let buf = normal();
    let mut keymap = KeyEdit::default();
    let ctrl = Modifiers { shift: false, control: true, alt: false };
    assert_eq!(keymap.fold(&buf, key('3')).unwrap(), Event::Noop);
    assert_eq!(keymap.fold(&buf, Event::Char('w', ctrl)).unwrap(), Event::Char('w', ctrl));
    // the count is still open.
    assert_eq!(keymap.fold(&buf, key('w')).unwrap(), Event::Mt(Mto::Word(3, DP::Right, DP::Start)));
}

#[test]
fn test_insert_mode_folds_nothing() {
    let mut buf = normal();
    buf.mode_insert();
    let mut keymap = KeyEdit::default();
    for ch in "3wfx[(dw0".chars() {
        assert_eq!(keymap.fold(&buf, key(ch)).unwrap(), key(ch));
    }
    buf.mode_normal();
    assert_eq!(keymap.fold(&buf, key('w')).unwrap(), Event::Mt(Mto::Word(1, DP::Right, DP::Start)));
}

#[test]
fn test_keys_drive_a_buffer() {
    let mut buf = Buffer::from_text("abc def\nghi", Location::default(), 1);
    let mut keymap = KeyEdit::default();
    for ch in "wix".chars() {
        let evnt = keymap.fold(&buf, key(ch)).unwrap();
        buf.on_event(evnt).unwrap();
    }
    let evnt = keymap.fold(&buf, Event::Esc).unwrap();
    buf.on_event(evnt).unwrap();
    assert_eq!(buf.to_string(), "abc xdef\nghi");
    assert_eq!(buf.to_char_cursor(), 4);
    for ch in "2])j3ay".chars() {
        let evnt = keymap.fold(&buf, key(ch)).unwrap();
        buf.on_event(evnt).unwrap();
    }
    let evnt = keymap.fold(&buf, Event::Esc).unwrap();
    buf.on_event(evnt).unwrap();
    assert_eq!(buf.to_string(), "abc xdef\nghiyyy");
    assert_eq!(buf.to_mode(), "normal");
}

#[test]
fn test_state() {
    let mut state = State::new();
    assert_eq!(state.n_buffers(), 0);
    assert!(state.as_buffer("a").is_none());
    assert_eq!(state.to_buffer_num("a".to_string()), None);
    assert!(state.take_buffer("a").is_none());

    for name in vec!["a", "b", "a"] {
        let num = state.next_num();
        let loc = Location::Memory { name: name.to_string() };
        state.add_buffer(Buffer::from_text(name, loc, num));
    }
    assert_eq!(state.n_buffers(), 3);
    assert_eq!(state.next_num(), 4);
    // the buffer that was added last comes first.
    assert_eq!(state.to_buffer_num("a".to_string()), Some(3));
    assert_eq!(state.to_buffer_num("b".to_string()), Some(2));
    assert_eq!(state.to_buffer_num("c".to_string()), None);
    assert_eq!(state.as_buffer("b").unwrap().to_string(), "b");

    let buf = state.take_buffer("a").unwrap();
    assert_eq!(buf.to_num(), 3);
    assert_eq!(state.n_buffers(), 2);
    assert_eq!(state.to_buffer_num("a".to_string()), Some(1));
    state.add_buffer(buf);
    assert_eq!(state.to_buffer_num("a".to_string()), Some(3));
    assert!(state.take_buffer("c").is_none());
    assert_eq!(state.n_buffers(), 3);
}
