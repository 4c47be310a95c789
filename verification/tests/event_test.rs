use ted::cursor::Cursor;
use ted::event::{Cud, Edit, Event, Mod, Modifiers, Mto, Opr, Scroll, DP};
use ted::window_edit::{Coord, WinCursor, WindowEdit};
use ted::Error;

const CTRL: Modifiers = Modifiers { shift: false, control: true, alt: false };

#[test]
fn test_dp_dir_xor() {
    assert_eq!(DP::Left.dir_xor(DP::Right).unwrap(), DP::Left);
    assert_eq!(DP::Right.dir_xor(DP::Right).unwrap(), DP::Right);
    assert_eq!(DP::Left.dir_xor(DP::Left).unwrap(), DP::Right);
    assert_eq!(DP::Right.dir_xor(DP::Left).unwrap(), DP::Left);
    let others = vec![
        DP::Start,
        DP::End,
        DP::LineBound,
        DP::Nobound,
        DP::TextCol,
        DP::StickyCol,
        DP::Nope,
    ];
    for x in others {
        for y in vec![DP::Left, DP::Right, x] {
            assert!(matches!(x.dir_xor(y), Err(Error::Fatal(_))));
            assert!(matches!(y.dir_xor(x), Err(Error::Fatal(_))));
        }
    }
}

#[test]
fn test_mto_dir_xor() {
    let m = Mto::CharF(3, Some('x'), DP::Left);
    assert_eq!(m.dir_xor(1, DP::Left).unwrap(), Mto::CharF(1, Some('x'), DP::Right));
    let m = Mto::CharT(3, None, DP::Right);
    assert_eq!(m.dir_xor(2, DP::Left).unwrap(), Mto::CharT(2, None, DP::Left));
    let m = Mto::Pattern(1, Some("a+".to_string()), DP::Right);
    assert_eq!(
        m.dir_xor(5, DP::Right).unwrap(),
        Mto::Pattern(5, Some("a+".to_string()), DP::Right)
    );
    assert_eq!(Mto::Nop.dir_xor(5, DP::Right).unwrap(), Mto::Nop);
    assert_eq!(Mto::Nop.dir_xor(5, DP::Start).unwrap(), Mto::Nop);
}

#[test]
fn test_mto_dir_xor_refusals() {
    let m = Mto::CharF(3, Some('x'), DP::Left);
    assert!(matches!(m.dir_xor(1, DP::Nope), Err(Error::Fatal(_))));
    let m = Mto::Pattern(3, None, DP::TextCol);
    assert!(matches!(m.dir_xor(1, DP::Left), Err(Error::Fatal(_))));
    for m in vec![Mto::Left(1, DP::Nobound), Mto::PatternR(1, DP::Left), Mto::WinM] {
        assert!(matches!(m.dir_xor(1, DP::Left), Err(Error::Fatal(_))));
    }
}

#[test]
fn test_modifiers() {
    assert!(Modifiers::empty().is_empty());
    assert!(!CTRL.is_empty());
    assert_eq!(Event::Char('a', CTRL).to_modifiers(), CTRL);
    assert_eq!(Event::Enter(CTRL).to_modifiers(), CTRL);
    assert_eq!(Event::PageDown(CTRL).to_modifiers(), CTRL);
    assert_eq!(Event::Esc.to_modifiers(), Modifiers::empty());
    assert_eq!(Event::Mt(Mto::Col(1)).to_modifiers(), Modifiers::empty());
    assert_eq!(Event::Md(Mod::Esc).to_modifiers(), Modifiers::empty());
    assert_eq!(Event::Wr(Cud::ReInsert).to_modifiers(), Modifiers::empty());
    assert_eq!(Event::Op(Opr::Yank(1, Mto::Nop)).to_modifiers(), Modifiers::empty());
    assert_eq!(Mto::WinScroll(1, Scroll::Pages, DP::Left).to_modifiers(), Modifiers::empty());
}

#[test]
fn test_is_control() {
    assert!(Event::Char('a', CTRL).is_control());
    assert!(Event::FKey(1, CTRL).is_control());
    assert!(!Event::Char('a', Modifiers::empty()).is_control());
    assert!(!Event::Char('a', Modifiers { shift: true, control: false, alt: true }).is_control());
    assert!(!Event::Enter(CTRL).is_control());
    assert!(!Event::Noop.is_control());
}

#[test]
fn test_is_insert() {
    assert!(Event::Md(Mod::Insert(1, DP::Nope)).is_insert());
    assert!(Event::Md(Mod::Append(0, DP::End)).is_insert());
    assert!(Event::Md(Mod::Open(2, DP::Left)).is_insert());
    assert!(!Event::Md(Mod::Replace(2, DP::Nope)).is_insert());
    assert!(!Event::Md(Mod::Esc).is_insert());
    assert!(!Event::Char('i', Modifiers::empty()).is_insert());
}

#[test]
fn test_can_replay() {
    assert!(Event::Char('a', CTRL).can_replay());
    assert!(Event::Backspace(CTRL).can_replay());
    assert!(Event::Delete(CTRL).can_replay());
    assert!(Event::Enter(CTRL).can_replay());
    assert!(Event::Tab(CTRL).can_replay());
    assert!(!Event::Esc.can_replay());
    assert!(!Event::BackTab.can_replay());
    assert!(!Event::Mt(Mto::Left(1, DP::Nobound)).can_replay());
    assert!(!Event::Wr(Cud::Char('a')).can_replay());
}

#[test]
fn test_clone_and_default() {
    let events = vec![
        Event::Mt(Mto::Pattern(2, Some("x.y".to_string()), DP::Left)),
        Event::Op(Opr::Change(2, Mto::Word(1, DP::Left, DP::End))),
        Event::Edit(Edit::Chg { cursor: 3, oldt: "a".to_string(), newt: "bc".to_string() }),
        Event::Edit(Edit::Ins { cursor: 3, txt: "a".to_string() }),
        Event::Edit(Edit::Del { cursor: 0, txt: "".to_string() }),
        Event::TabInsert("abc".to_string()),
        Event::Char('x', CTRL),
        Event::B(2, DP::Left),
    ];
    for evnt in events {
        assert_eq!(evnt.clone(), evnt);
    }
    assert_eq!(Event::default(), Event::Noop);
    assert_eq!(Mto::default(), Mto::Nop);
}

#[test]
fn test_error_to_string() {
    assert_eq!(Error::Fatal("boom".to_string()).to_string(), "Fatal: boom");
    assert_eq!(Error::BadPattern("(".to_string()).to_string(), "BadPattern: (");
    assert_eq!(Error::IOError("disk".to_string()).to_string(), "IOError: disk");
    assert_eq!(Error::FailConvert("x".to_string()).to_string(), "FailConvert: x");
    assert_eq!(Error::FailBuffer("".to_string()).to_string(), "FailBuffer: ");
}

#[test]
fn test_cursor_diff() {
    let old = Cursor::new(3, 10);
    let new = Cursor::new(7, 4);
    assert_eq!(old.diff(&new), (4, -6));
    assert_eq!(new.diff(&old), (-4, 6));
    assert_eq!(old.diff(&old), (0, 0));
    let far = Cursor::new(usize::MAX, 0);
    assert_eq!(Cursor::new(0, 0).diff(&far), (isize::MAX, 0));
    assert_eq!(far.diff(&Cursor::new(0, 0)), (isize::MIN, 0));
    assert_eq!(Cursor::new(1, 0).diff(&Cursor::new(isize::MAX as usize + 1, 0)), (isize::MAX, 0));
}

#[test]
fn test_cursor_order_is_row_major() {
    let a = Cursor::new(5, 1);
    let b = Cursor::new(0, 2);
    let c = Cursor::new(1, 2);
    assert!(a.is_before(&b));
    assert!(b.is_before(&c));
    assert!(a.is_before(&c));
    assert!(!b.is_before(&a));
    assert!(!a.is_before(&a));
    assert_eq!(a, Cursor { col: 5, row: 1 });
    assert_eq!(Cursor::default(), Cursor::new(0, 0));
}

#[test]
fn test_window_edit() {
    let coord = Coord::new(1, 1, 24, 80);
    assert_eq!(coord.to_origin(), (1, 1));
    assert_eq!(coord.to_size(), (24, 80));
    assert_eq!(coord.to_top_left(), WinCursor { col: 0, row: 0 });

    let w = WindowEdit::new(coord);
    assert_eq!(w.to_cursor(), WinCursor { col: 0, row: 0 });
    assert_eq!(w.to_buffer_id(), "");

    let mut w = WindowEdit::new(Coord::new(11, 3, 20, 40));
    assert_eq!(w.to_cursor(), WinCursor { col: 10, row: 2 });
    w.set_buffer("a.txt".to_string());
    assert_eq!(w.to_buffer_id(), "a.txt");
    assert_eq!(w.clone().to_cursor(), WinCursor { col: 10, row: 2 });
}
