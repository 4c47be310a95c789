//! Events and their arguments: the commands that a buffer takes, already
//! decoded from keystrokes.

use vstd::prelude::*;
use crate::Error;

verus! {

/// Keystroke modifiers that came with a key.
#[derive(Clone, Copy, Debug, PartialEq, Eq, Structural)]
pub struct Modifiers {
    pub shift: bool,
    pub control: bool,
    pub alt: bool,
}

impl Modifiers {
    /// No modifier at all.
    pub fn empty() -> (m: Modifiers)
        ensures
            m == (Modifiers { shift: false, control: false, alt: false }),
    {
        Modifiers { shift: false, control: false, alt: false }
    }

    /// Whether no modifier is set.
    pub fn is_empty(&self) -> (b: bool)
        ensures
            b == (!self.shift && !self.control && !self.alt),
    {
        !self.shift && !self.control && !self.alt
    }
}

/// Event argument, specify the direction or position.
#[derive(Clone, Copy, Debug, PartialEq, Eq, Structural)]
pub enum DP {
    /// Left-Direction to move/operate.
    Left,
    /// Right-Direction to move/operate.
    Right,
    Start,
    End,
    /// Motion/operation bound by end-of-line.
    LineBound,
    /// Motion/operation not-bound by end-of-line.
    Nobound,
    /// Non-Blank column in the line, as in, first non-blank / last non-blank.
    TextCol,
    /// Cursor sticks to current-col, for subsequent linewise motion/operation,
    /// until next characterwise motion/operation.
    StickyCol,
    /// No qualifier.
    Nope,
}

impl DP {
    /// Whether the value is one of the two directions.
    pub open spec fn is_direction(self) -> bool {
        self == DP::Left || self == DP::Right
    }

    /// The direction that repeating a motion of direction `self` takes when
    /// the repeat asks for `rhs`: `Right` keeps the direction, `Left` turns
    /// it round. There is none unless both are directions.
    pub open spec fn xor(self, rhs: DP) -> Option<DP> {
        match (self, rhs) {
            (DP::Left, DP::Right) => Some(DP::Left),
            (DP::Right, DP::Right) => Some(DP::Right),
            (DP::Left, DP::Left) => Some(DP::Right),
            (DP::Right, DP::Left) => Some(DP::Left),
            _ => None,
        }
    }

    /// Direction of a repeated motion, see `xor`; `Fatal` unless both values
    /// are directions.
    pub fn dir_xor(self, rhs: DP) -> (res: Result<DP, Error>)
        ensures
            self.xor(rhs) matches Some(dp) ==> res == Ok::<DP, Error>(dp),
            self.xor(rhs) is None ==> res matches Err(Error::Fatal(_)),
    {
        match (self, rhs) {
            (DP::Left, DP::Right) => Ok(DP::Left),
            (DP::Right, DP::Right) => Ok(DP::Right),
            (DP::Left, DP::Left) => Ok(DP::Right),
            (DP::Right, DP::Left) => Ok(DP::Left),
            _ => Err(Error::Fatal("invalid direction".to_owned())),
        }
    }
}

/// Scroll sub-commands for Mto motion command.
#[derive(Clone, Copy, Debug, PartialEq, Eq, Structural)]
pub enum Scroll {
    // vertical scrolls
    Ones,
    Lines,
    Pages,
    Cursor,
    TextUp,
    TextCenter,
    TextBottom,
    // horizontal scrolls
    Chars,
    Slide,
    Align,
}

/// Event argument specify the cursor motion.
#[derive(Debug, PartialEq, Eq)]
pub enum Mto {
    // character-wise motion
    Left(usize, DP),  // (n, LineBound/Nobound)
    Right(usize, DP),  // (n, LineBound/Nobound)
    LineHome(DP),  // TextCol/StickyCol/Nope
    LineEnd(usize, DP),  // (n, TextCol/StickyCol/Nope)
    LineMiddle(usize, DP),  // (n-percent, Nope)
    ScreenHome(DP),  // TextCol/Nope
    ScreenEnd(usize, DP),  // (n, TextCol/Nope)
    ScreenMiddle,
    Col(usize),  // (n,)
    CharF(usize, Option<char>, DP),  // (n, ch, Left/Right)
    CharT(usize, Option<char>, DP),  // (n, ch, Left/Right)
    CharR(usize, DP),  // repeat CharF/CharT (n, Left/Right)
    // line-wise motion.
    Up(usize, DP),  // (n, TextCol/Nope)
    Down(usize, DP),  // (n, TextCol/Nope)
    Row(usize, DP),  // (n, TextCol/Nope)
    Percent(usize, DP),  // (n, TextCol/Nope)
    Cursor(usize),  // (n,)
    ScreenUp(usize, DP),  // (n, Nope)
    ScreenDown(usize, DP),  // (n, Nope)
    // word/sentence/para wise motion
    Word(usize, DP, DP),  // (n, Left/Right, Start/End)
    WWord(usize, DP, DP),  // (n, Left/Right, Start/End)
    Sentence(usize, DP),  // (n, Left/Right)
    Para(usize, DP),  // (n, Left/Right)
    // window motion
    WinH(usize),  // (n,)
    WinM,  // (n,)
    WinL(usize),  // (n,)
    WinScroll(usize, Scroll, DP),  // (n, Scroll, Left/Right/TextCol/Nope)
    // other motions
    MatchPair,
    UnmatchPair(usize, char, DP),  // (n, marker, Left/Right)
    // jumps and marks
    Jump(char, char),  // (['`], [a-zA-Z0-9])
    Bracket(usize, char, char, DP),  // (n, yin, yan, Left/Right)
    Pattern(usize, Option<String>, DP),  // (n, pattern, Left/Right)
    PatternR(usize, DP),  // repeat pattern (n, Left/Right)
    /// No motion.
    Nop,
}

impl Clone for Mto {
    fn clone(&self) -> (res: Mto)
        ensures
            res == *self,
    {
        match self {
            Mto::Left(n, dp) => Mto::Left(*n, *dp),
            Mto::Right(n, dp) => Mto::Right(*n, *dp),
            Mto::LineHome(dp) => Mto::LineHome(*dp),
            Mto::LineEnd(n, dp) => Mto::LineEnd(*n, *dp),
            Mto::LineMiddle(n, dp) => Mto::LineMiddle(*n, *dp),
            Mto::ScreenHome(dp) => Mto::ScreenHome(*dp),
            Mto::ScreenEnd(n, dp) => Mto::ScreenEnd(*n, *dp),
            Mto::ScreenMiddle => Mto::ScreenMiddle,
            Mto::Col(n) => Mto::Col(*n),
            Mto::CharF(n, ch, dp) => Mto::CharF(*n, *ch, *dp),
            Mto::CharT(n, ch, dp) => Mto::CharT(*n, *ch, *dp),
            Mto::CharR(n, dp) => Mto::CharR(*n, *dp),
            Mto::Up(n, dp) => Mto::Up(*n, *dp),
            Mto::Down(n, dp) => Mto::Down(*n, *dp),
            Mto::Row(n, dp) => Mto::Row(*n, *dp),
            Mto::Percent(n, dp) => Mto::Percent(*n, *dp),
            Mto::Cursor(n) => Mto::Cursor(*n),
            Mto::ScreenUp(n, dp) => Mto::ScreenUp(*n, *dp),
            Mto::ScreenDown(n, dp) => Mto::ScreenDown(*n, *dp),
            Mto::Word(n, dir, pos) => Mto::Word(*n, *dir, *pos),
            Mto::WWord(n, dir, pos) => Mto::WWord(*n, *dir, *pos),
            Mto::Sentence(n, dp) => Mto::Sentence(*n, *dp),
            Mto::Para(n, dp) => Mto::Para(*n, *dp),
            Mto::WinH(n) => Mto::WinH(*n),
            Mto::WinM => Mto::WinM,
            Mto::WinL(n) => Mto::WinL(*n),
            Mto::WinScroll(n, scroll, dp) => Mto::WinScroll(*n, *scroll, *dp),
            Mto::MatchPair => Mto::MatchPair,
            Mto::UnmatchPair(n, ch, dp) => Mto::UnmatchPair(*n, *ch, *dp),
            Mto::Jump(typ, ch) => Mto::Jump(*typ, *ch),
            Mto::Bracket(n, yin, yan, dp) => Mto::Bracket(*n, *yin, *yan, *dp),
            Mto::Pattern(n, patt, dp) => {
                let patt = match patt {
                    Some(p) => Some(p.clone()),
                    None => None,
                };
                Mto::Pattern(*n, patt, *dp)
            },
            Mto::PatternR(n, dp) => Mto::PatternR(*n, *dp),
            Mto::Nop => Mto::Nop,
        }
    }
}

impl Default for Mto {
    fn default() -> (m: Mto)
        ensures
            m == Mto::Nop,
    {
        Mto::Nop
    }
}

impl Mto {
    /// The find-character or pattern motion `self`, repeated `n` times with
    /// its direction combined with `new_dp` by `DP::xor`. `Nop` repeats as
    /// `Nop`; no other motion can be repeated, and no motion whose
    /// directions do not combine.
    pub open spec fn repeated(self, n: usize, new_dp: DP) -> Option<Mto> {
        match self {
            Mto::CharF(_, ch, dp) => match dp.xor(new_dp) {
                Some(d) => Some(Mto::CharF(n, ch, d)),
                None => None,
            },
            Mto::CharT(_, ch, dp) => match dp.xor(new_dp) {
                Some(d) => Some(Mto::CharT(n, ch, d)),
                None => None,
            },
            Mto::Pattern(_, patt, dp) => match dp.xor(new_dp) {
                Some(d) => Some(Mto::Pattern(n, patt, d)),
                None => None,
            },
            Mto::Nop => Some(Mto::Nop),
            _ => None,
        }
    }

    /// Do the character/pattern motion in the opposite direction.
    pub fn dir_xor(self, n: usize, new_dp: DP) -> (res: Result<Mto, Error>)
        ensures
            self.repeated(n, new_dp) matches Some(m) ==> res == Ok::<Mto, Error>(m),
            self.repeated(n, new_dp) is None ==> res matches Err(Error::Fatal(_)),
    {
        match self {
            Mto::CharF(_, ch, dp) => {
                match dp.dir_xor(new_dp) {
                    Ok(d) => Ok(Mto::CharF(n, ch, d)),
                    Err(e) => Err(e),
                }
            },
            Mto::CharT(_, ch, dp) => {
                match dp.dir_xor(new_dp) {
                    Ok(d) => Ok(Mto::CharT(n, ch, d)),
                    Err(e) => Err(e),
                }
            },
            Mto::Pattern(_, patt, dp) => {
                match dp.dir_xor(new_dp) {
                    Ok(d) => Ok(Mto::Pattern(n, patt, d)),
                    Err(e) => Err(e),
                }
            },
            Mto::Nop => Ok(Mto::Nop),
            _ => Err(Error::Fatal("unexpected motion".to_owned())),
        }
    }

    /// Keystroke modifiers of the motion: none.
    pub fn to_modifiers(&self) -> (m: Modifiers)
        ensures
            m == (Modifiers { shift: false, control: false, alt: false }),
    {
        Modifiers::empty()
    }
}

/// Event argument specify the text operation.
#[derive(Debug, PartialEq, Eq)]
pub enum Opr {
    Change(usize, Mto),  // (n, motion-command)
    Delete(usize, Mto),  // (n, motion-command)
    Yank(usize, Mto),  // (n, motion-command)
    Swapcase(usize, Mto),  // (n, motion-command)
    Lowercase(usize, Mto),  // (n, motion-command)
    Uppercase(usize, Mto),  // (n, motion-command)
    Filter(usize, Mto),  // (n, motion-command)
    Equal(usize, Mto),  // (n, motion-command)
    Format(usize, Mto),  // (n, motion-command)
    Encode(usize, Mto),  // (n, motion-command)
    RShift(usize, Mto),  // (n, motion-command)
    LShift(usize, Mto),  // (n, motion-command)
    Fold(usize, Mto),  // (n, motion-command)
    Func(usize, Mto),  // (n, motion-command)
}

impl Clone for Opr {
    fn clone(&self) -> (res: Opr)
        ensures
            res == *self,
    {
        match self {
            Opr::Change(n, mto) => Opr::Change(*n, mto.clone()),
            Opr::Delete(n, mto) => Opr::Delete(*n, mto.clone()),
            Opr::Yank(n, mto) => Opr::Yank(*n, mto.clone()),
            Opr::Swapcase(n, mto) => Opr::Swapcase(*n, mto.clone()),
            Opr::Lowercase(n, mto) => Opr::Lowercase(*n, mto.clone()),
            Opr::Uppercase(n, mto) => Opr::Uppercase(*n, mto.clone()),
            Opr::Filter(n, mto) => Opr::Filter(*n, mto.clone()),
            Opr::Equal(n, mto) => Opr::Equal(*n, mto.clone()),
            Opr::Format(n, mto) => Opr::Format(*n, mto.clone()),
            Opr::Encode(n, mto) => Opr::Encode(*n, mto.clone()),
            Opr::RShift(n, mto) => Opr::RShift(*n, mto.clone()),
            Opr::LShift(n, mto) => Opr::LShift(*n, mto.clone()),
            Opr::Fold(n, mto) => Opr::Fold(*n, mto.clone()),
            Opr::Func(n, mto) => Opr::Func(*n, mto.clone()),
        }
    }
}

impl Opr {
    /// Keystroke modifiers of the operation: none.
    pub fn to_modifiers(&self) -> (m: Modifiers)
        ensures
            m == (Modifiers { shift: false, control: false, alt: false }),
    {
        Modifiers::empty()
    }
}

/// Modal command.
#[derive(Clone, Copy, Debug, PartialEq, Eq, Structural)]
pub enum Mod {
    Esc,
    Insert(usize, DP),  // (n, Nope/TextCol)
    Append(usize, DP),  // (n, Right/End)
    Replace(usize, DP),  // (n, Nope/TextCol)
    Open(usize, DP),  // (n, Left/Right)
}

impl Mod {
    /// Keystroke modifiers of the command: none.
    pub fn to_modifiers(&self) -> (m: Modifiers)
        ensures
            m == (Modifiers { shift: false, control: false, alt: false }),
    {
        Modifiers::empty()
    }
}

/// Insert command.
#[derive(Clone, Copy, Debug, PartialEq, Eq, Structural)]
pub enum Cud {
    Backspace(usize),  // remove n chars before cursor
    Delete(usize),  // remove n chars forward from cursor.
    Tab(usize),  // insert tab/spaces
    Enter(usize),  // insert newline(s)
    Char(char),  // insert char
    ReInsert,
    RemoveWord,
    RemoveLine,
    NextWord,
    PrevWord,
    RShift(usize),  // (n,)
    LShift(usize),  // (n,)
}

impl Cud {
    /// Keystroke modifiers of the command: none.
    pub fn to_modifiers(&self) -> (m: Modifiers)
        ensures
            m == (Modifiers { shift: false, control: false, alt: false }),
    {
        Modifiers::empty()
    }
}

/// Event argument, specify the edit operation performed in buffer.
#[derive(Debug, PartialEq, Eq)]
pub enum Edit {
    /// Insert new `txt` into buffer at `cursor`.
    Ins { cursor: usize, txt: String },
    /// Delete `txt` found at `cursor`.
    Del { cursor: usize, txt: String },
    /// Replace `oldt` found at `cursor` with `newt`.
    Chg { cursor: usize, oldt: String, newt: String },
}

impl Clone for Edit {
    fn clone(&self) -> (res: Edit)
        ensures
            res == *self,
    {
        match self {
            Edit::Ins { cursor, txt } => Edit::Ins { cursor: *cursor, txt: txt.clone() },
            Edit::Del { cursor, txt } => Edit::Del { cursor: *cursor, txt: txt.clone() },
            Edit::Chg { cursor, oldt, newt } => Edit::Chg {
                cursor: *cursor,
                oldt: oldt.clone(),
                newt: newt.clone(),
            },
        }
    }
}

/// Events
#[derive(Debug, PartialEq, Eq)]
pub enum Event {
    // Direct key events
    Backspace(Modifiers),
    Enter(Modifiers),
    Tab(Modifiers),
    Delete(Modifiers),
    Char(char, Modifiers),
    FKey(u8, Modifiers),
    InsKey(Modifiers),
    Left(Modifiers),
    Right(Modifiers),
    Up(Modifiers),
    Down(Modifiers),
    Home(Modifiers),
    End(Modifiers),
    PageUp(Modifiers),
    PageDown(Modifiers),
    BackTab,
    Esc,
    // prefix events
    N(usize),  // Num-prefix (n,)
    G(usize),  // Global     (n,)
    B(usize, DP),  // Bracket    (n, Left/Right)
    F(usize, DP),  // Find-char  (n, Left/Right)
    T(usize, DP),  // Till-char  (n, Left/Right)
    J(char),  // jump prefix (['`],)
    Z(usize),  // scroll prefix (n,)
    M,  // mark prefix
    Op(Opr),  // Operation  (op-event)
    // folded events for buffer management.
    Mt(Mto),  // Motion     (n, motion-event)
    Md(Mod),  // modal command.
    Wr(Cud),  // insert command.
    TabInsert(String),
    TabClear,
    // other events
    JumpFrom(usize),  // (cursor,)
    // local events
    Edit(Edit),
    Noop,
}

impl Clone for Event {
    fn clone(&self) -> (res: Event)
        ensures
            res == *self,
    {
        match self {
            Event::Backspace(m) => Event::Backspace(*m),
            Event::Enter(m) => Event::Enter(*m),
            Event::Tab(m) => Event::Tab(*m),
            Event::Delete(m) => Event::Delete(*m),
            Event::Char(ch, m) => Event::Char(*ch, *m),
            Event::FKey(k, m) => Event::FKey(*k, *m),
            Event::InsKey(m) => Event::InsKey(*m),
            Event::Left(m) => Event::Left(*m),
            Event::Right(m) => Event::Right(*m),
            Event::Up(m) => Event::Up(*m),
            Event::Down(m) => Event::Down(*m),
            Event::Home(m) => Event::Home(*m),
            Event::End(m) => Event::End(*m),
            Event::PageUp(m) => Event::PageUp(*m),
            Event::PageDown(m) => Event::PageDown(*m),
            Event::BackTab => Event::BackTab,
            Event::Esc => Event::Esc,
            Event::N(n) => Event::N(*n),
            Event::G(n) => Event::G(*n),
            Event::B(n, dp) => Event::B(*n, *dp),
            Event::F(n, dp) => Event::F(*n, *dp),
            Event::T(n, dp) => Event::T(*n, *dp),
            Event::J(ch) => Event::J(*ch),
            Event::Z(n) => Event::Z(*n),
            Event::M => Event::M,
            Event::Op(opr) => Event::Op(opr.clone()),
            Event::Mt(mto) => Event::Mt(mto.clone()),
            Event::Md(md) => Event::Md(*md),
            Event::Wr(cud) => Event::Wr(*cud),
            Event::TabInsert(txt) => Event::TabInsert(txt.clone()),
            Event::TabClear => Event::TabClear,
            Event::JumpFrom(cursor) => Event::JumpFrom(*cursor),
            Event::Edit(edit) => Event::Edit(edit.clone()),
            Event::Noop => Event::Noop,
        }
    }
}

impl Default for Event {
    fn default() -> (e: Event)
        ensures
            e == Event::Noop,
    {
        Event::Noop
    }
}

impl Event {
    /// The modifiers that came with a key event; none for any other event.
    pub open spec fn modifiers(&self) -> Modifiers {
        match self {
            Event::Backspace(m) | Event::Enter(m) | Event::Tab(m) | Event::Delete(m) => *m,
            Event::Char(_, m) | Event::FKey(_, m) | Event::InsKey(m) => *m,
            Event::Left(m) | Event::Right(m) | Event::Up(m) | Event::Down(m) => *m,
            Event::Home(m) | Event::End(m) | Event::PageUp(m) | Event::PageDown(m) => *m,
            _ => Modifiers { shift: false, control: false, alt: false },
        }
    }

    /// Return the keystroke modifiers like ctrl, alt, etc.. or empty if the
    /// keystore do not contain any modifiers.
    pub fn to_modifiers(&self) -> (m: Modifiers)
        ensures
            m == self.modifiers(),
    {
        match self {
            Event::Backspace(m) | Event::Enter(m) | Event::Tab(m) | Event::Delete(m) => *m,
            Event::Char(_, m) | Event::FKey(_, m) | Event::InsKey(m) => *m,
            Event::Left(m) | Event::Right(m) | Event::Up(m) | Event::Down(m) => *m,
            Event::Home(m) | Event::End(m) | Event::PageUp(m) | Event::PageDown(m) => *m,
            Event::Op(opr) => opr.to_modifiers(),
            Event::Md(md) => md.to_modifiers(),
            Event::Mt(mto) => mto.to_modifiers(),
            Event::Wr(cud) => cud.to_modifiers(),
            _ => Modifiers::empty(),
        }
    }

    /// Return whether control modifier is part of the keystroke.
    pub fn is_control(&self) -> (b: bool)
        ensures
            b == match self {
                Event::FKey(_, m) => m.control,
                Event::Char(_, m) => m.control,
                _ => false,
            },
    {
        match self {
            Event::FKey(_, m) => m.control,
            Event::Char(_, m) => m.control,
            _ => false,
        }
    }

    /// The repeat count of an event that enters insert mode.
    pub open spec fn insert_count(&self) -> Option<usize> {
        match self {
            Event::Md(Mod::Insert(n, _)) => Some(*n),
            Event::Md(Mod::Append(n, _)) => Some(*n),
            Event::Md(Mod::Open(n, _)) => Some(*n),
            _ => None,
        }
    }

    /// Return whether the event is to enter insert/append/open/replace mode.
    /// In short, whether shift to insert-mode.
    pub fn is_insert(&self) -> (b: bool)
        ensures
            b == self.insert_count().is_some(),
    {
        match self {
            Event::Md(Mod::Insert(_, _)) | Event::Md(Mod::Append(_, _)) | Event::Md(
                Mod::Open(_, _),
            ) => true,
            _ => false,
        }
    }

    /// Whether an insert session made of such events can be repeated: the
    /// event puts in a character, a newline or a tab, or takes a character
    /// out.
    pub open spec fn is_replayable(&self) -> bool {
        match self {
            Event::Backspace(_) | Event::Delete(_) => true,
            Event::Char(_, _) | Event::Enter(_) | Event::Tab(_) => true,
            _ => false,
        }
    }

    /// Whether an insert session made of such events can be repeated.
    pub fn can_replay(&self) -> (b: bool)
        ensures
            b == self.is_replayable(),
    {
        match self {
            Event::Backspace(_) | Event::Delete(_) => true,
            Event::Char(_, _) | Event::Enter(_) | Event::Tab(_) => true,
            _ => false,
        }
    }
}

} // verus!
