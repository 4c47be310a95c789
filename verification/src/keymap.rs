//! Keys of Normal mode folded into commands: a count before a key, and keys
//! that wait for a second one.

use vstd::prelude::*;
use crate::buffer::{Buffer, Mode};
use crate::event::{Event, Mod, Mto, Opr, DP};
use crate::Error;

verus! {

/// The digit that a character stands for.
pub open spec fn digit_of(ch: char) -> Option<usize> {
    match ch {
        '0' => Some(0usize),
        '1' => Some(1usize),
        '2' => Some(2usize),
        '3' => Some(3usize),
        '4' => Some(4usize),
        '5' => Some(5usize),
        '6' => Some(6usize),
        '7' => Some(7usize),
        '8' => Some(8usize),
        '9' => Some(9usize),
        _ => None,
    }
}

/// The count `n` with the digit `d` written behind it, or the greatest
/// count if the machine cannot hold that.
pub open spec fn with_digit(n: usize, d: usize) -> usize {
    if n * 10 + d <= usize::MAX {
        (n * 10 + d) as usize
    } else {
        usize::MAX
    }
}

/// The product of two counts, or the greatest count if the machine cannot
/// hold it.
pub open spec fn times(n: usize, m: usize) -> usize {
    if n * m <= usize::MAX {
        (n * m) as usize
    } else {
        usize::MAX
    }
}

/// The command that the key `ch` gives with the count `n`, if it gives one
/// by itself.
pub open spec fn key_command(n: usize, ch: char) -> Option<Event> {
    match ch {
        // motion command - characterwise
        'h' => Some(Event::Mt(Mto::Left(n, DP::LineBound))),
        ' ' => Some(Event::Mt(Mto::Right(n, DP::Nobound))),
        'l' => Some(Event::Mt(Mto::Right(n, DP::LineBound))),
        '0' => Some(Event::Mt(Mto::LineHome(DP::Nope))),
        '^' => Some(Event::Mt(Mto::LineHome(DP::TextCol))),
        '$' => Some(Event::Mt(Mto::LineEnd(n, DP::Nope))),
        '|' => Some(Event::Mt(Mto::Col(n))),
        ';' => Some(Event::Mt(Mto::CharR(n, DP::Right))),
        ',' => Some(Event::Mt(Mto::CharR(n, DP::Left))),
        // motion command - linewise
        '-' => Some(Event::Mt(Mto::Up(n, DP::TextCol))),
        'k' => Some(Event::Mt(Mto::Up(n, DP::Nope))),
        'j' => Some(Event::Mt(Mto::Down(n, DP::Nope))),
        '+' => Some(Event::Mt(Mto::Down(n, DP::TextCol))),
        'G' => Some(Event::Mt(Mto::Row(n, DP::TextCol))),
        '%' => Some(Event::Mt(Mto::Percent(n, DP::TextCol))),
        // motion command - by word, sentence and paragraph
        'b' => Some(Event::Mt(Mto::Word(n, DP::Left, DP::Start))),
        'B' => Some(Event::Mt(Mto::WWord(n, DP::Left, DP::Start))),
        'e' => Some(Event::Mt(Mto::Word(n, DP::Right, DP::End))),
        'E' => Some(Event::Mt(Mto::WWord(n, DP::Right, DP::End))),
        'w' => Some(Event::Mt(Mto::Word(n, DP::Right, DP::Start))),
        'W' => Some(Event::Mt(Mto::WWord(n, DP::Right, DP::Start))),
        '{' => Some(Event::Mt(Mto::Para(n, DP::Left))),
        '}' => Some(Event::Mt(Mto::Para(n, DP::Right))),
        '(' => Some(Event::Mt(Mto::Sentence(n, DP::Left))),
        ')' => Some(Event::Mt(Mto::Sentence(n, DP::Right))),
        'n' => Some(Event::Mt(Mto::PatternR(n, DP::Right))),
        'N' => Some(Event::Mt(Mto::PatternR(n, DP::Left))),
        // modal commands
        'I' => Some(Event::Md(Mod::Insert(n, DP::TextCol))),
        'i' => Some(Event::Md(Mod::Insert(n, DP::Nope))),
        'a' => Some(Event::Md(Mod::Append(n, DP::Right))),
        'A' => Some(Event::Md(Mod::Append(n, DP::End))),
        'O' => Some(Event::Md(Mod::Open(n, DP::Left))),
        'o' => Some(Event::Md(Mod::Open(n, DP::Right))),
        _ => None,
    }
}

/// The prefix that the key `ch` opens with the count `n`, if it is a key
/// that waits for another one.
pub open spec fn key_prefix(n: usize, ch: char) -> Option<Event> {
    match ch {
        '[' => Some(Event::B(n, DP::Left)),
        ']' => Some(Event::B(n, DP::Right)),
        'g' => Some(Event::G(n)),
        'f' => Some(Event::F(n, DP::Right)),
        'F' => Some(Event::F(n, DP::Left)),
        't' => Some(Event::T(n, DP::Right)),
        'T' => Some(Event::T(n, DP::Left)),
        // operation prefix
        'c' => Some(Event::Op(Opr::Change(n, Mto::Nop))),
        'd' => Some(Event::Op(Opr::Delete(n, Mto::Nop))),
        'y' => Some(Event::Op(Opr::Yank(n, Mto::Nop))),
        '~' => Some(Event::Op(Opr::Swapcase(n, Mto::Nop))),
        '!' => Some(Event::Op(Opr::Filter(n, Mto::Nop))),
        '=' => Some(Event::Op(Opr::Equal(n, Mto::Nop))),
        '<' => Some(Event::Op(Opr::LShift(n, Mto::Nop))),
        '>' => Some(Event::Op(Opr::RShift(n, Mto::Nop))),
        _ => None,
    }
}

/// What follows the prefix `g` with the count `n`: a command, or the prefix
/// of an operation.
pub open spec fn global_key(n: usize, ch: char) -> Option<(Event, Event)> {
    match ch {
        'g' => Some((Event::Noop, Event::Mt(Mto::Row(n, DP::TextCol)))),
        'e' => Some((Event::Noop, Event::Mt(Mto::Word(n, DP::Left, DP::End)))),
        'E' => Some((Event::Noop, Event::Mt(Mto::WWord(n, DP::Left, DP::End)))),
        'o' => Some((Event::Noop, Event::Mt(Mto::Cursor(n)))),
        'I' => Some((Event::Noop, Event::Md(Mod::Insert(n, DP::TextCol)))),
        // operation prefix
        '~' => Some((Event::Op(Opr::Swapcase(n, Mto::Nop)), Event::Noop)),
        'u' => Some((Event::Op(Opr::Lowercase(n, Mto::Nop)), Event::Noop)),
        'U' => Some((Event::Op(Opr::Uppercase(n, Mto::Nop)), Event::Noop)),
        'w' => Some((Event::Op(Opr::Format(n, Mto::Nop)), Event::Noop)),
        '?' => Some((Event::Op(Opr::Encode(n, Mto::Nop)), Event::Noop)),
        '@' => Some((Event::Op(Opr::Func(n, Mto::Nop)), Event::Noop)),
        _ => None,
    }
}

/// The bracket motion that follows the prefix `[` or `]`: to the `n`-th
/// open round or curly bracket that is not closed on the way, in direction
/// `d`.
pub open spec fn bracket_key(n: usize, d: DP, ch: char) -> Option<Event> {
    match ch {
        '(' | ')' => Some(Event::Mt(Mto::Bracket(n, '(', ')', d))),
        '{' | '}' => Some(Event::Mt(Mto::Bracket(n, '{', '}', d))),
        _ => None,
    }
}

/// The new prefix and the command that an event gives when no prefix but a
/// count is open. `given` says whether a count was typed; without one the
/// count is 1 and the key `0` is a command.
pub open spec fn counted(n: usize, given: bool, evnt: Event) -> (Event, Event) {
    match evnt {
        Event::Backspace(_) => (Event::Noop, Event::Mt(Mto::Left(n, DP::Nobound))),
        Event::Enter(_) => (Event::Noop, Event::Mt(Mto::Down(n, DP::TextCol))),
        Event::Md(Mod::Insert(m, p)) => (Event::Noop, Event::Md(Mod::Insert(times(n, m), p))),
        Event::Char(ch, _) => match digit_of(ch) {
            Some(d) => if given {
                (Event::N(with_digit(n, d)), Event::Noop)
            } else if d > 0 {
                (Event::N(d), Event::Noop)
            } else {
                (Event::Noop, Event::Mt(Mto::LineHome(DP::Nope)))
            },
            None => match key_command(n, ch) {
                Some(cmd) => (Event::Noop, cmd),
                None => match key_prefix(n, ch) {
                    Some(prefix) => (prefix, Event::Noop),
                    None => (Event::Noop, evnt),
                },
            },
        },
        _ => (Event::Noop, evnt),
    }
}

/// The new prefix and the command that an event gives behind the prefix
/// `prefix`. An event with a modifier is not folded: it goes on as it is and
/// the prefix stays. A count is made up digit by digit. The prefix `g` is
/// followed by one of its keys, `[` and `]` by a bracket, `f`, `F`, `t` and
/// `T` by the character to look for. The prefix of an operation takes the
/// motion that the next key gives. Any key that does not fit its prefix
/// goes on as it is and closes the prefix.
pub open spec fn folded(prefix: Event, evnt: Event) -> (Event, Event) {
    let m = evnt.modifiers();
    if m.shift || m.control || m.alt {
        (prefix, evnt)
    } else {
        match prefix {
            Event::Noop => counted(1, false, evnt),
            Event::N(n) => counted(n, true, evnt),
            Event::G(n) => match evnt {
                Event::Char(ch, _) => match global_key(n, ch) {
                    Some(pair) => pair,
                    None => (Event::Noop, evnt),
                },
                _ => (Event::Noop, evnt),
            },
            Event::B(n, d) => match evnt {
                Event::Char(ch, _) => match bracket_key(n, d, ch) {
                    Some(cmd) => (Event::Noop, cmd),
                    None => (Event::Noop, evnt),
                },
                _ => (Event::Noop, evnt),
            },
            Event::F(n, d) => match evnt {
                Event::Char(ch, _) => (Event::Noop, Event::Mt(Mto::CharF(n, Some(ch), d))),
                _ => (Event::Noop, evnt),
            },
            Event::T(n, d) => match evnt {
                Event::Char(ch, _) => (Event::Noop, Event::Mt(Mto::CharT(n, Some(ch), d))),
                _ => (Event::Noop, evnt),
            },
            Event::Op(opr) => match counted(1, false, evnt).1 {
                Event::Mt(mto) => (Event::Noop, Event::Op(opr.with_motion(mto))),
                _ => (Event::Noop, evnt),
            },
            _ => (prefix, evnt),
        }
    }
}

impl Opr {
    /// The operation over the motion `mto`.
    pub open spec fn with_motion(self, mto: Mto) -> Opr {
        match self {
            Opr::Change(n, _) => Opr::Change(n, mto),
            Opr::Delete(n, _) => Opr::Delete(n, mto),
            Opr::Yank(n, _) => Opr::Yank(n, mto),
            Opr::Swapcase(n, _) => Opr::Swapcase(n, mto),
            Opr::Lowercase(n, _) => Opr::Lowercase(n, mto),
            Opr::Uppercase(n, _) => Opr::Uppercase(n, mto),
            Opr::Filter(n, _) => Opr::Filter(n, mto),
            Opr::Equal(n, _) => Opr::Equal(n, mto),
            Opr::Format(n, _) => Opr::Format(n, mto),
            Opr::Encode(n, _) => Opr::Encode(n, mto),
            Opr::RShift(n, _) => Opr::RShift(n, mto),
            Opr::LShift(n, _) => Opr::LShift(n, mto),
            Opr::Fold(n, _) => Opr::Fold(n, mto),
            Opr::Func(n, _) => Opr::Func(n, mto),
        }
    }

    /// The operation over the motion `mto`.
    pub fn set_motion(self, mto: Mto) -> (opr: Opr)
        ensures
            opr == self.with_motion(mto),
    {
        match self {
            Opr::Change(n, _) => Opr::Change(n, mto),
            Opr::Delete(n, _) => Opr::Delete(n, mto),
            Opr::Yank(n, _) => Opr::Yank(n, mto),
            Opr::Swapcase(n, _) => Opr::Swapcase(n, mto),
            Opr::Lowercase(n, _) => Opr::Lowercase(n, mto),
            Opr::Uppercase(n, _) => Opr::Uppercase(n, mto),
            Opr::Filter(n, _) => Opr::Filter(n, mto),
            Opr::Equal(n, _) => Opr::Equal(n, mto),
            Opr::Format(n, _) => Opr::Format(n, mto),
            Opr::Encode(n, _) => Opr::Encode(n, mto),
            Opr::RShift(n, _) => Opr::RShift(n, mto),
            Opr::LShift(n, _) => Opr::LShift(n, mto),
            Opr::Fold(n, _) => Opr::Fold(n, mto),
            Opr::Func(n, _) => Opr::Func(n, mto),
        }
    }
}

/// The state of the keymap: the prefix that is open, `Noop` if none is.
pub struct KeyEdit {
    pub(crate) prefix: Event,
}

impl View for KeyEdit {
    type V = Event;

    open(crate) spec fn view(&self) -> Event {
        self.prefix
    }
}

impl Default for KeyEdit {
    fn default() -> (k: KeyEdit)
        ensures
            k@ == Event::Noop,
    {
        KeyEdit { prefix: Event::Noop }
    }
}

impl KeyEdit {
    /// Folds an event into the command that it gives behind the open
    /// prefix. In Insert mode nothing is folded.
    pub fn fold(&mut self, buf: &Buffer, evnt: Event) -> (res: Result<Event, Error>)
        ensures
            buf@.mode == Mode::Insert ==> res == Ok::<Event, Error>(evnt) && final(self)@ == old(
                self,
            )@,
            buf@.mode == Mode::Normal ==> res == Ok::<Event, Error>(folded(old(self)@, evnt).1)
                && final(self)@ == folded(old(self)@, evnt).0,
    {
        match buf.mode {
            Mode::Insert => self.insert_fold(evnt),
            Mode::Normal => self.normal_fold(evnt),
        }
    }

    fn insert_fold(&mut self, e: Event) -> (res: Result<Event, Error>)
        ensures
            res == Ok::<Event, Error>(e),
            final(self)@ == old(self)@,
    {
        Ok(e)
    }

    fn normal_fold(&mut self, evnt: Event) -> (res: Result<Event, Error>)
        ensures
            res == Ok::<Event, Error>(folded(old(self)@, evnt).1),
            final(self)@ == folded(old(self)@, evnt).0,
    {
        if !evnt.to_modifiers().is_empty() {
            return Ok(evnt);
        }
        let mut prefix = Event::Noop;
        std::mem::swap(&mut self.prefix, &mut prefix);
        let (prefix, evnt) = match prefix {
            Event::Noop => fold_counted(1, false, evnt),
            Event::N(n) => fold_counted(n, true, evnt),
            Event::G(n) => match evnt {
                Event::Char(ch, m) => match to_global_key(n, ch) {
                    Some(pair) => pair,
                    None => (Event::Noop, Event::Char(ch, m)),
                },
                evnt => (Event::Noop, evnt),
            },
            Event::B(n, d) => match evnt {
                Event::Char(ch, m) => match to_bracket_key(n, d, ch) {
                    Some(cmd) => (Event::Noop, cmd),
                    None => (Event::Noop, Event::Char(ch, m)),
                },
                evnt => (Event::Noop, evnt),
            },
            Event::F(n, d) => match evnt {
                Event::Char(ch, _) => (Event::Noop, Event::Mt(Mto::CharF(n, Some(ch), d))),
                evnt => (Event::Noop, evnt),
            },
            Event::T(n, d) => match evnt {
                Event::Char(ch, _) => (Event::Noop, Event::Mt(Mto::CharT(n, Some(ch), d))),
                evnt => (Event::Noop, evnt),
            },
            Event::Op(opr) => match fold_counted(1, false, evnt.clone()).1 {
                Event::Mt(mto) => (Event::Noop, Event::Op(opr.set_motion(mto))),
                _ => (Event::Noop, evnt),
            },
            prefix => (prefix, evnt),
        };
        self.prefix = prefix;
        Ok(evnt)
    }
}

/// The digit that a character stands for.
fn to_digit(ch: char) -> (d: Option<usize>)
    ensures
        d == digit_of(ch),
{
    match ch {
        '0' => Some(0),
        '1' => Some(1),
        '2' => Some(2),
        '3' => Some(3),
        '4' => Some(4),
        '5' => Some(5),
        '6' => Some(6),
        '7' => Some(7),
        '8' => Some(8),
        '9' => Some(9),
        _ => None,
    }
}

/// The count `n` with the digit `d` behind it.
fn push_digit(n: usize, d: usize) -> (m: usize)
    requires
        d <= 9,
    ensures
        m == with_digit(n, d),
{
    if n <= (usize::MAX - d) / 10 {
        n * 10 + d
    } else {
        usize::MAX
    }
}

/// The product of two counts.
fn multiply(n: usize, m: usize) -> (p: usize)
    ensures
        p == times(n, m),
{
    match n.checked_mul(m) {
        Some(p) => p,
        None => usize::MAX,
    }
}

/// The command of a key, see `key_command`.
fn to_key_command(n: usize, ch: char) -> (cmd: Option<Event>)
    ensures
        cmd == key_command(n, ch),
{
    match ch {
        // motion command - characterwise
        'h' => Some(Event::Mt(Mto::Left(n, DP::LineBound))),
        ' ' => Some(Event::Mt(Mto::Right(n, DP::Nobound))),
        'l' => Some(Event::Mt(Mto::Right(n, DP::LineBound))),
        '0' => Some(Event::Mt(Mto::LineHome(DP::Nope))),
        '^' => Some(Event::Mt(Mto::LineHome(DP::TextCol))),
        '$' => Some(Event::Mt(Mto::LineEnd(n, DP::Nope))),
        '|' => Some(Event::Mt(Mto::Col(n))),
        ';' => Some(Event::Mt(Mto::CharR(n, DP::Right))),
        ',' => Some(Event::Mt(Mto::CharR(n, DP::Left))),
        // motion command - linewise
        '-' => Some(Event::Mt(Mto::Up(n, DP::TextCol))),
        'k' => Some(Event::Mt(Mto::Up(n, DP::Nope))),
        'j' => Some(Event::Mt(Mto::Down(n, DP::Nope))),
        '+' => Some(Event::Mt(Mto::Down(n, DP::TextCol))),
        'G' => Some(Event::Mt(Mto::Row(n, DP::TextCol))),
        '%' => Some(Event::Mt(Mto::Percent(n, DP::TextCol))),
        // motion command - by word, sentence and paragraph
        'b' => Some(Event::Mt(Mto::Word(n, DP::Left, DP::Start))),
        'B' => Some(Event::Mt(Mto::WWord(n, DP::Left, DP::Start))),
        'e' => Some(Event::Mt(Mto::Word(n, DP::Right, DP::End))),
        'E' => Some(Event::Mt(Mto::WWord(n, DP::Right, DP::End))),
        'w' => Some(Event::Mt(Mto::Word(n, DP::Right, DP::Start))),
        'W' => Some(Event::Mt(Mto::WWord(n, DP::Right, DP::Start))),
        '{' => Some(Event::Mt(Mto::Para(n, DP::Left))),
        '}' => Some(Event::Mt(Mto::Para(n, DP::Right))),
        '(' => Some(Event::Mt(Mto::Sentence(n, DP::Left))),
        ')' => Some(Event::Mt(Mto::Sentence(n, DP::Right))),
        'n' => Some(Event::Mt(Mto::PatternR(n, DP::Right))),
        'N' => Some(Event::Mt(Mto::PatternR(n, DP::Left))),
        // modal commands
        'I' => Some(Event::Md(Mod::Insert(n, DP::TextCol))),
        'i' => Some(Event::Md(Mod::Insert(n, DP::Nope))),
        'a' => Some(Event::Md(Mod::Append(n, DP::Right))),
        'A' => Some(Event::Md(Mod::Append(n, DP::End))),
        'O' => Some(Event::Md(Mod::Open(n, DP::Left))),
        'o' => Some(Event::Md(Mod::Open(n, DP::Right))),
        _ => None,
    }
}

/// The prefix of a key, see `key_prefix`.
fn to_key_prefix(n: usize, ch: char) -> (prefix: Option<Event>)
    ensures
        prefix == key_prefix(n, ch),
{
    match ch {
        '[' => Some(Event::B(n, DP::Left)),
        ']' => Some(Event::B(n, DP::Right)),
        'g' => Some(Event::G(n)),
        'f' => Some(Event::F(n, DP::Right)),
        'F' => Some(Event::F(n, DP::Left)),
        't' => Some(Event::T(n, DP::Right)),
        'T' => Some(Event::T(n, DP::Left)),
        // operation prefix
        'c' => Some(Event::Op(Opr::Change(n, Mto::Nop))),
        'd' => Some(Event::Op(Opr::Delete(n, Mto::Nop))),
        'y' => Some(Event::Op(Opr::Yank(n, Mto::Nop))),
        '~' => Some(Event::Op(Opr::Swapcase(n, Mto::Nop))),
        '!' => Some(Event::Op(Opr::Filter(n, Mto::Nop))),
        '=' => Some(Event::Op(Opr::Equal(n, Mto::Nop))),
        '<' => Some(Event::Op(Opr::LShift(n, Mto::Nop))),
        '>' => Some(Event::Op(Opr::RShift(n, Mto::Nop))),
        _ => None,
    }
}

/// What follows the prefix `g`, see `global_key`.
fn to_global_key(n: usize, ch: char) -> (pair: Option<(Event, Event)>)
    ensures
        pair == global_key(n, ch),
{
    match ch {
        'g' => Some((Event::Noop, Event::Mt(Mto::Row(n, DP::TextCol)))),
        'e' => Some((Event::Noop, Event::Mt(Mto::Word(n, DP::Left, DP::End)))),
        'E' => Some((Event::Noop, Event::Mt(Mto::WWord(n, DP::Left, DP::End)))),
        'o' => Some((Event::Noop, Event::Mt(Mto::Cursor(n)))),
        'I' => Some((Event::Noop, Event::Md(Mod::Insert(n, DP::TextCol)))),
        // operation prefix
        '~' => Some((Event::Op(Opr::Swapcase(n, Mto::Nop)), Event::Noop)),
        'u' => Some((Event::Op(Opr::Lowercase(n, Mto::Nop)), Event::Noop)),
        'U' => Some((Event::Op(Opr::Uppercase(n, Mto::Nop)), Event::Noop)),
        'w' => Some((Event::Op(Opr::Format(n, Mto::Nop)), Event::Noop)),
        '?' => Some((Event::Op(Opr::Encode(n, Mto::Nop)), Event::Noop)),
        '@' => Some((Event::Op(Opr::Func(n, Mto::Nop)), Event::Noop)),
        _ => None,
    }
}

/// The bracket motion behind `[` or `]`, see `bracket_key`.
fn to_bracket_key(n: usize, d: DP, ch: char) -> (cmd: Option<Event>)
    ensures
        cmd == bracket_key(n, d, ch),
{
    match ch {
        '(' | ')' => Some(Event::Mt(Mto::Bracket(n, '(', ')', d))),
        '{' | '}' => Some(Event::Mt(Mto::Bracket(n, '{', '}', d))),
        _ => None,
    }
}

/// The new prefix and the command behind a count, see `counted`.
fn fold_counted(n: usize, given: bool, evnt: Event) -> (pair: (Event, Event))
    ensures
        pair == counted(n, given, evnt),
{
    match evnt {
        Event::Backspace(_) => (Event::Noop, Event::Mt(Mto::Left(n, DP::Nobound))),
        Event::Enter(_) => (Event::Noop, Event::Mt(Mto::Down(n, DP::TextCol))),
        Event::Md(Mod::Insert(m, p)) => (Event::Noop, Event::Md(Mod::Insert(multiply(n, m), p))),
        Event::Char(ch, m) => match to_digit(ch) {
            Some(d) => if given {
                (Event::N(push_digit(n, d)), Event::Noop)
            } else if d > 0 {
                (Event::N(d), Event::Noop)
            } else {
                (Event::Noop, Event::Mt(Mto::LineHome(DP::Nope)))
            },
            None => match to_key_command(n, ch) {
                Some(cmd) => (Event::Noop, cmd),
                None => match to_key_prefix(n, ch) {
                    Some(prefix) => (prefix, Event::Noop),
                    None => (Event::Noop, Event::Char(ch, m)),
                },
            },
        },
        evnt => (Event::Noop, evnt),
    }
}

} // verus!
