//! The two modes of a buffer and what an event does in each.

use vstd::prelude::*;
use crate::buffer::{Bound, Buffer, BufferView, Mode, StickyCol};
use crate::chars::NL;
use crate::event::{Event, Mod, Mto, DP};
use crate::motion::{
    char_step, column_step, cursor_step, down_step, left_bound, left_step, lemma_at, line_end_step,
    line_home_step, mto_char, mto_column, mto_cursor, mto_down, mto_left, mto_line_end,
    mto_line_home, mto_percent, mto_right, mto_row, mto_up, right_step, row_of_count,
    row_of_percent, row_step, up_step,
};
use crate::motion_text::{
    bracket_step, mto_bracket, mto_para, mto_sentence, mto_words, mto_wwords, para_step,
    sentence_step, word_motion_step, wword_motion_step,
};
use crate::scan::skip_blank_right;
use crate::search::{mto_pattern, pattern_step};
use crate::step::{conforms, Step};
use crate::text::{lemma_line_span, line_home, line_stop, min};
use crate::Error;

verus! {

/// What a key of an insert session does to the buffer: a character, a
/// newline or a tab is put in at the cursor, a backspace takes out the
/// character before the cursor and a delete the one under it, each in a new
/// head of the history. Any other event does nothing.
pub open spec fn typed(v: BufferView, evnt: Event) -> BufferView {
    match evnt {
        Event::Char(ch, _) => v.char_inserted(ch),
        Event::Enter(_) => v.char_inserted(NL),
        Event::Tab(_) => v.char_inserted('\t'),
        Event::Backspace(_) => v.backspaced(1),
        Event::Delete(_) => v.range_removed(
            BufferView::range_from(Bound::Included(v.cursor() as usize), v.text().len() as int),
            BufferView::range_to(Bound::Included(v.cursor() as usize), v.text().len() as int),
        ),
        _ => v,
    }
}

/// The buffer after the keys of `log` from index `i` on were typed.
pub open spec fn typed_from(v: BufferView, log: Seq<Event>, i: int) -> BufferView
    decreases log.len() - i,
{
    if 0 <= i < log.len() {
        typed_from(typed(v, log[i]), log, i + 1)
    } else {
        v
    }
}

/// The buffer after the keys of `log` were typed `times` times over.
pub open spec fn replayed(v: BufferView, log: Seq<Event>, times: nat) -> BufferView
    decreases times,
{
    if times == 0 {
        v
    } else {
        replayed(typed_from(v, log, 0), log, (times - 1) as nat)
    }
}

/// Whether an insert session with this log can be repeated: it holds
/// nothing but keys that put a character in or take one out.
pub open spec fn replayable(log: Seq<Event>) -> bool {
    forall|i: int| 0 <= i < log.len() ==> (#[trigger] log[i]).is_replayable()
}

/// What `Esc` does in Insert mode. The log of the session is cleared; if it
/// could be repeated, its keys are typed again as often as the repeat count
/// says; the count is set to 0; the cursor steps one to the left inside its
/// line; and the buffer is in Normal mode.
pub open spec fn escape_step(v: BufferView) -> Step {
    let log = v.last_inserts;
    let cleared = BufferView { last_inserts: Seq::empty(), ..v };
    let again = if replayable(log) {
        replayed(cleared, log, v.insert_repeat as nat)
    } else {
        cleared
    };
    let reset = BufferView { insert_repeat: 0, ..again };
    Step::done(
        reset.at(left_bound(reset.text(), reset.cursor(), 1)).stuck(StickyCol::Unset).in_mode(
            Mode::Normal,
        ),
    )
}

/// What an event does in Insert mode once it is in the log: the six motions
/// of that mode move the cursor, the keys of `typed` change the text, and
/// anything else goes back to the caller.
pub open spec fn applied(v: BufferView, evnt: Event) -> Step {
    match evnt {
        Event::Mt(Mto::Left(n, dp)) => left_step(v, n, dp),
        Event::Mt(Mto::Right(n, dp)) => right_step(v, n, dp),
        Event::Mt(Mto::Up(n, dp)) => up_step(v, n, dp),
        Event::Mt(Mto::Down(n, dp)) => down_step(v, n, dp),
        Event::Mt(Mto::LineHome(dp)) => line_home_step(v, dp),
        Event::Mt(Mto::LineEnd(n, dp)) => line_end_step(v, n, dp),
        Event::Char(_, _) | Event::Backspace(_) | Event::Enter(_) | Event::Tab(_) | Event::Delete(
            _,
        ) => Step::done(typed(v, evnt)),
        _ => Step::passed(v, evnt),
    }
}

/// What an event does in Insert mode. `Noop` does nothing and `Esc` ends
/// the session; every other event is written to the log of the session and
/// then applied.
pub open spec fn insert_step(v: BufferView, evnt: Event) -> Step {
    match evnt {
        Event::Noop => Step::done(v),
        Event::Esc => escape_step(v),
        _ => applied(BufferView { last_inserts: v.last_inserts.push(evnt), ..v }, evnt),
    }
}

/// The buffer in Insert mode after a command with a count above 0 to
/// insert, append or open a line. The count less one is kept for the repeat
/// of the session. `Insert` starts at the cursor, or for `TextCol` at the
/// first character of the line that is no white space. `Append` starts one
/// to the right, or for `End` right behind the last character of the line,
/// and never behind the newline. `Open` puts a newline in before the line
/// (`Left`) or behind it (`Right`) and starts on the empty line; with any
/// other qualifier it does nothing at all.
pub open spec fn entered(v: BufferView, md: Mod) -> BufferView {
    let text = v.text();
    let c = v.cursor();
    match md {
        Mod::Insert(n, pos) => {
            let r = BufferView { insert_repeat: (n - 1) as usize, ..v };
            if pos == DP::TextCol {
                r.at(skip_blank_right(text, line_home(text, c))).stuck(StickyCol::Unset).in_mode(
                    Mode::Insert,
                )
            } else {
                r.in_mode(Mode::Insert)
            }
        },
        Mod::Append(n, pos) => {
            let r = BufferView { insert_repeat: (n - 1) as usize, ..v };
            let target = if pos == DP::End {
                line_stop(text, c)
            } else {
                min(c + 1, line_stop(text, c))
            };
            r.at(target).stuck(StickyCol::Unset).in_mode(Mode::Insert)
        },
        Mod::Open(n, DP::Left) => {
            let r = BufferView { insert_repeat: (n - 1) as usize, ..v };
            let home = line_home(text, c);
            r.at(home).char_inserted(NL).at(home).stuck(StickyCol::Unset).in_mode(Mode::Insert)
        },
        Mod::Open(n, DP::Right) => {
            let r = BufferView { insert_repeat: (n - 1) as usize, ..v };
            r.at(line_stop(text, c)).char_inserted(NL).stuck(StickyCol::Unset).in_mode(
                Mode::Insert,
            )
        },
        _ => v,
    }
}

/// What a motion does in Normal mode. A search for a character or a pattern
/// is remembered before it is made, and `CharR` and `PatternR` make the
/// remembered search again, with the count and the direction of the repeat.
/// Motions of the screen, of windows and of marks are not for the buffer and
/// go back to the caller.
pub open spec fn motion_step(v: BufferView, m: Mto) -> Step {
    match m {
        Mto::Left(n, dp) => left_step(v, n, dp),
        Mto::Right(n, dp) => right_step(v, n, dp),
        Mto::LineHome(dp) => line_home_step(v, dp),
        Mto::LineEnd(n, dp) => line_end_step(v, n, dp),
        Mto::Col(n) => column_step(v, n),
        Mto::CharF(_, _, _) | Mto::CharT(_, _, _) => char_step(
            BufferView { mto_find_char: m, ..v },
            m,
        ),
        Mto::CharR(n, dir) => match v.mto_find_char.repeated(n, dir) {
            Some(e) => char_step(v, e),
            None => Step::fatal(v),
        },
        Mto::Row(n, dp) => row_step(v, row_of_count(v.text(), n as int), dp),
        Mto::Percent(n, _) => row_step(v, row_of_percent(v.text(), n as int), DP::TextCol),
        Mto::Cursor(n) => cursor_step(v, n),
        Mto::Up(n, dp) => up_step(v, n, dp),
        Mto::Down(n, dp) => down_step(v, n, dp),
        Mto::Word(_, _, _) => word_motion_step(v, m),
        Mto::WWord(_, _, _) => wword_motion_step(v, m),
        Mto::Sentence(_, _) => sentence_step(v, m),
        Mto::Para(_, _) => para_step(v, m),
        Mto::Bracket(_, _, _, _) => bracket_step(v, m),
        Mto::Pattern(_, Some(_), _) => pattern_step(BufferView { mto_pattern: m, ..v }, m),
        Mto::PatternR(n, dir) => match v.mto_pattern.repeated(n, dir) {
            Some(e) => pattern_step(v, e),
            None => Step::fatal(v),
        },
        _ => Step::passed(v, Event::Mt(m)),
    }
}

/// What an event does in Normal mode. A command with a count above 0 to
/// insert, append or open a line enters Insert mode; a motion moves the
/// cursor; `Noop` does nothing; anything else goes back to the caller.
pub open spec fn normal_step(v: BufferView, evnt: Event) -> Step {
    match evnt {
        Event::Md(md) => match evnt.insert_count() {
            Some(n) => if n > 0 {
                Step::done(entered(v, md))
            } else {
                Step::passed(v, evnt)
            },
            None => Step::passed(v, evnt),
        },
        Event::Noop => Step::done(v),
        Event::Mt(m) => motion_step(v, m),
        _ => Step::passed(v, evnt),
    }
}

/// What an event does to a buffer, by its mode.
pub open spec fn event_step(v: BufferView, evnt: Event) -> Step {
    match v.mode {
        Mode::Insert => insert_step(v, evnt),
        Mode::Normal => normal_step(v, evnt),
    }
}

impl Buffer {
    /// Handles an event in the mode that the buffer is in, and returns what
    /// is left of it for the caller: `Noop` if the buffer used the event up,
    /// the event itself if it is not for the buffer.
    pub fn on_event(&mut self, evnt: Event) -> (res: Result<Event, Error>)
        requires
            old(self)@.wf(),
        ensures
            final(self)@.wf(),
            conforms(final(self)@, res, event_step(old(self)@, evnt)),
            old(self)@.is_modified() ==> final(self)@.is_modified(),
            old(self)@.mode == Mode::Insert && evnt.is_replayable() ==> final(self)@.is_modified(),
    {
        match self.mode {
            Mode::Insert => self.handle_i_event(evnt),
            Mode::Normal => self.handle_n_event(evnt),
        }
    }

    /// Types one key of an insert session.
    pub fn type_event(&mut self, evnt: &Event)
        requires
            old(self)@.wf(),
        ensures
            final(self)@.wf(),
            final(self)@ == typed(old(self)@, *evnt),
            old(self)@.is_modified() ==> final(self)@.is_modified(),
            evnt.is_replayable() ==> final(self)@.is_modified(),
    {
        match evnt {
            Event::Char(ch, _) => self.cmd_insert_char(*ch),
            Event::Enter(_) => self.cmd_insert_char(NL),
            Event::Tab(_) => self.cmd_insert_char('\t'),
            Event::Backspace(_) => self.cmd_backspace(1),
            Event::Delete(_) => {
                let from = Bound::Included(self.to_char_cursor());
                let to = from;
                self.cmd_remove_at(from, to)
            },
            _ => {},
        }
    }

    fn handle_n_event(&mut self, evnt: Event) -> (res: Result<Event, Error>)
        requires
            old(self)@.wf(),
        ensures
            final(self)@.wf(),
            conforms(final(self)@, res, normal_step(old(self)@, evnt)),
            old(self)@.is_modified() ==> final(self)@.is_modified(),
    {
        // try switching to insert mode, if event is insert command.
        match Self::to_insert_n(&evnt) {
            Some(0) | None => (),
            _ => {
                let evnt = self.ex_n_insert(evnt);
                return self.handle_i_event(evnt);
            },
        };
        match evnt {
            Event::Noop => Ok(Event::Noop),
            Event::Mt(m) => self.ex_n_motion(m),
            evnt => Ok(evnt),
        }
    }

    /// A motion in Normal mode: by character, column or line here, any
    /// other in `ex_n_search`.
    fn ex_n_motion(&mut self, m: Mto) -> (res: Result<Event, Error>)
        requires
            old(self)@.wf(),
        ensures
            final(self)@.wf(),
            conforms(final(self)@, res, motion_step(old(self)@, m)),
            old(self)@.is_modified() ==> final(self)@.is_modified(),
    {
        proof {
            lemma_motion_keeps_text(self@, m);
        }
        match m {
            // motion command - characterwise.
            Mto::Left(n, dp) => mto_left(self, n, dp),
            Mto::Right(n, dp) => mto_right(self, n, dp),
            Mto::LineHome(dp) => mto_line_home(self, dp),
            Mto::LineEnd(n, dp) => mto_line_end(self, n, dp),
            Mto::Col(n) => mto_column(self, n),
            // motion command - linewise.
            Mto::Row(n, dp) => mto_row(self, n, dp),
            Mto::Percent(n, _) => mto_percent(self, n),
            Mto::Cursor(n) => mto_cursor(self, n),
            Mto::Up(n, dp) => mto_up(self, n, dp),
            Mto::Down(n, dp) => mto_down(self, n, dp),
            m => self.ex_n_search(m),
        }
    }

    /// A motion in Normal mode that searches the text: for a character, a
    /// word, a sentence, a paragraph, a bracket or a pattern. Any other
    /// motion goes back to the caller.
    fn ex_n_search(&mut self, m: Mto) -> (res: Result<Event, Error>)
        requires
            old(self)@.wf(),
            !(m is Left || m is Right || m is LineHome || m is LineEnd || m is Col || m is Row
                || m is Percent || m is Cursor || m is Up || m is Down),
        ensures
            final(self)@.wf(),
            conforms(final(self)@, res, motion_step(old(self)@, m)),
    {
        match m {
            Mto::CharF(n, ch, dp) => {
                self.mto_find_char = Mto::CharF(n, ch, dp);
                mto_char(self, Mto::CharF(n, ch, dp))
            },
            Mto::CharT(n, ch, dp) => {
                self.mto_find_char = Mto::CharT(n, ch, dp);
                mto_char(self, Mto::CharT(n, ch, dp))
            },
            Mto::CharR(n, dir) => {
                let e = self.mto_find_char.clone();
                match e.dir_xor(n, dir) {
                    Ok(e) => mto_char(self, e),
                    Err(err) => Err(err),
                }
            },
            Mto::Word(n, dir, pos) => mto_words(self, Mto::Word(n, dir, pos)),
            Mto::WWord(n, dir, pos) => mto_wwords(self, Mto::WWord(n, dir, pos)),
            Mto::Sentence(n, dp) => mto_sentence(self, Mto::Sentence(n, dp)),
            Mto::Para(n, dp) => mto_para(self, Mto::Para(n, dp)),
            Mto::Bracket(n, yin, yan, dp) => mto_bracket(self, Mto::Bracket(n, yin, yan, dp)),
            Mto::Pattern(n, Some(patt), dp) => {
                self.mto_pattern = Mto::Pattern(n, Some(patt.clone()), dp);
                mto_pattern(self, Mto::Pattern(n, Some(patt), dp))
            },
            Mto::PatternR(n, dir) => {
                let e = self.mto_pattern.clone();
                match e.dir_xor(n, dir) {
                    Ok(e) => mto_pattern(self, e),
                    Err(err) => Err(err),
                }
            },
            m => Ok(Event::Mt(m)),
        }
    }

    fn to_insert_n(evnt: &Event) -> (n: Option<usize>)
        ensures
            n == evnt.insert_count(),
    {
        match evnt {
            Event::Md(Mod::Insert(n, _)) => Some(*n),
            Event::Md(Mod::Append(n, _)) => Some(*n),
            Event::Md(Mod::Open(n, _)) => Some(*n),
            _ => None,
        }
    }

    fn ex_n_insert(&mut self, evnt: Event) -> (res: Event)
        requires
            old(self)@.wf(),
            evnt.insert_count() matches Some(n) && n > 0,
        ensures
            final(self)@.wf(),
            res == Event::Noop,
            evnt matches Event::Md(md) && final(self)@ == entered(old(self)@, md),
            old(self)@.is_modified() ==> final(self)@.is_modified(),
    {
        proof {
            lemma_event_keeps_text(self@, evnt);
        }
        let ghost text = self@.text();
        let ghost before = self@;
        let cursor = self.to_char_cursor();
        proof {
            lemma_at(before, cursor as int, cursor as int);
            lemma_line_span(text, cursor as int);
        }
        match evnt {
            Event::Md(Mod::Insert(n, pos)) => {
                self.insert_repeat = n - 1;
                if pos == DP::TextCol {
                    let _ = mto_line_home(self, DP::TextCol);
                }
                self.mode = Mode::Insert;
            },
            Event::Md(Mod::Append(n, pos)) => {
                self.insert_repeat = n - 1;
                let stop = self.to_line_stop(cursor);
                let target = if pos == DP::End || cursor == stop {
                    stop
                } else {
                    cursor + 1
                };
                self.set_cursor(target);
                self.sticky_col = StickyCol::Unset;
                self.mode = Mode::Insert;
            },
            Event::Md(Mod::Open(n, DP::Left)) => {
                self.insert_repeat = n - 1;
                let home = self.to_line_home();
                self.set_cursor(home);
                self.cmd_insert_char(NL);
                proof {
                    assert(self@.text().len() >= text.len());
                }
                self.set_cursor(home);
                self.sticky_col = StickyCol::Unset;
                self.mode = Mode::Insert;
            },
            Event::Md(Mod::Open(n, DP::Right)) => {
                self.insert_repeat = n - 1;
                let stop = self.to_line_stop(cursor);
                self.set_cursor(stop);
                self.cmd_insert_char(NL);
                self.sticky_col = StickyCol::Unset;
                self.mode = Mode::Insert;
            },
            _ => {},
        }
        Event::Noop
    }

    fn handle_i_event(&mut self, evnt: Event) -> (res: Result<Event, Error>)
        requires
            old(self)@.wf(),
        ensures
            final(self)@.wf(),
            conforms(final(self)@, res, insert_step(old(self)@, evnt)),
            old(self)@.is_modified() ==> final(self)@.is_modified(),
            evnt.is_replayable() ==> final(self)@.is_modified(),
    {
        match evnt {
            Event::Noop => Ok(Event::Noop),
            Event::Esc => self.ex_i_event(Event::Esc),
            evnt => {
                self.last_inserts.push(evnt.clone());
                self.ex_i_event(evnt)
            },
        }
    }

    fn ex_i_event(&mut self, evnt: Event) -> (res: Result<Event, Error>)
        requires
            old(self)@.wf(),
        ensures
            final(self)@.wf(),
            evnt is Esc ==> conforms(final(self)@, res, escape_step(old(self)@)),
            !(evnt is Esc) ==> conforms(final(self)@, res, applied(old(self)@, evnt)),
            old(self)@.is_modified() ==> final(self)@.is_modified(),
            evnt.is_replayable() ==> final(self)@.is_modified(),
    {
        proof {
            lemma_event_keeps_text(self@, evnt);
        }
        match evnt {
            // movement
            Event::Mt(Mto::Left(n, dp)) => mto_left(self, n, dp),
            Event::Mt(Mto::Right(n, dp)) => mto_right(self, n, dp),
            Event::Mt(Mto::Up(n, dp)) => mto_up(self, n, dp),
            Event::Mt(Mto::Down(n, dp)) => mto_down(self, n, dp),
            Event::Mt(Mto::LineHome(dp)) => mto_line_home(self, dp),
            Event::Mt(Mto::LineEnd(n, dp)) => mto_line_end(self, n, dp),
            // Handle mode events.
            Event::Esc => {
                self.repeat();
                let _ = mto_left(self, 1, DP::LineBound);
                self.mode_normal();
                Ok(Event::Noop)
            },
            // on going insert
            Event::Char(ch, m) => {
                self.type_event(&Event::Char(ch, m));
                Ok(Event::Noop)
            },
            Event::Backspace(m) => {
                self.type_event(&Event::Backspace(m));
                Ok(Event::Noop)
            },
            Event::Enter(m) => {
                self.type_event(&Event::Enter(m));
                Ok(Event::Noop)
            },
            Event::Tab(m) => {
                self.type_event(&Event::Tab(m));
                Ok(Event::Noop)
            },
            Event::Delete(m) => {
                self.type_event(&Event::Delete(m));
                Ok(Event::Noop)
            },
            evnt => Ok(evnt),
        }
    }

    /// Ends an insert session: clears its log, types its keys again as
    /// often as the repeat count says if the session can be repeated, and
    /// sets the count to 0.
    fn repeat(&mut self)
        requires
            old(self)@.wf(),
        ensures
            final(self)@.wf(),
            final(self)@ == (BufferView {
                insert_repeat: 0,
                ..if replayable(old(self)@.last_inserts) {
                    replayed(
                        BufferView { last_inserts: Seq::empty(), ..old(self)@ },
                        old(self)@.last_inserts,
                        old(self)@.insert_repeat as nat,
                    )
                } else {
                    BufferView { last_inserts: Seq::empty(), ..old(self)@ }
                }
            }),
            old(self)@.is_modified() ==> final(self)@.is_modified(),
    {
        let mut last_inserts: Vec<Event> = Vec::new();
        std::mem::swap(&mut self.last_inserts, &mut last_inserts);
        let insert_repeat = self.insert_repeat;
        let ghost log = last_inserts@;
        let ghost cleared = self@;
        assert(cleared == (BufferView { last_inserts: Seq::empty(), ..old(self)@ })) by {
            assert(self@.last_inserts =~= Seq::<Event>::empty());
        }
        let mut valid = true;
        let mut k: usize = 0;
        while k < last_inserts.len()
            invariant
                k <= last_inserts.len(),
                log == last_inserts@,
                valid == forall|i: int| 0 <= i < k ==> (#[trigger] log[i]).is_replayable(),
            decreases last_inserts.len() - k,
        {
            if !last_inserts[k].can_replay() {
                valid = false;
            }
            k += 1;
        }
        if valid {
            let mut round: usize = 0;
            while round < insert_repeat
                invariant
                    round <= insert_repeat,
                    self@.wf(),
                    old(self)@.is_modified() ==> self@.is_modified(),
                    log == last_inserts@,
                    replayed(cleared, log, insert_repeat as nat) == replayed(
                        self@,
                        log,
                        (insert_repeat - round) as nat,
                    ),
                decreases insert_repeat - round,
            {
                let ghost start = self@;
                let mut i: usize = 0;
                while i < last_inserts.len()
                    invariant
                        i <= last_inserts.len(),
                        self@.wf(),
                        old(self)@.is_modified() ==> self@.is_modified(),
                        log == last_inserts@,
                        typed_from(start, log, 0) == typed_from(self@, log, i as int),
                    decreases last_inserts.len() - i,
                {
                    self.type_event(&last_inserts[i]);
                    i += 1;
                }
                round += 1;
            }
        }
        self.insert_repeat = 0;
    }
}

/// A typed key leaves a modified buffer modified, and makes the buffer
/// modified if it puts a character in or takes one out.
pub proof fn lemma_typed_keeps_modified(v: BufferView, evnt: Event)
    requires
        v.wf(),
    ensures
        v.is_modified() ==> typed(v, evnt).is_modified(),
        evnt.is_replayable() ==> typed(v, evnt).is_modified(),
{
}

/// A motion changes neither the text nor whether the buffer is modified.
pub proof fn lemma_motion_keeps_text(v: BufferView, m: Mto)
    requires
        v.wf(),
    ensures
        motion_step(v, m).after.is_modified() == v.is_modified(),
        motion_step(v, m).after.text() == v.text(),
{
}

/// Entering Insert mode leaves a modified buffer modified.
pub proof fn lemma_entered_keeps_modified(v: BufferView, md: Mod)
    requires
        v.wf(),
        v.is_modified(),
    ensures
        entered(v, md).is_modified(),
{
}

/// A motion event in either mode, or a command that enters Insert mode,
/// leaves a modified buffer modified.
pub proof fn lemma_event_keeps_text(v: BufferView, evnt: Event)
    requires
        v.wf(),
    ensures
        evnt matches Event::Mt(m) ==> motion_step(v, m).after.is_modified() == v.is_modified(),
        evnt matches Event::Md(md) ==> (v.is_modified() ==> entered(v, md).is_modified()),
{
    match evnt {
        Event::Mt(m) => {
            lemma_motion_keeps_text(v, m);
        },
        Event::Md(md) => {
            if v.is_modified() {
                lemma_entered_keeps_modified(v, md);
            }
        },
        _ => {},
    }
}

} // verus!
