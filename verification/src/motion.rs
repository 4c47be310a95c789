//! Cursor motions by character, by column and by line.

use vstd::prelude::*;
use crate::buffer::{Buffer, BufferView, StickyCol};
use crate::event::{Event, Mto, DP};
use crate::scan::{
    nth_left, nth_right, skip_blank_left, skip_blank_right, lemma_nth_left, lemma_nth_right, Mark,
};
use crate::text::{
    last_line, last_pos, lemma_line_span, lemma_run_left, lemma_run_right, line_home, line_start,
    line_stop, line_width, max, min, newlines_before,
};
use crate::chars::CharClass;
use crate::step::{conforms, Step};
use crate::Error;

verus! {

/// `n` to the left of `c`, but not before the home of its line.
pub open spec fn left_bound(text: Seq<char>, c: int, n: int) -> int {
    max(c - n, line_home(text, c))
}

/// `n` to the left of `c`, walking up the lines. Going from the home of a
/// line to the newline of the line above costs nothing, so the newline is
/// never a place to rest on; the walk ends at the start of the text.
pub open spec fn left_unbound(text: Seq<char>, c: int, n: int) -> int
    decreases c,
{
    let home = line_home(text, c);
    if c - n >= home {
        c - n
    } else if 0 < home <= c {
        left_unbound(text, home - 1, n - (c - home))
    } else {
        0
    }
}

/// `n` to the right of `c`, but not behind the last character of its line;
/// on an empty line, its home.
pub open spec fn right_bound(text: Seq<char>, c: int, n: int) -> int {
    let stop = line_stop(text, c);
    if c + n < stop {
        c + n
    } else {
        max(stop - 1, line_home(text, c))
    }
}

/// `n` to the right of `c`, walking down the lines: what is left of `n` at
/// the newline of a line is carried into the line below. The walk ends on
/// the last character of the text.
pub open spec fn right_unbound(text: Seq<char>, c: int, n: int) -> int {
    let stop = line_stop(text, c);
    if c + n < stop {
        c + n
    } else if c <= stop < text.len() {
        right_entering(text, stop + 1, n - (stop - c))
    } else {
        last_pos(text)
    }
}

/// Where a walk to the right ends that enters the line starting at `home`
/// with `n` characters to go: the first character of the line takes one of
/// them, and a line shorter than `n` is walked through.
pub open spec fn right_entering(text: Seq<char>, home: int, n: int) -> int
    decreases text.len() - home,
{
    let stop = line_stop(text, home);
    if n <= stop - home {
        home + max(n - 1, 0)
    } else if home <= stop < text.len() {
        right_entering(text, stop + 1, n - (stop - home))
    } else {
        last_pos(text)
    }
}

/// The last character of line `row` that is no newline; on an empty line,
/// its start.
pub open spec fn line_last(text: Seq<char>, row: int) -> int {
    line_start(text, row) + max(line_width(text, row) - 1, 0)
}

/// The place on line `row` that a vertical motion from `c` reaches: the
/// column of `c`, or the remembered one, as far as the line has it.
pub open spec fn vertical(text: Seq<char>, c: int, sticky: StickyCol, row: int) -> int {
    let col = match sticky {
        StickyCol::Home => 0,
        StickyCol::End => line_width(text, row),
        StickyCol::Unset => c - line_home(text, c),
    };
    line_start(text, row) + min(col, max(line_width(text, row) - 1, 0))
}

/// The place on line `row` that a motion from `c` with qualifier `pos`
/// reaches: the first character that is no white space for `TextCol`, else
/// the place of `vertical`.
pub open spec fn row_target(text: Seq<char>, c: int, sticky: StickyCol, row: int, pos: DP)
    -> int {
    if pos == DP::TextCol {
        skip_blank_right(text, line_start(text, row))
    } else {
        vertical(text, c, sticky, row)
    }
}

/// The row that `Row(n)` addresses: row `n - 1`, as far as the text has it;
/// the last row for a count of 0 or 1.
pub open spec fn row_of_count(text: Seq<char>, n: int) -> int {
    if n <= 1 {
        last_line(text)
    } else {
        min(n - 1, last_line(text))
    }
}

/// The row that `Percent(n)` addresses: `n` hundredths of the last row,
/// rounded down, and the last row from 100 on.
pub open spec fn row_of_percent(text: Seq<char>, n: int) -> int {
    if n < 100 {
        (last_line(text) * n) / 100
    } else {
        last_line(text)
    }
}

/// Where a search for the `n`-th `ch` from `c` inside its line ends: on the
/// character, or one before it in the direction of the search; at `c` if
/// there is no such character. The search starts next to `c`.
pub open spec fn find_char(text: Seq<char>, c: int, n: int, ch: char, dp: DP, on: bool) -> int {
    if dp == DP::Right {
        match nth_right(text, Mark::Char(ch), c + 1, line_stop(text, c), n) {
            Some(p) => if on {
                p
            } else {
                p - 1
            },
            None => c,
        }
    } else {
        match nth_left(text, Mark::Char(ch), line_home(text, c), c, n) {
            Some(p) => if on {
                p
            } else {
                p + 1
            },
            None => c,
        }
    }
}

/// Moving the cursor twice is moving it to the second place; moving it
/// keeps the text, and well-formedness if the place is on the text.
pub proof fn lemma_at(v: BufferView, a: int, b: int)
    requires
        v.wf(),
        0 <= a <= v.text().len(),
        0 <= b <= v.text().len(),
    ensures
        v.at(a).at(b) == v.at(b),
        v.at(a).wf(),
        v.at(a).text() == v.text(),
        v.at(a).cursor() == a,
        v.at(a).is_modified() == v.is_modified(),
        v.at(v.cursor()) == v,
{
    assert(v.at(a).at(b).history.nodes =~= v.at(b).history.nodes);
    assert(v.at(v.cursor()).history.nodes =~= v.history.nodes);
    crate::history::lemma_with_text_wf(v.history, v.text(), a as usize);
}

/// A walk to the left ends on the text, at or before its start.
pub proof fn lemma_left_unbound(text: Seq<char>, c: int, n: int)
    requires
        0 <= c <= text.len(),
        0 <= n,
    ensures
        0 <= left_unbound(text, c, n) <= c,
    decreases c,
{
    lemma_line_span(text, c);
    let home = line_home(text, c);
    if c - n < home && 0 < home {
        lemma_left_unbound(text, home - 1, n - (c - home));
    }
}

/// A walk to the right that enters a line ends on the text.
pub proof fn lemma_right_entering(text: Seq<char>, home: int, n: int)
    requires
        0 <= home <= text.len(),
        0 <= n,
    ensures
        0 <= right_entering(text, home, n) <= text.len(),
    decreases text.len() - home,
{
    lemma_line_span(text, home);
    let stop = line_stop(text, home);
    if n > stop - home && stop < text.len() {
        lemma_right_entering(text, stop + 1, n - (stop - home));
    }
}

/// A walk to the right ends on the text.
pub proof fn lemma_right_unbound(text: Seq<char>, c: int, n: int)
    requires
        0 <= c <= text.len(),
        0 <= n,
    ensures
        0 <= right_unbound(text, c, n) <= text.len(),
{
    lemma_line_span(text, c);
    let stop = line_stop(text, c);
    if c + n >= stop && stop < text.len() {
        lemma_right_entering(text, stop + 1, n - (stop - c));
    }
}

/// What `Left(n, dp)` does: the cursor goes `n` to the left, inside its line
/// or across the lines, and no column is remembered any more. Any other
/// qualifier is refused.
pub open spec fn left_step(v: BufferView, n: usize, dp: DP) -> Step {
    match dp {
        DP::LineBound => Step::moved(
            v,
            left_bound(v.text(), v.cursor(), n as int),
            StickyCol::Unset,
        ),
        DP::Nobound => Step::moved(
            v,
            left_unbound(v.text(), v.cursor(), n as int),
            StickyCol::Unset,
        ),
        _ => Step::fatal(v),
    }
}

pub fn mto_left(buf: &mut Buffer, n: usize, dp: DP) -> (res: Result<Event, Error>)
    requires
        old(buf)@.wf(),
    ensures
        final(buf)@.wf(),
        conforms(final(buf)@, res, left_step(old(buf)@, n, dp)),
{
    let ghost text = buf@.text();
    let cursor = buf.to_char_cursor();
    let home = buf.to_line_home();
    let target = match dp {
        DP::LineBound => {
            if n <= cursor - home {
                cursor - n
            } else {
                home
            }
        },
        DP::Nobound => {
            let mut pos = cursor;
            let mut rem = n;
            let mut target: usize = 0;
            loop
                invariant_except_break
                    buf@.wf(),
                    buf@ == old(buf)@,
                    text == buf@.text(),
                    pos <= text.len(),
                    left_unbound(text, cursor as int, n as int) == left_unbound(
                        text,
                        pos as int,
                        rem as int,
                    ),
                ensures
                    target == left_unbound(text, cursor as int, n as int),
                    target <= text.len(),
                decreases pos,
            {
                let home = buf.to_home_of(pos);
                if rem <= pos - home {
                    target = pos - rem;
                    break ;
                }
                if home == 0 {
                    target = 0;
                    break ;
                }
                rem = rem - (pos - home);
                pos = home - 1;
            }
            target
        },
        _ => {
            return Err(Error::Fatal("invalid direction".to_owned()));
        },
    };
    buf.set_cursor(target);
    buf.sticky_col = StickyCol::Unset;
    Ok(Event::Noop)
}

/// What `Right(n, dp)` does: the cursor goes `n` to the right, inside its
/// line or across the lines, and no column is remembered any more. Any other
/// qualifier is refused.
pub open spec fn right_step(v: BufferView, n: usize, dp: DP) -> Step {
    match dp {
        DP::LineBound => Step::moved(
            v,
            right_bound(v.text(), v.cursor(), n as int),
            StickyCol::Unset,
        ),
        DP::Nobound => Step::moved(
            v,
            right_unbound(v.text(), v.cursor(), n as int),
            StickyCol::Unset,
        ),
        _ => Step::fatal(v),
    }
}

pub fn mto_right(buf: &mut Buffer, n: usize, dp: DP) -> (res: Result<Event, Error>)
    requires
        old(buf)@.wf(),
    ensures
        final(buf)@.wf(),
        conforms(final(buf)@, res, right_step(old(buf)@, n, dp)),
{
    let ghost text = buf@.text();
    let cursor = buf.to_char_cursor();
    let len = buf.n_chars();
    let last = if len == 0 {
        0
    } else {
        len - 1
    };
    let end = buf.to_line_stop(cursor);
    let target = match dp {
        DP::LineBound => {
            let home = buf.to_line_home();
            if n < end - cursor {
                cursor + n
            } else if end > home {
                end - 1
            } else {
                home
            }
        },
        DP::Nobound => {
            if n < end - cursor {
                cursor + n
            } else if end >= len {
                last
            } else {
                let mut home = end + 1;
                let mut rem = n - (end - cursor);
                let mut target: usize = 0;
                loop
                    invariant_except_break
                        buf@.wf(),
                        buf@ == old(buf)@,
                        text == buf@.text(),
                        len == text.len(),
                        last == last_pos(text),
                        home <= len,
                        right_unbound(text, cursor as int, n as int) == right_entering(
                            text,
                            home as int,
                            rem as int,
                        ),
                    ensures
                        target == right_unbound(text, cursor as int, n as int),
                        target <= text.len(),
                    decreases len - home,
                {
                    let stop = buf.to_line_stop(home);
                    let m = stop - home;
                    if rem <= m {
                        target = if rem > 0 {
                            home + (rem - 1)
                        } else {
                            home
                        };
                        break ;
                    }
                    if stop >= len {
                        target = last;
                        break ;
                    }
                    rem = rem - m;
                    home = stop + 1;
                }
                target
            }
        },
        _ => {
            return Err(Error::Fatal("invalid direction".to_owned()));
        },
    };
    buf.set_cursor(target);
    buf.sticky_col = StickyCol::Unset;
    Ok(Event::Noop)
}

/// What `LineHome(pos)` does: the cursor goes to the home of its line; for
/// `TextCol` on to the first character that is no white space; for
/// `StickyCol` the home becomes the remembered column, else none is
/// remembered. Any other qualifier is refused.
pub open spec fn line_home_step(v: BufferView, pos: DP) -> Step {
    let home = line_home(v.text(), v.cursor());
    match pos {
        DP::TextCol => Step::moved(v, skip_blank_right(v.text(), home), StickyCol::Unset),
        DP::StickyCol => Step::moved(v, home, StickyCol::Home),
        DP::Nope => Step::moved(v, home, StickyCol::Unset),
        _ => Step::fatal(v),
    }
}

pub fn mto_line_home(buf: &mut Buffer, pos: DP) -> (res: Result<Event, Error>)
    requires
        old(buf)@.wf(),
    ensures
        final(buf)@.wf(),
        conforms(final(buf)@, res, line_home_step(old(buf)@, pos)),
{
    let ghost text = buf@.text();
    let sticky = match pos {
        DP::TextCol => StickyCol::Unset,
        DP::StickyCol => StickyCol::Home,
        DP::Nope => StickyCol::Unset,
        _ => {
            return Err(Error::Fatal("invalid direction".to_owned()));
        },
    };
    let home = buf.to_line_home();
    proof {
        lemma_at(buf@, home as int, home as int);
    }
    buf.set_cursor(home);
    if pos == DP::TextCol {
        buf.skip_blank_right();
        proof {
            lemma_run_right(text, CharClass::Blank, home as int);
            lemma_at(old(buf)@, home as int, skip_blank_right(text, home as int));
        }
    }
    buf.sticky_col = sticky;
    Ok(Event::Noop)
}

/// Where `LineEnd(n, dp)` ends: on the last character that is no newline of
/// the line `n - 1` rows below the cursor, as far as the text has rows; for
/// `TextCol`, white space before that place is skipped to the left.
pub open spec fn line_end_target(text: Seq<char>, c: int, n: int, dp: DP) -> int {
    let row = min(newlines_before(text, c) + max(n - 1, 0), last_line(text));
    if dp == DP::TextCol {
        skip_blank_left(text, line_last(text, row))
    } else {
        line_last(text, row)
    }
}

/// What `LineEnd(n, dp)` does: the cursor goes where `line_end_target`
/// says; for `StickyCol` the end becomes the remembered column, else none is
/// remembered. Any other qualifier is refused.
pub open spec fn line_end_step(v: BufferView, n: usize, dp: DP) -> Step {
    let target = line_end_target(v.text(), v.cursor(), n as int, dp);
    match dp {
        DP::TextCol => Step::moved(v, target, StickyCol::Unset),
        DP::StickyCol => Step::moved(v, target, StickyCol::End),
        DP::Nope => Step::moved(v, target, StickyCol::Unset),
        _ => Step::fatal(v),
    }
}

pub fn mto_line_end(buf: &mut Buffer, n: usize, dp: DP) -> (res: Result<Event, Error>)
    requires
        old(buf)@.wf(),
    ensures
        final(buf)@.wf(),
        conforms(final(buf)@, res, line_end_step(old(buf)@, n, dp)),
{
    let ghost text = buf@.text();
    let sticky = match dp {
        DP::TextCol => StickyCol::Unset,
        DP::StickyCol => StickyCol::End,
        DP::Nope => StickyCol::Unset,
        _ => {
            return Err(Error::Fatal("invalid direction".to_owned()));
        },
    };
    let cursor = buf.to_char_cursor();
    let row = buf.char_to_line(cursor);
    let last_row = buf.n_lines() - 1;
    // When a `n` is given also go `n-1` lines downward.
    let down = if n > 0 {
        n - 1
    } else {
        0
    };
    let row = if down <= last_row - row {
        row + down
    } else {
        last_row
    };
    let start = buf.line_to_char(row);
    let stop = buf.to_line_stop(start);
    let target = if stop > start {
        stop - 1
    } else {
        start
    };
    proof {
        lemma_at(buf@, target as int, target as int);
    }
    buf.set_cursor(target);
    if dp == DP::TextCol {
        buf.skip_blank_left();
        proof {
            lemma_run_left(text, CharClass::Blank, target as int);
            lemma_at(old(buf)@, target as int, skip_blank_left(text, target as int));
        }
    }
    buf.sticky_col = sticky;
    Ok(Event::Noop)
}

/// Column `n` of the line of `c`, or the place of its newline if the line
/// is shorter.
pub open spec fn column_target(text: Seq<char>, c: int, n: int) -> int {
    line_home(text, c) + min(n, line_stop(text, c) - line_home(text, c))
}

/// What `Col(n)` does: the cursor goes to column `n` of its line, as far as
/// the line has it, and no column is remembered any more.
pub open spec fn column_step(v: BufferView, n: usize) -> Step {
    Step::moved(v, column_target(v.text(), v.cursor(), n as int), StickyCol::Unset)
}

pub fn mto_column(buf: &mut Buffer, n: usize) -> (res: Result<Event, Error>)
    requires
        old(buf)@.wf(),
    ensures
        final(buf)@.wf(),
        conforms(final(buf)@, res, column_step(old(buf)@, n)),
{
    let cursor = buf.to_char_cursor();
    let home = buf.to_line_home();
    let stop = buf.to_line_stop(cursor);
    let n = if n <= stop - home {
        n
    } else {
        stop - home
    };
    proof {
        lemma_at(buf@, home + n, home + n);
    }
    buf.set_cursor(home + n);
    buf.sticky_col = StickyCol::Unset;
    Ok(Event::Noop)
}

/// What `mto_char` does with a motion. `CharF` and `CharT` with a character
/// and a direction search the line as `find_char` says, and no column is
/// remembered any more. `CharT` without a character and `Nop` do nothing.
/// Anything else is refused.
pub open spec fn char_step(v: BufferView, evnt: Mto) -> Step {
    match evnt {
        Mto::CharF(n, Some(ch), dp) => if dp.is_direction() {
            Step::moved(
                v,
                find_char(v.text(), v.cursor(), n as int, ch, dp, true),
                StickyCol::Unset,
            )
        } else {
            Step::fatal(v)
        },
        Mto::CharT(n, Some(ch), dp) => if dp.is_direction() {
            Step::moved(
                v,
                find_char(v.text(), v.cursor(), n as int, ch, dp, false),
                StickyCol::Unset,
            )
        } else {
            Step::fatal(v)
        },
        Mto::CharT(_, None, _) | Mto::Nop => Step::done(v),
        _ => Step::fatal(v),
    }
}

pub fn mto_char(buf: &mut Buffer, evnt: Mto) -> (res: Result<Event, Error>)
    requires
        old(buf)@.wf(),
    ensures
        final(buf)@.wf(),
        conforms(final(buf)@, res, char_step(old(buf)@, evnt)),
{
    let ghost text = buf@.text();
    let (n, ch, dp, on) = match evnt {
        Mto::CharF(n, Some(ch), dp) => (n, ch, dp, true),
        Mto::CharT(n, Some(ch), dp) => (n, ch, dp, false),
        Mto::CharT(_, None, _) | Mto::Nop => {
            return Ok(Event::Noop);
        },
        _ => {
            return Err(Error::Fatal("unexpected motion".to_owned()));
        },
    };
    let cursor = buf.to_char_cursor();
    let target = match dp {
        DP::Right => {
            let stop = buf.to_line_stop(cursor);
            let item = if cursor < stop {
                buf.find_right(Mark::Char(ch), cursor + 1, stop, n)
            } else {
                None
            };
            proof {
                lemma_nth_right(text, Mark::Char(ch), cursor + 1, stop as int, n as int);
            }
            match item {
                Some(p) => if on {
                    p
                } else {
                    p - 1
                },
                None => cursor,
            }
        },
        DP::Left => {
            let home = buf.to_line_home();
            let item = buf.find_left(Mark::Char(ch), home, cursor, n);
            proof {
                lemma_nth_left(text, Mark::Char(ch), home as int, cursor as int, n as int);
            }
            match item {
                Some(p) => if on {
                    p
                } else {
                    p + 1
                },
                None => cursor,
            }
        },
        _ => {
            return Err(Error::Fatal("unexpected direction".to_owned()));
        },
    };
    buf.set_cursor(target);
    buf.sticky_col = StickyCol::Unset;
    Ok(Event::Noop)
}

/// Puts the cursor on line `row` as `row_target` says.
fn goto_row(buf: &mut Buffer, row: usize, pos: DP)
    requires
        old(buf)@.wf(),
        row <= last_line(old(buf)@.text()),
    ensures
        final(buf)@.wf(),
        final(buf)@ == old(buf)@.at(
            row_target(
                old(buf)@.text(),
                old(buf)@.cursor(),
                old(buf)@.sticky_col,
                row as int,
                pos,
            ),
        ),
{
    let ghost text = buf@.text();
    let start = buf.line_to_char(row);
    if pos == DP::TextCol {
        proof {
            lemma_at(buf@, start as int, start as int);
        }
        buf.set_cursor(start);
        buf.skip_blank_right();
        proof {
            lemma_run_right(text, CharClass::Blank, start as int);
            lemma_at(old(buf)@, start as int, skip_blank_right(text, start as int));
        }
    } else {
        let stop = buf.to_line_stop(start);
        let width = stop - start;
        let cursor = buf.to_char_cursor();
        let col = match buf.sticky_col {
            StickyCol::Home => 0,
            StickyCol::End => width,
            StickyCol::Unset => cursor - buf.to_line_home(),
        };
        let most = if width > 0 {
            width - 1
        } else {
            0
        };
        let col = if col <= most {
            col
        } else {
            most
        };
        buf.set_cursor(start + col);
    }
}

/// What a motion to row `row` does: the cursor goes where `row_target`
/// says and the remembered column stays. Qualifiers other than `TextCol` and
/// `Nope` are refused.
pub open spec fn row_step(v: BufferView, row: int, pos: DP) -> Step {
    if pos == DP::TextCol || pos == DP::Nope {
        Step::moved(v, row_target(v.text(), v.cursor(), v.sticky_col, row, pos), v.sticky_col)
    } else {
        Step::fatal(v)
    }
}

/// What `Up(n, pos)` does: on the first row nothing; else a motion to the
/// row `n` above, as far as there are rows.
pub open spec fn up_step(v: BufferView, n: usize, pos: DP) -> Step {
    let row = newlines_before(v.text(), v.cursor());
    if row == 0 && (pos == DP::TextCol || pos == DP::Nope) {
        Step::done(v)
    } else {
        row_step(v, max(row - n, 0), pos)
    }
}

/// What `Down(n, pos)` does: a motion to the row `n` below, as far as there
/// are rows.
pub open spec fn down_step(v: BufferView, n: usize, pos: DP) -> Step {
    row_step(v, min(newlines_before(v.text(), v.cursor()) + n, last_line(v.text())), pos)
}

pub fn mto_up(buf: &mut Buffer, n: usize, pos: DP) -> (res: Result<Event, Error>)
    requires
        old(buf)@.wf(),
    ensures
        final(buf)@.wf(),
        conforms(final(buf)@, res, up_step(old(buf)@, n, pos)),
{
    match pos {
        DP::TextCol | DP::Nope => {},
        _ => {
            return Err(Error::Fatal("invalid position".to_owned()));
        },
    }
    let cursor = buf.to_char_cursor();
    proof {
        lemma_at(buf@, cursor as int, cursor as int);
    }
    match buf.char_to_line(cursor) {
        0 => Ok(Event::Noop),
        row => {
            let row = if n <= row {
                row - n
            } else {
                0
            };
            goto_row(buf, row, pos);
            Ok(Event::Noop)
        },
    }
}

pub fn mto_down(buf: &mut Buffer, n: usize, pos: DP) -> (res: Result<Event, Error>)
    requires
        old(buf)@.wf(),
    ensures
        final(buf)@.wf(),
        conforms(final(buf)@, res, down_step(old(buf)@, n, pos)),
{
    match pos {
        DP::TextCol | DP::Nope => {},
        _ => {
            return Err(Error::Fatal("invalid position".to_owned()));
        },
    }
    let row = buf.char_to_line(buf.to_char_cursor());
    let last_row = buf.n_lines() - 1;
    let row = if n <= last_row - row {
        row + n
    } else {
        last_row
    };
    goto_row(buf, row, pos);
    Ok(Event::Noop)
}

pub fn mto_row(buf: &mut Buffer, n: usize, pos: DP) -> (res: Result<Event, Error>)
    requires
        old(buf)@.wf(),
    ensures
        final(buf)@.wf(),
        conforms(final(buf)@, res, row_step(old(buf)@, row_of_count(old(buf)@.text(), n as int), pos)),
{
    match pos {
        DP::TextCol | DP::Nope => {},
        _ => {
            return Err(Error::Fatal("invalid position".to_owned()));
        },
    }
    let last_row = buf.n_lines() - 1;
    let row = if n <= 1 {
        last_row
    } else if n - 1 <= last_row {
        n - 1
    } else {
        last_row
    };
    goto_row(buf, row, pos);
    Ok(Event::Noop)
}

/// `n` hundredths of `last`, rounded down, computed without a product that
/// could overflow.
fn hundredths(last: usize, n: usize) -> (row: usize)
    requires
        n < 100,
    ensures
        row == (last * n) / 100,
        row <= last,
{
    let q = last / 100;
    let r = last % 100;
    assert(r * n <= 9801 && q * n <= last && (last * n) / 100 == q * n + (r * n) / 100 && q * n
        + (r * n) / 100 <= last) by (nonlinear_arith)
        requires
            q == last / 100,
            r == last % 100,
            n < 100,
    ;
    q * n + (r * n) / 100
}

pub fn mto_percent(buf: &mut Buffer, n: usize) -> (res: Result<Event, Error>)
    requires
        old(buf)@.wf(),
    ensures
        final(buf)@.wf(),
        conforms(
            final(buf)@,
            res,
            row_step(old(buf)@, row_of_percent(old(buf)@.text(), n as int), DP::TextCol),
        ),
{
    let last_row = buf.n_lines() - 1;
    let row = if n < 100 {
        hundredths(last_row, n)
    } else {
        last_row
    };
    goto_row(buf, row, DP::TextCol);
    Ok(Event::Noop)
}

/// What `Cursor(n)` does: the cursor goes to position `n`, or right behind
/// the text if that is nearer; the remembered column stays.
pub open spec fn cursor_step(v: BufferView, n: usize) -> Step {
    Step::moved(v, min(n as int, v.text().len() as int), v.sticky_col)
}

pub fn mto_cursor(buf: &mut Buffer, n: usize) -> (res: Result<Event, Error>)
    requires
        old(buf)@.wf(),
    ensures
        final(buf)@.wf(),
        conforms(final(buf)@, res, cursor_step(old(buf)@, n)),
{
    buf.set_cursor(n);
    Ok(Event::Noop)
}

} // verus!
