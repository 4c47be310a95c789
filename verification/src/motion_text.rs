//! Cursor motions by word, sentence, paragraph and bracket.

use vstd::prelude::*;
use crate::buffer::{Buffer, BufferView, StickyCol};
use crate::chars::CharClass;
use crate::event::{Event, Mto, DP};
use crate::motion::{
    left_unbound, lemma_at, lemma_left_unbound, lemma_right_unbound, mto_left, mto_right,
    right_unbound,
};
use crate::step::{conforms, Step};
use crate::scan::{
    lemma_nth_left, lemma_nth_right, nth_left, nth_right, skip_blank_left, skip_blank_right, Mark,
};
use crate::text::{last_pos, lemma_run_left, lemma_run_right, run_left, run_right};
use crate::Error;

verus! {

/// The class whose run a word motion skips at position `i`: for a WORD
/// anything but white space; for a word letters and digits if such a
/// character stands at `i`, else punctuation.
pub open spec fn run_class(text: Seq<char>, i: int, big: bool) -> CharClass {
    if big {
        CharClass::Solid
    } else if 0 <= i < text.len() {
        CharClass::word_class(text[i])
    } else {
        CharClass::Punct
    }
}

/// One step of a word motion from `c`. White space in the direction of
/// travel is skipped first. To the `End`, one run of the word's class is
/// skipped and the cursor steps back by one. To the `Start`, if no white
/// space was skipped, one run of the word's class is skipped and then white
/// space again.
pub open spec fn word_step(text: Seq<char>, c: int, dir: DP, pos: DP, big: bool) -> int {
    if dir == DP::Right {
        let k = run_right(text, CharClass::Blank, c);
        let c1 = skip_blank_right(text, c);
        let c2 = c1 + run_right(text, run_class(text, c1, big), c1);
        if pos == DP::End {
            left_unbound(text, c2, 1)
        } else if k == 0 {
            skip_blank_right(text, c2)
        } else {
            c1
        }
    } else {
        let k = run_left(text, CharClass::Blank, c);
        let c1 = skip_blank_left(text, c);
        let c2 = c1 - run_left(text, run_class(text, c1 - 1, big), c1);
        if pos == DP::End {
            right_unbound(text, c2, 1)
        } else if k == 0 {
            skip_blank_left(text, c2)
        } else {
            c1
        }
    }
}

/// `n` steps of a word motion from `c`.
pub open spec fn word_steps(text: Seq<char>, c: int, n: nat, dir: DP, pos: DP, big: bool) -> int
    decreases n,
{
    if n == 0 {
        c
    } else {
        word_steps(text, word_step(text, c, dir, pos, big), (n - 1) as nat, dir, pos, big)
    }
}

/// A step of a word motion ends on the text.
pub proof fn lemma_word_step(text: Seq<char>, c: int, dir: DP, pos: DP, big: bool)
    requires
        0 <= c <= text.len(),
    ensures
        0 <= word_step(text, c, dir, pos, big) <= text.len(),
{
    if dir == DP::Right {
        lemma_run_right(text, CharClass::Blank, c);
        let c1 = skip_blank_right(text, c);
        lemma_run_right(text, run_class(text, c1, big), c1);
        let c2 = c1 + run_right(text, run_class(text, c1, big), c1);
        lemma_left_unbound(text, c2, 1);
        lemma_run_right(text, CharClass::Blank, c2);
    } else {
        lemma_run_left(text, CharClass::Blank, c);
        let c1 = skip_blank_left(text, c);
        lemma_run_left(text, run_class(text, c1 - 1, big), c1);
        let c2 = c1 - run_left(text, run_class(text, c1 - 1, big), c1);
        lemma_right_unbound(text, c2, 1);
        lemma_run_left(text, CharClass::Blank, c2);
    }
}

/// A step to the start of the next word moves the cursor to the right until
/// it stands on the last character, and leaves it there.
pub proof fn lemma_next_word_advances(text: Seq<char>, c: int)
    requires
        0 <= c <= text.len(),
    ensures
        word_step(text, c, DP::Right, DP::Start, false) <= last_pos(text),
        c < last_pos(text) ==> c < word_step(text, c, DP::Right, DP::Start, false),
        c >= last_pos(text) ==> word_step(text, c, DP::Right, DP::Start, false) == last_pos(text),
{
    lemma_run_right(text, CharClass::Blank, c);
    let k = run_right(text, CharClass::Blank, c);
    let c1 = skip_blank_right(text, c);
    lemma_run_right(text, run_class(text, c1, false), c1);
    let c2 = c1 + run_right(text, run_class(text, c1, false), c1);
    lemma_run_right(text, CharClass::Blank, c2);
    if k == 0 && c < text.len() {
        // The character under the cursor is no white space, so it belongs
        // to the run that is skipped.
        assert(c1 == c);
        assert(!CharClass::Blank.has(text[c]));
        assert(run_class(text, c, false).has(text[c]));
    }
}

/// Steps to the start of the next word, repeated often enough, end on the
/// last character of the text.
pub proof fn lemma_next_word_reaches_end(text: Seq<char>, c: int, n: nat)
    requires
        0 <= c <= text.len(),
        n >= last_pos(text) - c,
        n >= 1,
    ensures
        word_steps(text, c, n, DP::Right, DP::Start, false) == last_pos(text),
    decreases n,
{
    lemma_next_word_advances(text, c);
    let next = word_step(text, c, DP::Right, DP::Start, false);
    if n > 1 {
        lemma_next_word_reaches_end(text, next, (n - 1) as nat);
    } else {
        assert(word_steps(text, next, 0, DP::Right, DP::Start, false) == next);
    }
}

/// What a word motion of `n` steps does: the cursor goes where
/// `word_steps` says, and the remembered column is forgotten if a step to
/// the `End` was made. The direction must be `Left` or `Right` and the
/// position `Start` or `End`, or the motion is refused.
pub open spec fn words_step(v: BufferView, n: usize, dir: DP, pos: DP, big: bool) -> Step {
    if dir.is_direction() && (pos == DP::Start || pos == DP::End) {
        Step::moved(
            v,
            word_steps(v.text(), v.cursor(), n as nat, dir, pos, big),
            if pos == DP::End && n > 0 {
                StickyCol::Unset
            } else {
                v.sticky_col
            },
        )
    } else {
        Step::fatal(v)
    }
}

/// What `mto_words` does with a motion: a `Word` motion moves by words,
/// anything else is refused.
pub open spec fn word_motion_step(v: BufferView, evnt: Mto) -> Step {
    match evnt {
        Mto::Word(n, dir, pos) => words_step(v, n, dir, pos, false),
        _ => Step::fatal(v),
    }
}

/// What `mto_wwords` does with a motion: a `WWord` motion moves by WORDs,
/// anything else is refused.
pub open spec fn wword_motion_step(v: BufferView, evnt: Mto) -> Step {
    match evnt {
        Mto::WWord(n, dir, pos) => words_step(v, n, dir, pos, true),
        _ => Step::fatal(v),
    }
}

/// What `mto_sentence` does with a motion: a `Sentence` motion with a
/// direction moves where `sentence_target` says and keeps the remembered
/// column; anything else is refused.
pub open spec fn sentence_step(v: BufferView, evnt: Mto) -> Step {
    match evnt {
        Mto::Sentence(n, dp) => if dp.is_direction() {
            Step::moved(v, sentence_target(v.text(), v.cursor(), n as int, dp), v.sticky_col)
        } else {
            Step::fatal(v)
        },
        _ => Step::fatal(v),
    }
}

/// What `mto_para` does with a motion: a `Para` motion with a direction
/// moves to the `n`-th start of a blank line and keeps the remembered
/// column; anything else is refused.
pub open spec fn para_step(v: BufferView, evnt: Mto) -> Step {
    match evnt {
        Mto::Para(n, dp) => if dp.is_direction() {
            Step::moved(
                v,
                mark_target(v.text(), v.cursor(), n as int, Mark::BlankLine, dp),
                v.sticky_col,
            )
        } else {
            Step::fatal(v)
        },
        _ => Step::fatal(v),
    }
}

/// What `mto_bracket` does with a motion: a `Bracket` motion with a
/// direction moves where `bracket_target` says and keeps the remembered
/// column; anything else is refused.
pub open spec fn bracket_step(v: BufferView, evnt: Mto) -> Step {
    match evnt {
        Mto::Bracket(n, yin, yan, dp) => if dp.is_direction() {
            Step::moved(
                v,
                bracket_target(v.text(), v.cursor(), n as int, yin, yan, dp),
                v.sticky_col,
            )
        } else {
            Step::fatal(v)
        },
        _ => Step::fatal(v),
    }
}

/// One step of a word motion.
fn step_word(buf: &mut Buffer, dir: DP, pos: DP, big: bool)
    requires
        old(buf)@.wf(),
        dir.is_direction(),
        pos == DP::Start || pos == DP::End,
    ensures
        final(buf)@.wf(),
        final(buf)@ == old(buf)@.at(
            word_step(old(buf)@.text(), old(buf)@.cursor(), dir, pos, big),
        ).stuck(
            if pos == DP::End {
                StickyCol::Unset
            } else {
                old(buf)@.sticky_col
            },
        ),
{
    let ghost text = buf@.text();
    let ghost c = buf@.cursor();
    proof {
        lemma_word_step(text, c, dir, pos, big);
    }
    if dir == DP::Right {
        let k = buf.skip_blank_right();
        let c1 = buf.to_char_cursor();
        proof {
            lemma_run_right(text, CharClass::Blank, c);
            lemma_at(old(buf)@, c1 as int, c1 as int);
        }
        if pos == DP::End || k == 0 {
            let class = if big {
                CharClass::Solid
            } else if c1 < buf.n_chars() {
                CharClass::of_word(buf.history.char_at(c1))
            } else {
                CharClass::Punct
            };
            let run = buf.run_right(class, c1);
            let c2 = c1 + run;
            buf.set_cursor(c2);
            proof {
                lemma_at(old(buf)@, c1 as int, c2 as int);
                lemma_at(old(buf)@, c2 as int, c2 as int);
            }
            if pos == DP::End {
                let _ = mto_left(buf, 1, DP::Nobound);
                proof {
                    lemma_left_unbound(text, c2 as int, 1);
                    lemma_at(old(buf)@, c2 as int, left_unbound(text, c2 as int, 1));
                }
            } else {
                buf.skip_blank_right();
                proof {
                    lemma_run_right(text, CharClass::Blank, c2 as int);
                    lemma_at(old(buf)@, c2 as int, skip_blank_right(text, c2 as int));
                }
            }
        }
    } else {
        let k = buf.skip_blank_left();
        let c1 = buf.to_char_cursor();
        proof {
            lemma_run_left(text, CharClass::Blank, c);
            lemma_at(old(buf)@, c1 as int, c1 as int);
        }
        if pos == DP::End || k == 0 {
            let class = if big {
                CharClass::Solid
            } else if 0 < c1 && c1 - 1 < buf.n_chars() {
                CharClass::of_word(buf.history.char_at(c1 - 1))
            } else {
                CharClass::Punct
            };
            let run = buf.run_left(class, c1);
            let c2 = c1 - run;
            buf.set_cursor(c2);
            proof {
                lemma_at(old(buf)@, c1 as int, c2 as int);
                lemma_at(old(buf)@, c2 as int, c2 as int);
            }
            if pos == DP::End {
                let _ = mto_right(buf, 1, DP::Nobound);
                proof {
                    lemma_right_unbound(text, c2 as int, 1);
                    lemma_at(old(buf)@, c2 as int, right_unbound(text, c2 as int, 1));
                }
            } else {
                buf.skip_blank_left();
                proof {
                    lemma_run_left(text, CharClass::Blank, c2 as int);
                    lemma_at(old(buf)@, c2 as int, skip_blank_left(text, c2 as int));
                }
            }
        }
    }
}

/// `n` steps of a word motion.
fn step_words(buf: &mut Buffer, n: usize, dir: DP, pos: DP, big: bool) -> (res: Result<
    Event,
    Error,
>)
    requires
        old(buf)@.wf(),
    ensures
        final(buf)@.wf(),
        conforms(final(buf)@, res, words_step(old(buf)@, n, dir, pos, big)),
{
    match dir {
        DP::Left | DP::Right => {},
        _ => {
            return Err(Error::Fatal("invalid direction".to_owned()));
        },
    }
    match pos {
        DP::Start | DP::End => {},
        _ => {
            return Err(Error::Fatal("invalid position".to_owned()));
        },
    }
    let ghost text = buf@.text();
    let ghost start = buf@.cursor();
    proof {
        lemma_at(buf@, start, start);
    }
    let mut i: usize = 0;
    while i < n
        invariant
            i <= n,
            buf@.wf(),
            old(buf)@.wf(),
            text == buf@.text(),
            text == old(buf)@.text(),
            0 <= buf@.cursor() <= text.len(),
            buf@ == old(buf)@.at(buf@.cursor()).stuck(
                if pos == DP::End && i > 0 {
                    StickyCol::Unset
                } else {
                    old(buf)@.sticky_col
                },
            ),
            word_steps(text, start, n as nat, dir, pos, big) == word_steps(
                text,
                buf@.cursor(),
                (n - i) as nat,
                dir,
                pos,
                big,
            ),
            dir.is_direction(),
            pos == DP::Start || pos == DP::End,
        decreases n - i,
    {
        let ghost here = buf@.cursor();
        step_word(buf, dir, pos, big);
        proof {
            lemma_word_step(text, here, dir, pos, big);
            lemma_at(old(buf)@, here, word_step(text, here, dir, pos, big));
        }
        i += 1;
    }
    Ok(Event::Noop)
}

pub fn mto_words(buf: &mut Buffer, evnt: Mto) -> (res: Result<Event, Error>)
    requires
        old(buf)@.wf(),
    ensures
        final(buf)@.wf(),
        conforms(final(buf)@, res, word_motion_step(old(buf)@, evnt)),
{
    match evnt {
        Mto::Word(n, dir, pos) => step_words(buf, n, dir, pos, false),
        _ => Err(Error::Fatal("unexpected motion".to_owned())),
    }
}

pub fn mto_wwords(buf: &mut Buffer, evnt: Mto) -> (res: Result<Event, Error>)
    requires
        old(buf)@.wf(),
    ensures
        final(buf)@.wf(),
        conforms(final(buf)@, res, wword_motion_step(old(buf)@, evnt)),
{
    match evnt {
        Mto::WWord(n, dir, pos) => step_words(buf, n, dir, pos, true),
        _ => Err(Error::Fatal("unexpected motion".to_owned())),
    }
}

/// Where a scan for the `n`-th `mark` from `c` ends: going right, on the
/// mark or else on the last character; going left, on the mark or else at
/// the start of the text. The position of the cursor itself is not looked
/// at.
pub open spec fn mark_target(text: Seq<char>, c: int, n: int, mark: Mark, dp: DP) -> int {
    if dp == DP::Right {
        match nth_right(text, mark, c + 1, text.len() as int, n) {
            Some(p) => p,
            None => last_pos(text),
        }
    } else {
        match nth_left(text, mark, 0, c, n) {
            Some(p) => p,
            None => 0,
        }
    }
}

/// Where `Sentence(n, dp)` ends: behind the white space that follows the
/// `n`-th end of a sentence.
pub open spec fn sentence_target(text: Seq<char>, c: int, n: int, dp: DP) -> int {
    skip_blank_right(text, mark_target(text, c, n, Mark::SentenceBreak, dp))
}

/// The place of `mark_target`.
fn seek_mark(buf: &Buffer, n: usize, mark: Mark, dp: DP) -> (target: usize)
    requires
        buf@.wf(),
        dp.is_direction(),
    ensures
        target == mark_target(buf@.text(), buf@.cursor(), n as int, mark, dp),
        target <= buf@.text().len(),
{
    let ghost text = buf@.text();
    let cursor = buf.to_char_cursor();
    let len = buf.n_chars();
    if dp == DP::Right {
        let item = if cursor < len {
            buf.find_right(mark, cursor + 1, len, n)
        } else {
            None
        };
        proof {
            lemma_nth_right(text, mark, cursor + 1, len as int, n as int);
        }
        match item {
            Some(p) => p,
            None => if len == 0 {
                0
            } else {
                len - 1
            },
        }
    } else {
        let item = buf.find_left(mark, 0, cursor, n);
        proof {
            lemma_nth_left(text, mark, 0, cursor as int, n as int);
        }
        match item {
            Some(p) => p,
            None => 0,
        }
    }
}

pub fn mto_sentence(buf: &mut Buffer, e: Mto) -> (res: Result<Event, Error>)
    requires
        old(buf)@.wf(),
    ensures
        final(buf)@.wf(),
        conforms(final(buf)@, res, sentence_step(old(buf)@, e)),
{
    let ghost text = buf@.text();
    let cursor = match e {
        Mto::Sentence(n, DP::Left) => seek_mark(buf, n, Mark::SentenceBreak, DP::Left),
        Mto::Sentence(n, DP::Right) => seek_mark(buf, n, Mark::SentenceBreak, DP::Right),
        _ => {
            return Err(Error::Fatal("unexpected motion".to_owned()));
        },
    };
    buf.set_cursor(cursor);
    buf.skip_blank_right();
    proof {
        lemma_run_right(text, CharClass::Blank, cursor as int);
        lemma_at(old(buf)@, cursor as int, skip_blank_right(text, cursor as int));
    }
    Ok(Event::Noop)
}

pub fn mto_para(buf: &mut Buffer, evnt: Mto) -> (res: Result<Event, Error>)
    requires
        old(buf)@.wf(),
    ensures
        final(buf)@.wf(),
        conforms(final(buf)@, res, para_step(old(buf)@, evnt)),
{
    let cursor = match evnt {
        Mto::Para(n, DP::Left) => seek_mark(buf, n, Mark::BlankLine, DP::Left),
        Mto::Para(n, DP::Right) => seek_mark(buf, n, Mark::BlankLine, DP::Right),
        _ => {
            return Err(Error::Fatal("unexpected motion".to_owned()));
        },
    };
    buf.set_cursor(cursor);
    Ok(Event::Noop)
}

/// The `n`-th `seek` character from `i` going right that is not paired
/// with a `nest` character before it; `m` counts the `nest` characters
/// that still wait for their `seek`. A count of 0 stands for 1.
pub open spec fn unnested_right(
    text: Seq<char>,
    i: int,
    seek: char,
    nest: char,
    m: int,
    n: int,
) -> Option<int>
    decreases text.len() - i,
{
    if i < 0 || i >= text.len() {
        None
    } else if text[i] == seek {
        if m > 0 {
            unnested_right(text, i + 1, seek, nest, m - 1, n)
        } else if n <= 1 {
            Some(i)
        } else {
            unnested_right(text, i + 1, seek, nest, 0, n - 1)
        }
    } else if text[i] == nest {
        unnested_right(text, i + 1, seek, nest, m + 1, n)
    } else {
        unnested_right(text, i + 1, seek, nest, m, n)
    }
}

/// The `n`-th `seek` character below `i` going left that is not paired
/// with a `nest` character behind it; `m` counts the `nest` characters
/// that still wait for their `seek`. A count of 0 stands for 1.
pub open spec fn unnested_left(
    text: Seq<char>,
    i: int,
    seek: char,
    nest: char,
    m: int,
    n: int,
) -> Option<int>
    decreases i,
{
    if i <= 0 || i > text.len() {
        None
    } else if text[i - 1] == seek {
        if m > 0 {
            unnested_left(text, i - 1, seek, nest, m - 1, n)
        } else if n <= 1 {
            Some(i - 1)
        } else {
            unnested_left(text, i - 1, seek, nest, 0, n - 1)
        }
    } else if text[i - 1] == nest {
        unnested_left(text, i - 1, seek, nest, m + 1, n)
    } else {
        unnested_left(text, i - 1, seek, nest, m, n)
    }
}

/// Where `Bracket(n, open, close, dp)` ends. Going right from the cursor,
/// the `n`-th `close` that no `open` on the way has claimed; going left
/// from before the cursor, the `n`-th `open` that no `close` on the way
/// has claimed; the cursor itself if there is none.
pub open spec fn bracket_target(text: Seq<char>, c: int, n: int, open: char, close: char, dp: DP)
    -> int {
    if dp == DP::Right {
        match unnested_right(text, c, close, open, 0, n) {
            Some(p) => p,
            None => c,
        }
    } else {
        match unnested_left(text, c, open, close, 0, n) {
            Some(p) => p,
            None => c,
        }
    }
}

pub fn mto_bracket(buf: &mut Buffer, e: Mto) -> (res: Result<Event, Error>)
    requires
        old(buf)@.wf(),
    ensures
        final(buf)@.wf(),
        conforms(final(buf)@, res, bracket_step(old(buf)@, e)),
{
    let ghost text = buf@.text();
    let cursor = buf.to_char_cursor();
    let len = buf.n_chars();
    let mut target: usize = cursor;
    match e {
        Mto::Bracket(n, yin, yan, DP::Left) => {
            let mut i: usize = cursor;
            let mut m: usize = 0;
            let mut left: usize = n;
            while i > 0
                invariant_except_break
                    target == cursor,
                    unnested_left(text, cursor as int, yin, yan, 0, n as int) == unnested_left(
                        text,
                        i as int,
                        yin,
                        yan,
                        m as int,
                        left as int,
                    ),
                invariant
                    buf@.wf(),
                    buf@ == old(buf)@,
                    text == buf@.text(),
                    len == text.len(),
                    i <= cursor <= len,
                    m <= cursor - i,
                ensures
                    target == bracket_target(text, cursor as int, n as int, yin, yan, DP::Left),
                    target <= len,
                decreases i,
            {
                let ch = buf.history.char_at(i - 1);
                if ch == yin {
                    if m > 0 {
                        m -= 1;
                    } else if left <= 1 {
                        target = i - 1;
                        break ;
                    } else {
                        left -= 1;
                    }
                } else if ch == yan {
                    m += 1;
                }
                i -= 1;
            }
        },
        Mto::Bracket(n, yin, yan, DP::Right) => {
            let mut i: usize = cursor;
            let mut m: usize = 0;
            let mut left: usize = n;
            while i < len
                invariant_except_break
                    target == cursor,
                    unnested_right(text, cursor as int, yan, yin, 0, n as int) == unnested_right(
                        text,
                        i as int,
                        yan,
                        yin,
                        m as int,
                        left as int,
                    ),
                invariant
                    buf@.wf(),
                    buf@ == old(buf)@,
                    text == buf@.text(),
                    len == text.len(),
                    cursor <= i <= len,
                    m <= i - cursor,
                ensures
                    target == bracket_target(text, cursor as int, n as int, yin, yan, DP::Right),
                    target <= len,
                decreases len - i,
            {
                let ch = buf.history.char_at(i);
                if ch == yan {
                    if m > 0 {
                        m -= 1;
                    } else if left <= 1 {
                        target = i;
                        break ;
                    } else {
                        left -= 1;
                    }
                } else if ch == yin {
                    m += 1;
                }
                i += 1;
            }
        },
        _ => {
            return Err(Error::Fatal("unexpected motion".to_owned()));
        },
    }
    buf.set_cursor(target);
    Ok(Event::Noop)
}

} // verus!
