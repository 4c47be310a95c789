//! Scans over the text of a buffer: runs of a character class and the n-th
//! place that carries a mark.

use vstd::prelude::*;
use crate::buffer::Buffer;
use crate::chars::{char_is_blank, is_blank, CharClass, NL};
use crate::event::DP;
use crate::Error;
use crate::text::{
    last_pos, lemma_line_of_position, lemma_line_span, lemma_line_start, lemma_same_line,
    line_count, line_home, line_start, line_stop, min, run_left, run_right,
};

verus! {

/// What a scan looks for at a position of the text.
#[derive(Clone, Copy, Debug, PartialEq, Eq, Structural)]
pub enum Mark {
    /// The position holds this character.
    Char(char),
    /// A sentence ends before the position: a full stop stands before it and
    /// white space on it, or a newline stands before it and on it.
    SentenceBreak,
    /// The position is the start of a blank line: it holds a newline and is
    /// the first of its line.
    BlankLine,
}

impl Mark {
    /// Whether position `i` of `text` carries the mark.
    pub open spec fn at(self, text: Seq<char>, i: int) -> bool {
        0 <= i < text.len() && match self {
            Mark::Char(ch) => text[i] == ch,
            Mark::SentenceBreak => i > 0 && ((text[i - 1] == '.' && is_blank(text[i])) || (text[i
                - 1] == NL && text[i] == NL)),
            Mark::BlankLine => text[i] == NL && (i == 0 || text[i - 1] == NL),
        }
    }
}

/// The `n`-th position from `from` up to `stop` that carries `mark`, counted
/// from 1 and going right; a count of 0 stands for 1.
pub open spec fn nth_right(text: Seq<char>, mark: Mark, from: int, stop: int, n: int) -> Option<
    int,
>
    decreases stop - from,
{
    if from >= stop {
        None
    } else if mark.at(text, from) {
        if n <= 1 {
            Some(from)
        } else {
            nth_right(text, mark, from + 1, stop, n - 1)
        }
    } else {
        nth_right(text, mark, from + 1, stop, n)
    }
}

/// The `n`-th position below `from` and not below `stop` that carries
/// `mark`, counted from 1 and going left; a count of 0 stands for 1.
pub open spec fn nth_left(text: Seq<char>, mark: Mark, stop: int, from: int, n: int) -> Option<
    int,
>
    decreases from - stop,
{
    if from <= stop {
        None
    } else if mark.at(text, from - 1) {
        if n <= 1 {
            Some(from - 1)
        } else {
            nth_left(text, mark, stop, from - 1, n - 1)
        }
    } else {
        nth_left(text, mark, stop, from - 1, n)
    }
}

/// Where the cursor stands after white space to the right of `c` was
/// skipped: behind the white space, but not behind the last character.
pub open spec fn skip_blank_right(text: Seq<char>, c: int) -> int {
    min(c + run_right(text, CharClass::Blank, c), last_pos(text))
}

/// Where the cursor stands after white space to the left of `c` was skipped:
/// on the first of the white space characters that end before `c`.
pub open spec fn skip_blank_left(text: Seq<char>, c: int) -> int {
    c - run_left(text, CharClass::Blank, c)
}

/// A found place lies in the range that was scanned, to the right.
pub proof fn lemma_nth_right(text: Seq<char>, mark: Mark, from: int, stop: int, n: int)
    ensures
        nth_right(text, mark, from, stop, n) matches Some(p) ==> from <= p < stop && mark.at(
            text,
            p,
        ),
    decreases stop - from,
{
    if from < stop {
        if mark.at(text, from) {
            if n > 1 {
                lemma_nth_right(text, mark, from + 1, stop, n - 1);
            }
        } else {
            lemma_nth_right(text, mark, from + 1, stop, n);
        }
    }
}

/// A found place lies in the range that was scanned, to the left.
pub proof fn lemma_nth_left(text: Seq<char>, mark: Mark, stop: int, from: int, n: int)
    ensures
        nth_left(text, mark, stop, from, n) matches Some(p) ==> stop <= p < from && mark.at(
            text,
            p,
        ),
    decreases from - stop,
{
    if from > stop {
        if mark.at(text, from - 1) {
            if n > 1 {
                lemma_nth_left(text, mark, stop, from - 1, n - 1);
            }
        } else {
            lemma_nth_left(text, mark, stop, from - 1, n);
        }
    }
}

impl Buffer {
    /// Whether position `i` of the text carries `mark`.
    pub fn has_mark(&self, mark: Mark, i: usize) -> (b: bool)
        requires
            self@.wf(),
        ensures
            b == mark.at(self@.text(), i as int),
    {
        let n = self.history.n_chars();
        if i >= n {
            return false;
        }
        let here = self.history.char_at(i);
        match mark {
            Mark::Char(ch) => here == ch,
            Mark::SentenceBreak => {
                if i == 0 {
                    false
                } else {
                    let before = self.history.char_at(i - 1);
                    (before == '.' && char_is_blank(here)) || (before == NL && here == NL)
                }
            },
            Mark::BlankLine => {
                here == NL && (i == 0 || self.history.char_at(i - 1) == NL)
            },
        }
    }

    /// The `n`-th position from `from` up to `stop` that carries `mark`.
    pub fn find_right(&self, mark: Mark, from: usize, stop: usize, n: usize) -> (res: Option<
        usize,
    >)
        requires
            self@.wf(),
        ensures
            res is Some == nth_right(self@.text(), mark, from as int, stop as int, n as int)
                is Some,
            res matches Some(p) ==> nth_right(self@.text(), mark, from as int, stop as int, n as int)
                == Some(p as int),
    {
        let ghost text = self@.text();
        let mut i: usize = from;
        let mut left: usize = n;
        while i < stop
            invariant
                self@.wf(),
                text == self@.text(),
                from <= i,
                nth_right(text, mark, from as int, stop as int, n as int) == nth_right(
                    text,
                    mark,
                    i as int,
                    stop as int,
                    left as int,
                ),
            decreases stop - i,
        {
            if self.has_mark(mark, i) {
                if left <= 1 {
                    return Some(i);
                }
                left -= 1;
            }
            i += 1;
        }
        None
    }

    /// The `n`-th position below `from` and not below `stop` that carries
    /// `mark`, going left.
    pub fn find_left(&self, mark: Mark, stop: usize, from: usize, n: usize) -> (res: Option<
        usize,
    >)
        requires
            self@.wf(),
        ensures
            res is Some == nth_left(self@.text(), mark, stop as int, from as int, n as int)
                is Some,
            res matches Some(p) ==> nth_left(self@.text(), mark, stop as int, from as int, n as int)
                == Some(p as int),
    {
        let ghost text = self@.text();
        let mut i: usize = from;
        let mut left: usize = n;
        while i > stop
            invariant
                self@.wf(),
                text == self@.text(),
                i <= from,
                nth_left(text, mark, stop as int, from as int, n as int) == nth_left(
                    text,
                    mark,
                    stop as int,
                    i as int,
                    left as int,
                ),
            decreases i - stop,
        {
            if self.has_mark(mark, i - 1) {
                if left <= 1 {
                    return Some(i - 1);
                }
                left -= 1;
            }
            i -= 1;
        }
        None
    }

    /// Length of the run of `class` characters that starts at `from`.
    pub fn run_right(&self, class: CharClass, from: usize) -> (k: usize)
        requires
            self@.wf(),
        ensures
            k == run_right(self@.text(), class, from as int),
            from <= self@.text().len() ==> from + k <= self@.text().len(),
    {
        let ghost text = self@.text();
        let n = self.history.n_chars();
        if from >= n {
            return 0;
        }
        let mut i: usize = from;
        while i < n
            invariant
                self@.wf(),
                text == self@.text(),
                n == text.len(),
                from <= i <= n,
                run_right(text, class, from as int) == (i - from) + run_right(
                    text,
                    class,
                    i as int,
                ),
            decreases n - i,
        {
            if !class.contains(self.history.char_at(i)) {
                return i - from;
            }
            i += 1;
        }
        i - from
    }

    /// Length of the run of `class` characters that ends just before
    /// `from`.
    pub fn run_left(&self, class: CharClass, from: usize) -> (k: usize)
        requires
            self@.wf(),
        ensures
            k == run_left(self@.text(), class, from as int),
            k <= from,
    {
        let ghost text = self@.text();
        let n = self.history.n_chars();
        if from > n {
            return 0;
        }
        let mut i: usize = from;
        while i > 0
            invariant
                self@.wf(),
                text == self@.text(),
                n == text.len(),
                i <= from <= n,
                run_left(text, class, from as int) == (from - i) + run_left(text, class, i as int),
            decreases i,
        {
            if !class.contains(self.history.char_at(i - 1)) {
                return from - i;
            }
            i -= 1;
        }
        from - i
    }

    /// First position of the line that position `c` lies on.
    pub fn to_home_of(&self, c: usize) -> (home: usize)
        requires
            self@.wf(),
            c <= self@.text().len(),
        ensures
            home == line_home(self@.text(), c as int),
            home <= c,
    {
        proof {
            lemma_line_of_position(self@.text(), c as int);
            lemma_line_span(self@.text(), c as int);
        }
        let row = self.char_to_line(c);
        self.line_to_char(row)
    }

    /// Position of the newline that ends the line of position `c`, or the
    /// number of characters on the last line.
    pub fn to_line_stop(&self, c: usize) -> (stop: usize)
        requires
            self@.wf(),
            c <= self@.text().len(),
        ensures
            stop == line_stop(self@.text(), c as int),
            c <= stop <= self@.text().len(),
    {
        let ghost text = self@.text();
        let row = self.char_to_line(c);
        let n_lines = self.n_lines();
        proof {
            lemma_line_of_position(text, c as int);
            lemma_line_span(text, c as int);
            lemma_line_start(text, row as int);
            lemma_same_line(text, c as int, line_home(text, c as int));
        }
        if row + 1 < n_lines {
            self.line_to_char(row + 1) - 1
        } else {
            self.history.n_chars()
        }
    }

    /// Skips white space to the right of the cursor, which comes to stand
    /// behind it, but not behind the last character. Returns the number of
    /// white space characters.
    pub fn skip_blank_right(&mut self) -> (k: usize)
        requires
            old(self)@.wf(),
        ensures
            final(self)@.wf(),
            k == run_right(old(self)@.text(), CharClass::Blank, old(self)@.cursor()),
            final(self)@ == old(self)@.at(skip_blank_right(old(self)@.text(), old(self)@.cursor())),
    {
        let cursor = self.history.to_char_cursor();
        let n = self.history.n_chars();
        let k = self.run_right(CharClass::Blank, cursor);
        let last = if n == 0 {
            0
        } else {
            n - 1
        };
        let target = if cursor + k <= last {
            cursor + k
        } else {
            last
        };
        self.history.set_cursor(target);
        k
    }

    /// Skips white space to the left of the cursor, which comes to stand on
    /// the first character of it. Returns the number of white space
    /// characters.
    pub fn skip_blank_left(&mut self) -> (k: usize)
        requires
            old(self)@.wf(),
        ensures
            final(self)@.wf(),
            k == run_left(old(self)@.text(), CharClass::Blank, old(self)@.cursor()),
            final(self)@ == old(self)@.at(skip_blank_left(old(self)@.text(), old(self)@.cursor())),
    {
        let cursor = self.history.to_char_cursor();
        let k = self.run_left(CharClass::Blank, cursor);
        self.history.set_cursor(cursor - k);
        k
    }
}

/// The text of line `l`, its newline included.
pub open spec fn line_text(text: Seq<char>, l: int) -> Seq<char> {
    text.subrange(line_start(text, l), line_start(text, l + 1))
}

/// The characters that a walk from position `at` meets: going right, those
/// from `at` on; going left, those before `at`, the nearest first.
pub open spec fn chars_from(text: Seq<char>, at: int, dp: DP) -> Seq<char> {
    if dp == DP::Right {
        text.subrange(at, text.len() as int)
    } else {
        text.subrange(0, at).reverse()
    }
}

/// Whether `lines` are the lines that a walk from line `at` meets: going
/// right, those from `at` on; going left, those above `at`, the nearest
/// first.
pub open spec fn lines_from(text: Seq<char>, at: int, dp: DP, lines: Seq<String>) -> bool {
    if dp == DP::Right {
        &&& lines.len() == line_count(text) - at
        &&& forall|k: int| 0 <= k < lines.len() ==> (#[trigger] lines[k])@ == line_text(text, at + k)
    } else {
        &&& lines.len() == at
        &&& forall|k: int|
            0 <= k < lines.len() ==> (#[trigger] lines[k])@ == line_text(text, at - 1 - k)
    }
}

impl Buffer {
    /// The characters from position `char_idx` on (`Right`), or those before
    /// it, the nearest first (`Left`). A position behind the text counts as
    /// the end of the text. Any other qualifier is refused as `Fatal`.
    pub fn chars_at(&self, char_idx: usize, dp: DP) -> (res: Result<Vec<char>, Error>)
        requires
            self@.wf(),
        ensures
            dp.is_direction() ==> (res matches Ok(chars) && chars@ == chars_from(
                self@.text(),
                min(char_idx as int, self@.text().len() as int),
                dp,
            )),
            !dp.is_direction() ==> res matches Err(Error::Fatal(_)),
    {
        let ghost text = self@.text();
        let n = self.history.n_chars();
        let at = if char_idx <= n {
            char_idx
        } else {
            n
        };
        let mut chars: Vec<char> = Vec::new();
        match dp {
            DP::Right => {
                let mut i: usize = at;
                while i < n
                    invariant
                        self@.wf(),
                        text == self@.text(),
                        n == text.len(),
                        at <= i <= n,
                        chars@ == text.subrange(at as int, i as int),
                    decreases n - i,
                {
                    chars.push(self.history.char_at(i));
                    i += 1;
                    assert(chars@ =~= text.subrange(at as int, i as int));
                }
                Ok(chars)
            },
            DP::Left => {
                let mut i: usize = at;
                while i > 0
                    invariant
                        self@.wf(),
                        text == self@.text(),
                        n == text.len(),
                        i <= at <= n,
                        chars@.len() == at - i,
                        forall|k: int| 0 <= k < chars@.len() ==> chars@[k] == text[at - 1 - k],
                    decreases i,
                {
                    i -= 1;
                    chars.push(self.history.char_at(i));
                }
                assert(chars@ =~= text.subrange(0, at as int).reverse());
                Ok(chars)
            },
            _ => Err(Error::Fatal("unreachable".to_owned())),
        }
    }

    /// The lines from line `line_idx` on (`Right`), or those above it, the
    /// nearest first (`Left`), each with its newline. A line index past the
    /// last line counts as the end of the text. Any other qualifier is
    /// refused as `Fatal`.
    pub fn lines_at(&self, line_idx: usize, dp: DP) -> (res: Result<Vec<String>, Error>)
        requires
            self@.wf(),
        ensures
            dp.is_direction() ==> (res matches Ok(lines) && lines_from(
                self@.text(),
                min(line_idx as int, line_count(self@.text())),
                dp,
                lines@,
            )),
            !dp.is_direction() ==> res matches Err(Error::Fatal(_)),
    {
        let ghost text = self@.text();
        let n = self.n_lines();
        let at = if line_idx <= n {
            line_idx
        } else {
            n
        };
        let mut lines: Vec<String> = Vec::new();
        match dp {
            DP::Right => {
                let mut i: usize = at;
                while i < n
                    invariant
                        self@.wf(),
                        text == self@.text(),
                        n == line_count(text),
                        at <= i <= n,
                        lines@.len() == i - at,
                        forall|k: int|
                            0 <= k < lines@.len() ==> (#[trigger] lines@[k])@ == line_text(
                                text,
                                at + k,
                            ),
                    decreases n - i,
                {
                    lines.push(self.line(i));
                    i += 1;
                }
                Ok(lines)
            },
            DP::Left => {
                let mut i: usize = at;
                while i > 0
                    invariant
                        self@.wf(),
                        text == self@.text(),
                        n == line_count(text),
                        i <= at <= n,
                        lines@.len() == at - i,
                        forall|k: int|
                            0 <= k < lines@.len() ==> (#[trigger] lines@[k])@ == line_text(
                                text,
                                at - 1 - k,
                            ),
                    decreases i,
                {
                    i -= 1;
                    lines.push(self.line(i));
                }
                Ok(lines)
            },
            _ => Err(Error::Fatal("unreachable".to_owned())),
        }
    }
}

} // verus!
