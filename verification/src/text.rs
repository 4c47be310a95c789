//! The text as a sequence of characters: runs of a character class, lines
//! and the positions that the motions compute with.

use vstd::prelude::*;
use crate::chars::{CharClass, NL};

verus! {

/// Length of the longest run of `class` characters that starts at `from`.
pub open spec fn run_right(text: Seq<char>, class: CharClass, from: int) -> int
    decreases text.len() - from,
{
    if 0 <= from < text.len() && class.has(text[from]) {
        1 + run_right(text, class, from + 1)
    } else {
        0
    }
}

/// Length of the longest run of `class` characters that ends just before
/// `from`.
pub open spec fn run_left(text: Seq<char>, class: CharClass, from: int) -> int
    decreases from,
{
    if 0 < from <= text.len() && class.has(text[from - 1]) {
        1 + run_left(text, class, from - 1)
    } else {
        0
    }
}

/// Number of newlines among the first `i` characters: the index of the line
/// that position `i` lies on.
pub open spec fn newlines_before(text: Seq<char>, i: int) -> int
    decreases i,
{
    if i <= 0 {
        0
    } else {
        newlines_before(text, i - 1) + if i <= text.len() && text[i - 1] == NL {
            1int
        } else {
            0int
        }
    }
}

/// Number of lines: one more than the number of newlines, so a text that
/// ends in a newline has an empty last line.
pub open spec fn line_count(text: Seq<char>) -> int {
    newlines_before(text, text.len() as int) + 1
}

/// Index of the last line.
pub open spec fn last_line(text: Seq<char>) -> int {
    newlines_before(text, text.len() as int)
}

/// First position of the line that position `c` lies on.
pub open spec fn line_home(text: Seq<char>, c: int) -> int {
    c - run_left(text, CharClass::Inline, c)
}

/// Position of the newline that ends the line of position `c`, or the
/// length of the text on the last line.
pub open spec fn line_stop(text: Seq<char>, c: int) -> int {
    c + run_right(text, CharClass::Inline, c)
}

/// First position of line `l`. A line starts right behind the newline of the
/// line before it; a line index past the last line gives the length of the
/// text.
pub open spec fn line_start(text: Seq<char>, l: int) -> int
    decreases l,
{
    if l <= 0 {
        0
    } else {
        let stop = line_stop(text, line_start(text, l - 1));
        if stop < text.len() {
            stop + 1
        } else {
            text.len() as int
        }
    }
}

/// Number of characters of line `l`, its newline not counted.
pub open spec fn line_width(text: Seq<char>, l: int) -> int {
    line_stop(text, line_start(text, l)) - line_start(text, l)
}

/// The last position on the text: one before its length, or 0 when the text
/// is empty.
pub open spec fn last_pos(text: Seq<char>) -> int {
    if text.len() == 0 {
        0
    } else {
        text.len() - 1
    }
}

/// The smaller of two integers.
pub open spec fn min(a: int, b: int) -> int {
    if a <= b {
        a
    } else {
        b
    }
}

/// The larger of two integers.
pub open spec fn max(a: int, b: int) -> int {
    if a >= b {
        a
    } else {
        b
    }
}

/// A run to the right stays inside the text, holds only characters of the
/// class and ends before a character outside it.
pub proof fn lemma_run_right(text: Seq<char>, class: CharClass, from: int)
    requires
        0 <= from <= text.len(),
    ensures
        0 <= run_right(text, class, from) <= text.len() - from,
        forall|j: int|
            from <= j < from + run_right(text, class, from) ==> class.has(#[trigger] text[j]),
        from + run_right(text, class, from) < text.len() ==> !class.has(
            text[from + run_right(text, class, from)],
        ),
    decreases text.len() - from,
{
    if from < text.len() && class.has(text[from]) {
        lemma_run_right(text, class, from + 1);
    }
}

/// A run to the left stays inside the text, holds only characters of the
/// class and ends behind a character outside it.
pub proof fn lemma_run_left(text: Seq<char>, class: CharClass, from: int)
    requires
        0 <= from <= text.len(),
    ensures
        0 <= run_left(text, class, from) <= from,
        forall|j: int|
            from - run_left(text, class, from) <= j < from ==> class.has(#[trigger] text[j]),
        from - run_left(text, class, from) > 0 ==> !class.has(
            text[from - run_left(text, class, from) - 1],
        ),
    decreases from,
{
    if from > 0 && class.has(text[from - 1]) {
        lemma_run_left(text, class, from - 1);
    }
}

/// A stretch of `k` class characters from `from` that cannot be extended is
/// the run to the right.
pub proof fn lemma_run_right_is(text: Seq<char>, class: CharClass, from: int, k: int)
    requires
        0 <= from,
        0 <= k,
        from + k <= text.len(),
        forall|j: int| from <= j < from + k ==> class.has(#[trigger] text[j]),
        from + k == text.len() || !class.has(text[from + k]),
    ensures
        run_right(text, class, from) == k,
    decreases k,
{
    if k > 0 {
        lemma_run_right_is(text, class, from + 1, k - 1);
    }
}

/// A stretch of `k` class characters up to `from` that cannot be extended
/// is the run to the left.
pub proof fn lemma_run_left_is(text: Seq<char>, class: CharClass, from: int, k: int)
    requires
        0 <= k <= from <= text.len(),
        forall|j: int| from - k <= j < from ==> class.has(#[trigger] text[j]),
        from - k == 0 || !class.has(text[from - k - 1]),
    ensures
        run_left(text, class, from) == k,
    decreases k,
{
    if k > 0 {
        lemma_run_left_is(text, class, from - 1, k - 1);
    }
}

/// The count of newlines never falls as the position grows, and is at most
/// the position.
pub proof fn lemma_newlines_monotone(text: Seq<char>, i: int, j: int)
    requires
        i <= j,
    ensures
        0 <= newlines_before(text, i) <= newlines_before(text, j),
        newlines_before(text, j) - newlines_before(text, i) <= max(j - i, 0),
        newlines_before(text, j) <= max(j, 0),
    decreases j - i,
{
    if i < j {
        lemma_newlines_monotone(text, i, j - 1);
    } else {
        lemma_newlines_nonnegative(text, i);
    }
}

/// The count of newlines lies between 0 and the position.
pub proof fn lemma_newlines_nonnegative(text: Seq<char>, i: int)
    ensures
        0 <= newlines_before(text, i) <= max(i, 0),
    decreases i,
{
    if i > 0 {
        lemma_newlines_nonnegative(text, i - 1);
    }
}

/// Over a stretch without newline the count of newlines stays the same.
pub proof fn lemma_newlines_flat(text: Seq<char>, i: int, j: int)
    requires
        0 <= i <= j <= text.len(),
        forall|k: int| i <= k < j ==> #[trigger] text[k] != NL,
    ensures
        newlines_before(text, j) == newlines_before(text, i),
    decreases j - i,
{
    if i < j {
        lemma_newlines_flat(text, i, j - 1);
    }
}

/// The home and the stop of a position enclose it, lie inside the text, and
/// no newline stands between them.
pub proof fn lemma_line_span(text: Seq<char>, c: int)
    requires
        0 <= c <= text.len(),
    ensures
        0 <= line_home(text, c) <= c <= line_stop(text, c) <= text.len(),
        forall|j: int| line_home(text, c) <= j < line_stop(text, c) ==> #[trigger] text[j] != NL,
        line_home(text, c) > 0 ==> text[line_home(text, c) - 1] == NL,
        line_stop(text, c) < text.len() ==> text[line_stop(text, c)] == NL,
{
    lemma_run_left(text, CharClass::Inline, c);
    lemma_run_right(text, CharClass::Inline, c);
}

/// Every position between the home and the stop of a line has that home and
/// that stop.
pub proof fn lemma_same_line(text: Seq<char>, c: int, d: int)
    requires
        0 <= c <= text.len(),
        line_home(text, c) <= d <= line_stop(text, c),
    ensures
        line_home(text, d) == line_home(text, c),
        line_stop(text, d) == line_stop(text, c),
        newlines_before(text, d) == newlines_before(text, c),
{
    lemma_line_span(text, c);
    let h = line_home(text, c);
    let s = line_stop(text, c);
    lemma_run_left_is(text, CharClass::Inline, d, d - h);
    lemma_run_right_is(text, CharClass::Inline, d, s - d);
    if d <= c {
        lemma_newlines_flat(text, d, c);
    } else {
        lemma_newlines_flat(text, c, d);
    }
}

/// The line that a position lies on starts at the home of the position.
pub proof fn lemma_home_is_line_start(text: Seq<char>, c: int)
    requires
        0 <= c <= text.len(),
    ensures
        line_start(text, newlines_before(text, c)) == line_home(text, c),
    decreases c,
{
    if c > 0 {
        lemma_home_is_line_start(text, c - 1);
        lemma_newlines_nonnegative(text, c - 1);
        let h = line_home(text, c - 1);
        if text[c - 1] == NL {
            lemma_line_span(text, c - 1);
            lemma_run_right_is(text, CharClass::Inline, h, c - 1 - h);
            assert(line_stop(text, h) == c - 1);
            assert(run_left(text, CharClass::Inline, c) == 0);
        } else {
            assert(run_left(text, CharClass::Inline, c) == 1 + run_left(
                text,
                CharClass::Inline,
                c - 1,
            ));
        }
    }
}

/// A line of the text starts inside the text, with as many newlines before
/// it as its index says.
pub proof fn lemma_line_start(text: Seq<char>, l: int)
    requires
        0 <= l <= last_line(text),
    ensures
        0 <= line_start(text, l) <= text.len(),
        newlines_before(text, line_start(text, l)) == l,
        line_home(text, line_start(text, l)) == line_start(text, l),
        l < last_line(text) ==> line_stop(text, line_start(text, l)) < text.len(),
        l < last_line(text) ==> line_start(text, l + 1) == line_stop(text, line_start(text, l)) + 1,
        l == last_line(text) ==> line_stop(text, line_start(text, l)) == text.len(),
    decreases l,
{
    let n = text.len() as int;
    if l > 0 {
        lemma_line_start(text, l - 1);
        let before = line_start(text, l - 1);
        lemma_line_span(text, before);
        lemma_newlines_flat(text, before, line_stop(text, before));
    }
    let s = line_start(text, l);
    assert(0 <= s <= n && newlines_before(text, s) == l);
    lemma_line_span(text, s);
    let stop = line_stop(text, s);
    lemma_newlines_flat(text, s, stop);
    lemma_newlines_monotone(text, stop, n);
    if l < last_line(text) {
        if stop == n {
            assert(false);
        }
    } else {
        if stop < n {
            lemma_newlines_monotone(text, stop + 1, n);
            assert(false);
        }
    }
    lemma_home_is_line_start(text, s);
}

/// A line index past the last line starts at the length of the text.
pub proof fn lemma_line_start_past(text: Seq<char>, l: int)
    requires
        l > last_line(text),
    ensures
        line_start(text, l) == text.len(),
    decreases l,
{
    lemma_newlines_nonnegative(text, text.len() as int);
    if l - 1 > last_line(text) {
        lemma_line_start_past(text, l - 1);
        lemma_run_right(text, CharClass::Inline, text.len() as int);
    } else {
        lemma_line_start(text, l - 1);
    }
}

/// The start of the line that a position lies on is at or before the
/// position.
pub proof fn lemma_line_of_position(text: Seq<char>, c: int)
    requires
        0 <= c <= text.len(),
    ensures
        0 <= newlines_before(text, c) <= last_line(text),
        line_start(text, newlines_before(text, c)) <= c,
        line_start(text, newlines_before(text, c)) == line_home(text, c),
{
    lemma_home_is_line_start(text, c);
    lemma_line_span(text, c);
    lemma_newlines_monotone(text, c, text.len() as int);
}

} // verus!
