//! Pattern search: the matches of a regular expression in the text, ordered
//! so that the one next to the cursor comes first.

use vstd::prelude::*;
use vstd::utf8::encode_utf8;
use regex::Regex;
use crate::buffer::{Buffer, BufferView};
use crate::event::{Event, Mto, DP};
use crate::step::{conforms, Step};
use crate::rope::{byte_offset, char_of_byte};
use crate::text::max;
use crate::Error;

verus! {

#[verifier::external_type_specification]
#[verifier::external_body]
pub struct ExRegex(regex::Regex);

/// Whether `patt` is a regular expression that `Regex::new` accepts.
pub uninterp spec fn pattern_compiles(patt: Seq<char>) -> bool;

/// The pattern that a compiled expression was made from.
pub uninterp spec fn regex_pattern(re: Regex) -> Seq<char>;

/// The matches of `patt` in `text` as `Regex::find_iter` yields them: each
/// with the byte offsets of its start and its end.
pub uninterp spec fn pattern_matches(patt: Seq<char>, text: Seq<char>) -> Seq<(usize, usize)>;

/// The matches follow each other without overlap inside a text of `len`
/// bytes.
pub open spec fn spans_ordered(spans: Seq<(usize, usize)>, len: int) -> bool {
    &&& forall|i: int| 0 <= i < spans.len() ==> (#[trigger] spans[i]).0 <= spans[i].1 <= len
    &&& forall|i: int, j: int|
        0 <= i < j < spans.len() ==> (#[trigger] spans[i]).1 <= (#[trigger] spans[j]).0
}

/// `Regex::new`: compiles the pattern if it is a valid one of acceptable
/// size; the compiled expression remembers the pattern. What was wrong
/// with a pattern that does not compile is dropped.
#[verifier::external_body]
pub(crate) fn regex_new(patt: &str) -> (res: Option<Regex>)
    ensures
        res is Some == pattern_compiles(patt@),
        res matches Some(re) ==> regex_pattern(re) == patt@,
{
    Regex::new(patt).ok()
}

/// `Regex::find_iter`, each match taken as its start and its end: the
/// successive matches of the pattern, which do not overlap and lie inside
/// the text.
#[verifier::external_body]
pub(crate) fn regex_find_iter(re: &Regex, text: &str) -> (spans: Vec<(usize, usize)>)
    ensures
        spans@ == pattern_matches(regex_pattern(*re), text@),
        spans_ordered(spans@, encode_utf8(text@).len() as int),
{
    re.find_iter(text).map(|m| (m.start(), m.end())).collect()
}

/// The first index at or after `i` of a match that starts behind byte
/// offset `off`; the number of matches if there is none.
pub open spec fn first_after(spans: Seq<(usize, usize)>, off: int, i: int) -> int
    decreases spans.len() - i,
{
    if 0 <= i < spans.len() && spans[i].0 <= off {
        first_after(spans, off, i + 1)
    } else {
        i
    }
}

/// The index of the match that a search from byte offset `off` meets first:
/// the first match that starts behind `off`, or the first match of all if
/// none does.
pub open spec fn nearest(spans: Seq<(usize, usize)>, off: int) -> int {
    if first_after(spans, off, 0) < spans.len() {
        first_after(spans, off, 0)
    } else {
        0
    }
}

/// The matches in the order in which a forward search from `off` meets
/// them: from the nearest one to the last, then from the first one on.
pub open spec fn rotated(spans: Seq<(usize, usize)>, off: int) -> Seq<(usize, usize)> {
    spans.subrange(nearest(spans, off), spans.len() as int) + spans.subrange(
        0,
        nearest(spans, off),
    )
}

/// The matches in the order in which a search in direction `dp` from `off`
/// meets them: for a backward search, the order of the forward search turned
/// round.
pub open spec fn search_order(spans: Seq<(usize, usize)>, off: int, dp: DP) -> Seq<
    (usize, usize),
> {
    if dp == DP::Left {
        rotated(spans, off).reverse()
    } else {
        rotated(spans, off)
    }
}

/// The position of the character that byte `b` of the text belongs to; the
/// length of the text for a byte behind it.
pub open spec fn char_at_byte(text: Seq<char>, b: int) -> int {
    if b <= byte_offset(text, text.len() as int) {
        char_of_byte(text, b, 0)
    } else {
        text.len() as int
    }
}

/// Where a search for the `n`-th match from `c` in direction `dp` ends: at
/// the start of that match in the order of the search, or at `c` if there
/// are not so many matches. A count of 0 stands for 1.
pub open spec fn pattern_target(
    text: Seq<char>,
    c: int,
    spans: Seq<(usize, usize)>,
    n: int,
    dp: DP,
) -> int {
    let order = search_order(spans, byte_offset(text, c), dp);
    let k = max(n - 1, 0);
    if k < order.len() {
        char_at_byte(text, order[k].0 as int)
    } else {
        c
    }
}

/// The position that a byte belongs to lies on the text or right behind
/// it.
pub proof fn lemma_char_of_byte(text: Seq<char>, b: int, i: int)
    requires
        0 <= i <= text.len(),
    ensures
        i <= char_of_byte(text, b, i) <= text.len(),
    decreases text.len() - i,
{
    if i < text.len() && byte_offset(text, i + 1) <= b {
        lemma_char_of_byte(text, b, i + 1);
    }
}

/// In matches ordered by their start, every match before `first_after`
/// starts at or before `off` and every match from it on starts behind `off`.
pub proof fn lemma_first_after(spans: Seq<(usize, usize)>, len: int, off: int, i: int)
    requires
        spans_ordered(spans, len),
        0 <= i <= spans.len(),
    ensures
        i <= first_after(spans, off, i) <= spans.len(),
        forall|k: int| i <= k < first_after(spans, off, i) ==> (#[trigger] spans[k]).0 <= off,
        forall|k: int|
            first_after(spans, off, i) <= k < spans.len() ==> (#[trigger] spans[k]).0 > off,
    decreases spans.len() - i,
{
    if i < spans.len() && spans[i].0 <= off {
        lemma_first_after(spans, len, off, i + 1);
    } else {
        assert forall|k: int| i <= k < spans.len() implies (#[trigger] spans[k]).0 > off by {
            if k > i {
                assert(spans[i].1 <= spans[k].0);
            }
        }
    }
}

/// An index that parts the matches into those that start at or before
/// `off` and those that start behind it is `first_after`.
pub proof fn lemma_first_after_is(spans: Seq<(usize, usize)>, off: int, i: int, p: int)
    requires
        0 <= i <= p <= spans.len(),
        forall|k: int| i <= k < p ==> (#[trigger] spans[k]).0 <= off,
        p < spans.len() ==> spans[p].0 > off,
    ensures
        first_after(spans, off, i) == p,
    decreases p - i,
{
    if i < p {
        lemma_first_after_is(spans, off, i + 1, p);
    }
}

/// A compiled search pattern.
pub struct Search {
    pub(crate) patt: Regex,
}

impl Search {
    /// The pattern that the search was made from.
    pub open(crate) spec fn pattern(&self) -> Seq<char> {
        regex_pattern(self.patt)
    }

    /// Compiles `patt`; fails with `BadPattern` if and only if it does not
    /// compile.
    pub fn try_from(patt: &str) -> (res: Result<Search, Error>)
        ensures
            pattern_compiles(patt@) ==> (res matches Ok(s) && s.pattern() == patt@),
            !pattern_compiles(patt@) ==> res matches Err(Error::BadPattern(_)),
    {
        match regex_new(patt) {
            Some(re) => Ok(Search { patt: re }),
            None => Err(Error::BadPattern(patt.to_owned())),
        }
    }

    /// The matches in `text`, in the order in which a forward search from
    /// byte offset `byte_off` meets them.
    pub fn find_fwd(&self, text: &str, byte_off: usize) -> (res: Vec<(usize, usize)>)
        ensures
            res@ == rotated(pattern_matches(self.pattern(), text@), byte_off as int),
    {
        let matches = regex_find_iter(&self.patt, text);
        rotate_matches(&matches, byte_off)
    }

    /// The matches in `text`, in the order in which a backward search from
    /// byte offset `byte_off` meets them.
    pub fn find_rev(&self, text: &str, byte_off: usize) -> (res: Vec<(usize, usize)>)
        ensures
            res@ == rotated(pattern_matches(self.pattern(), text@), byte_off as int).reverse(),
    {
        let matches = self.find_fwd(text, byte_off);
        reverse_matches(&matches)
    }

    /// The index in `rs` of the match nearest to byte offset `off` in a
    /// forward search, found by halving; `None` if there is no match.
    pub fn find(off: usize, rs: &Vec<(usize, usize)>) -> (res: Option<usize>)
        requires
            exists|len: int| spans_ordered(rs@, len),
        ensures
            rs@.len() == 0 ==> res is None,
            rs@.len() > 0 ==> res == Some(nearest(rs@, off as int) as usize),
            rs@.len() > 0 ==> 0 <= nearest(rs@, off as int) < rs@.len(),
    {
        if rs.len() == 0 {
            return None;
        }
        let ghost len = choose|len: int| spans_ordered(rs@, len);
        let p = Self::find_in(off, rs, 0, rs.len());
        proof {
            lemma_first_after(rs@, len, off as int, 0);
            lemma_first_after_is(rs@, off as int, 0, p as int);
        }
        if p < rs.len() {
            Some(p)
        } else {
            Some(0)
        }
    }

    /// The first index from `lo` up to `hi` of a match that starts behind
    /// `off`, or `hi`, given that the matches before `lo` start at or before
    /// `off` and those from `hi` on start behind it.
    fn find_in(off: usize, rs: &Vec<(usize, usize)>, lo: usize, hi: usize) -> (p: usize)
        requires
            exists|len: int| spans_ordered(rs@, len),
            lo <= hi <= rs@.len(),
            forall|k: int| 0 <= k < lo ==> (#[trigger] rs@[k]).0 <= off,
            forall|k: int| hi <= k < rs@.len() ==> (#[trigger] rs@[k]).0 > off,
        ensures
            lo <= p <= hi,
            forall|k: int| 0 <= k < p ==> (#[trigger] rs@[k]).0 <= off,
            forall|k: int| p <= k < rs@.len() ==> (#[trigger] rs@[k]).0 > off,
        decreases hi - lo,
    {
        if lo == hi {
            return lo;
        }
        let ghost len = choose|len: int| spans_ordered(rs@, len);
        let m = lo + (hi - lo) / 2;
        let (s, _) = rs[m];
        if s <= off {
            assert forall|k: int| 0 <= k < m + 1 implies (#[trigger] rs@[k]).0 <= off by {
                if k < m {
                    assert(rs@[k].1 <= rs@[m as int].0);
                }
            }
            Self::find_in(off, rs, m + 1, hi)
        } else {
            assert forall|k: int| m <= k < rs@.len() implies (#[trigger] rs@[k]).0 > off by {
                if k > m {
                    assert(rs@[m as int].1 <= rs@[k].0);
                }
            }
            Self::find_in(off, rs, lo, m)
        }
    }
}

/// The matches in the order in which a forward search from byte offset
/// `byte_off` meets them.
pub fn rotate_matches(matches: &Vec<(usize, usize)>, byte_off: usize) -> (res: Vec<(usize, usize)>)
    requires
        exists|len: int| spans_ordered(matches@, len),
    ensures
        res@ == rotated(matches@, byte_off as int),
{
    let mut ms: Vec<(usize, usize)> = Vec::new();
    let n = matches.len();
    let start = match Search::find(byte_off, matches) {
        Some(i) => i,
        None => 0,
    };
    assert(start == nearest(matches@, byte_off as int)) by {
        if n == 0 {
            assert(first_after(matches@, byte_off as int, 0) == 0);
        }
    }
    let mut i: usize = start;
    while i < n
        invariant
            start <= i <= n,
            n == matches@.len(),
            ms@ == matches@.subrange(start as int, i as int),
        decreases n - i,
    {
        ms.push(matches[i]);
        i += 1;
        assert(ms@ =~= matches@.subrange(start as int, i as int));
    }
    let mut j: usize = 0;
    while j < start
        invariant
            j <= start <= n,
            n == matches@.len(),
            ms@ == matches@.subrange(start as int, n as int) + matches@.subrange(0, j as int),
        decreases start - j,
    {
        ms.push(matches[j]);
        j += 1;
        assert(ms@ =~= matches@.subrange(start as int, n as int) + matches@.subrange(
            0,
            j as int,
        ));
    }
    ms
}

/// The matches in reverse order.
pub fn reverse_matches(matches: &Vec<(usize, usize)>) -> (res: Vec<(usize, usize)>)
    ensures
        res@ == matches@.reverse(),
{
    let mut ms: Vec<(usize, usize)> = Vec::new();
    let n = matches.len();
    let mut i: usize = n;
    while i > 0
        invariant
            i <= n,
            n == matches@.len(),
            ms@.len() == n - i,
            forall|k: int| 0 <= k < ms@.len() ==> ms@[k] == matches@[n - 1 - k],
        decreases i,
    {
        i -= 1;
        ms.push(matches[i]);
    }
    assert(ms@ =~= matches@.reverse());
    ms
}

/// Where a search ends that met the matches in the order `order`: at the
/// start of the `n`-th of them, as a position in the text of `buf`, or at
/// the cursor if there are not so many.
pub fn nth_match(buf: &Buffer, order: &Vec<(usize, usize)>, n: usize) -> (target: usize)
    requires
        buf@.wf(),
    ensures
        target == if max(n - 1, 0) < order@.len() {
            char_at_byte(buf@.text(), order@[max(n - 1, 0)].0 as int)
        } else {
            buf@.cursor()
        },
        target <= buf@.text().len(),
{
    let n = if n > 0 {
        n - 1
    } else {
        0
    };
    proof {
        lemma_char_of_byte(buf@.text(), order@[n as int].0 as int, 0);
    }
    if n < order.len() {
        let (s, _) = order[n];
        buf.byte_to_char(s)
    } else {
        buf.to_char_cursor()
    }
}

/// What `mto_pattern` does with a motion. A `Pattern` motion with a pattern
/// that does not compile is reported as `BadPattern`; one with a direction
/// moves where `pattern_target` says, over the matches of the pattern in the
/// text, and keeps the remembered column; anything else is refused.
pub open spec fn pattern_step(v: BufferView, evnt: Mto) -> Step {
    match evnt {
        Mto::Pattern(n, Some(patt), dp) => if !pattern_compiles(patt@) {
            Step::bad_pattern(v)
        } else if !dp.is_direction() {
            Step::fatal(v)
        } else {
            Step::moved(
                v,
                pattern_target(
                    v.text(),
                    v.cursor(),
                    pattern_matches(patt@, v.text()),
                    n as int,
                    dp,
                ),
                v.sticky_col,
            )
        },
        _ => Step::fatal(v),
    }
}

pub fn mto_pattern(buf: &mut Buffer, evnt: Mto) -> (res: Result<Event, Error>)
    requires
        old(buf)@.wf(),
    ensures
        final(buf)@.wf(),
        conforms(final(buf)@, res, pattern_step(old(buf)@, evnt)),
{
    let (n, patt, dp) = match evnt {
        Mto::Pattern(n, Some(patt), dp) => (n, patt, dp),
        _ => {
            return Err(Error::Fatal("unexpected motion".to_owned()));
        },
    };
    let search = match Search::try_from(patt.as_str()) {
        Ok(search) => search,
        Err(err) => {
            return Err(err);
        },
    };
    let byte_off = buf.char_to_byte(buf.to_char_cursor());
    let text = buf.to_string();
    let order = match dp {
        DP::Right => search.find_fwd(text.as_str(), byte_off),
        DP::Left => search.find_rev(text.as_str(), byte_off),
        _ => {
            return Err(Error::Fatal("unexpected direction".to_owned()));
        },
    };
    let cursor = nth_match(buf, &order, n);
    buf.set_cursor(cursor);
    Ok(Event::Noop)
}

} // verus!
