//! The text store: a rope, known to the proofs by the characters it holds.
//!
//! The rope is built so that the line feed is its only line break.

use vstd::prelude::*;
use vstd::utf8::encode_utf8;
use ropey::Rope;
use crate::text::{line_count, line_start, newlines_before};

verus! {

#[verifier::external_type_specification]
#[verifier::external_body]
pub struct ExRope(ropey::Rope);

/// The characters that a rope holds, in order.
pub uninterp spec fn rope_text(rope: Rope) -> Seq<char>;

/// Byte offset of position `i`: the length in UTF-8 of the first `i`
/// characters.
pub open spec fn byte_offset(text: Seq<char>, i: int) -> int {
    encode_utf8(text.subrange(0, i)).len() as int
}

/// The last position at or after `i` whose byte offset is at most `b`. From
/// position 0 this is the character that byte `b` belongs to.
pub open spec fn char_of_byte(text: Seq<char>, b: int, i: int) -> int
    decreases text.len() - i,
{
    if 0 <= i < text.len() && byte_offset(text, i + 1) <= b {
        char_of_byte(text, b, i + 1)
    } else {
        i
    }
}

/// What is left of `text` when the characters from `from` up to `to` are
/// taken out.
pub open spec fn without(text: Seq<char>, from: int, to: int) -> Seq<char> {
    text.subrange(0, from) + text.subrange(to, text.len() as int)
}

/// `text` with `part` put in at position `at`.
pub open spec fn with_part(text: Seq<char>, at: int, part: Seq<char>) -> Seq<char> {
    text.subrange(0, at) + part + text.subrange(at, text.len() as int)
}

/// `Rope::from_str`: the rope holds the characters of the string.
#[verifier::external_body]
pub(crate) fn rope_from_str(s: &str) -> (rope: Rope)
    ensures
        rope_text(rope) == s@,
{
    Rope::from_str(s)
}

/// `Rope::clone`: the copy holds the same characters.
#[verifier::external_body]
pub(crate) fn rope_clone(rope: &Rope) -> (copy: Rope)
    ensures
        rope_text(copy) == rope_text(*rope),
{
    rope.clone()
}

/// `String::from(&Rope)`: the string holds the characters of the rope.
#[verifier::external_body]
pub(crate) fn rope_to_string(rope: &Rope) -> (s: String)
    ensures
        s@ == rope_text(*rope),
{
    String::from(rope)
}

/// `Rope::slice` on the range `from..to`, made into a `String`: the
/// characters from `from` up to `to`.
#[verifier::external_body]
pub(crate) fn rope_slice(rope: &Rope, from: usize, to: usize) -> (s: String)
    requires
        from <= to <= rope_text(*rope).len(),
    ensures
        s@ == rope_text(*rope).subrange(from as int, to as int),
{
    String::from(rope.slice(from..to))
}

/// `Rope::len_chars`: the number of characters.
#[verifier::external_body]
pub(crate) fn rope_len_chars(rope: &Rope) -> (n: usize)
    ensures
        n == rope_text(*rope).len(),
{
    rope.len_chars()
}

/// `Rope::len_bytes`: the length of the text in UTF-8.
#[verifier::external_body]
pub(crate) fn rope_len_bytes(rope: &Rope) -> (n: usize)
    ensures
        n == byte_offset(rope_text(*rope), rope_text(*rope).len() as int),
{
    rope.len_bytes()
}

/// `Rope::len_lines`: one more than the number of line feeds.
#[verifier::external_body]
pub(crate) fn rope_len_lines(rope: &Rope) -> (n: usize)
    ensures
        n == line_count(rope_text(*rope)),
{
    rope.len_lines()
}

/// `Rope::char`: the character at a position inside the text.
#[verifier::external_body]
pub(crate) fn rope_char(rope: &Rope, i: usize) -> (c: char)
    requires
        i < rope_text(*rope).len(),
    ensures
        c == rope_text(*rope)[i as int],
{
    rope.char(i)
}

/// `Rope::char_to_line`: the number of line feeds before a position, which
/// may be the length of the text.
#[verifier::external_body]
pub(crate) fn rope_char_to_line(rope: &Rope, i: usize) -> (l: usize)
    requires
        i <= rope_text(*rope).len(),
    ensures
        l == newlines_before(rope_text(*rope), i as int),
{
    rope.char_to_line(i)
}

/// `Rope::line_to_char`: the position right behind the line feed that ends
/// the line before, 0 for the first line, and the length of the text for the
/// line index one past the last.
#[verifier::external_body]
pub(crate) fn rope_line_to_char(rope: &Rope, l: usize) -> (c: usize)
    requires
        l <= line_count(rope_text(*rope)),
    ensures
        c == line_start(rope_text(*rope), l as int),
{
    rope.line_to_char(l)
}

/// `Rope::char_to_byte`: the length in UTF-8 of the text before a position,
/// which may be the length of the text.
#[verifier::external_body]
pub(crate) fn rope_char_to_byte(rope: &Rope, i: usize) -> (b: usize)
    requires
        i <= rope_text(*rope).len(),
    ensures
        b == byte_offset(rope_text(*rope), i as int),
{
    rope.char_to_byte(i)
}

/// `Rope::byte_to_char`: the position of the character that a byte belongs
/// to, and the number of characters for the byte offset one past the end.
#[verifier::external_body]
pub(crate) fn rope_byte_to_char(rope: &Rope, b: usize) -> (i: usize)
    requires
        b <= byte_offset(rope_text(*rope), rope_text(*rope).len() as int),
    ensures
        i == char_of_byte(rope_text(*rope), b as int, 0),
{
    rope.byte_to_char(b)
}

/// `Rope::insert_char`: the character stands at the position, and what was
/// there or behind it has moved one to the right.
#[verifier::external_body]
pub(crate) fn rope_insert_char(rope: &mut Rope, i: usize, ch: char)
    requires
        i <= rope_text(*old(rope)).len(),
        rope_text(*old(rope)).len() < usize::MAX,
    ensures
        rope_text(*final(rope)) == rope_text(*old(rope)).insert(i as int, ch),
{
    rope.insert_char(i, ch)
}

/// `Rope::insert`: the characters of the string stand at the position, in
/// order, between what was before it and what was behind it.
#[verifier::external_body]
pub(crate) fn rope_insert(rope: &mut Rope, i: usize, part: &str)
    requires
        i <= rope_text(*old(rope)).len(),
        rope_text(*old(rope)).len() + part@.len() <= usize::MAX,
    ensures
        rope_text(*final(rope)) == with_part(rope_text(*old(rope)), i as int, part@),
{
    rope.insert(i, part)
}

/// `Rope::remove` on the range `from..to`: the characters from `from` up to
/// `to` are gone, the others keep their order.
#[verifier::external_body]
pub(crate) fn rope_remove(rope: &mut Rope, from: usize, to: usize)
    requires
        from <= to <= rope_text(*old(rope)).len(),
    ensures
        rope_text(*final(rope)) == without(rope_text(*old(rope)), from as int, to as int),
{
    rope.remove(from..to)
}

} // verus!
