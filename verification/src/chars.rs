//! Character classes that the motions tell apart.

use vstd::prelude::*;

verus! {

/// Newline character supported by the buffer.
pub const NL: char = '\n';

/// Whether `c` has the Unicode `White_Space` property, as
/// `char::is_whitespace` decides it.
pub uninterp spec fn is_blank(c: char) -> bool;

/// Whether `c` is alphabetic or numeric, as `char::is_alphanumeric`
/// decides it.
pub uninterp spec fn is_alnum(c: char) -> bool;

/// `char::is_whitespace`. The answer depends on the character alone and is
/// known to the proofs only under the name `is_blank`.
#[verifier::external_body]
pub(crate) fn char_is_blank(c: char) -> (b: bool)
    ensures
        b == is_blank(c),
{
    c.is_whitespace()
}

/// `char::is_alphanumeric`. The answer depends on the character alone and
/// is known to the proofs only under the name `is_alnum`.
#[verifier::external_body]
pub(crate) fn char_is_alnum(c: char) -> (b: bool)
    ensures
        b == is_alnum(c),
{
    c.is_alphanumeric()
}

/// A set of characters that a scan can run over.
#[derive(Clone, Copy, Debug, PartialEq, Eq, Structural)]
pub enum CharClass {
    /// White space.
    Blank,
    /// Anything but white space: the characters of a WORD.
    Solid,
    /// Letters and digits: the characters of a word.
    Alnum,
    /// Neither white space nor letter nor digit.
    Punct,
    /// Anything but the newline: the characters inside a line.
    Inline,
}

impl CharClass {
    /// Whether `c` belongs to the class.
    pub open spec fn has(self, c: char) -> bool {
        match self {
            CharClass::Blank => is_blank(c),
            CharClass::Solid => !is_blank(c),
            CharClass::Alnum => is_alnum(c),
            CharClass::Punct => !is_blank(c) && !is_alnum(c),
            CharClass::Inline => c != NL,
        }
    }

    /// Whether `c` belongs to the class.
    pub fn contains(self, c: char) -> (b: bool)
        ensures
            b == self.has(c),
    {
        match self {
            CharClass::Blank => char_is_blank(c),
            CharClass::Solid => !char_is_blank(c),
            CharClass::Alnum => char_is_alnum(c),
            CharClass::Punct => !char_is_blank(c) && !char_is_alnum(c),
            CharClass::Inline => c != NL,
        }
    }

    /// The class whose run a word motion skips when it stands on `c`:
    /// letters and digits, or else punctuation.
    pub open spec fn word_class(c: char) -> CharClass {
        if is_alnum(c) {
            CharClass::Alnum
        } else {
            CharClass::Punct
        }
    }

    /// The class whose run a word motion skips when it stands on `c`.
    pub fn of_word(c: char) -> (k: CharClass)
        ensures
            k == Self::word_class(c),
    {
        if char_is_alnum(c) {
            CharClass::Alnum
        } else {
            CharClass::Punct
        }
    }
}

} // verus!
