//! Cursor within the buffer, as column and row.

use vstd::prelude::*;

verus! {

/// Cursor within the buffer, where the first row, first column
/// start from (0, 0).
#[derive(Clone, Copy, Default, Debug, PartialEq, Eq, Structural)]
pub struct Cursor {
    pub col: usize,
    pub row: usize,
}

impl Cursor {
    /// The cursor at column `col` of row `row`.
    pub fn new(col: usize, row: usize) -> (c: Cursor)
        ensures
            c == (Cursor { col, row }),
    {
        Cursor { col, row }
    }

    /// Compute the difference between two cursor points. If `O` is
    /// old-cursor and `N` is new-cursor then following should hold
    /// true.
    ///
    /// * D = N - O;
    /// * N = O + D;
    ///
    /// A difference that an `isize` cannot hold is the nearest value that it
    /// can hold.
    #[inline]
    pub fn diff(&self, new: &Self) -> (d: (isize, isize))
        ensures
            d.0 == clamped(new.col - self.col),
            d.1 == clamped(new.row - self.row),
    {
        (distance(self.col, new.col), distance(self.row, new.row))
    }

    /// Row-major order: the row decides, and the column where the rows are
    /// the same.
    pub open spec fn before(self, other: Cursor) -> bool {
        self.row < other.row || (self.row == other.row && self.col < other.col)
    }

    /// Whether `self` comes before `other` in row-major order.
    pub fn is_before(&self, other: &Cursor) -> (b: bool)
        ensures
            b == self.before(*other),
    {
        self.row < other.row || (self.row == other.row && self.col < other.col)
    }
}

/// `d`, or the nearest value that an `isize` can hold.
pub open spec fn clamped(d: int) -> int {
    if d > isize::MAX {
        isize::MAX as int
    } else if d < isize::MIN {
        isize::MIN as int
    } else {
        d
    }
}

/// The distance from `a` to `b`, negative when `b` is the smaller one.
fn distance(a: usize, b: usize) -> (d: isize)
    ensures
        d == clamped(b - a),
{
    if b >= a {
        let up = b - a;
        if up > isize::MAX as usize {
            isize::MAX
        } else {
            up as isize
        }
    } else {
        let down = a - b;
        if down > isize::MAX as usize {
            isize::MIN
        } else {
            -(down as isize)
        }
    }
}

/// Row-major order is a strict total order: of two different cursors exactly
/// one comes before the other, and no cursor comes before itself.
pub proof fn lemma_cursor_order_total(a: Cursor, b: Cursor)
    ensures
        !a.before(a),
        a != b ==> (a.before(b) != b.before(a)),
        a == b ==> !a.before(b) && !b.before(a),
{
}

/// Row-major order is transitive.
pub proof fn lemma_cursor_order_transitive(a: Cursor, b: Cursor, c: Cursor)
    requires
        a.before(b),
        b.before(c),
    ensures
        a.before(c),
{
}

} // verus!
