//! The edit history: snapshots of the text, each with a cursor, linked into
//! a graph. The snapshots live in an arena and name each other by index.

use vstd::prelude::*;
use ropey::Rope;
use crate::rope::{
    rope_char, rope_clone, rope_from_str, rope_insert, rope_insert_char, rope_len_chars,
    rope_remove, rope_text, rope_to_string, with_part, without,
};

verus! {

/// One snapshot of the text with its cursor. `parent` names the snapshot
/// that was made from this one, `children` the snapshots that this one was
/// made from.
pub struct Change {
    pub(crate) rope: Rope,
    pub(crate) parent: Option<usize>,
    pub(crate) children: Vec<usize>,
    pub(crate) cursor: usize,
}

/// What a snapshot holds.
pub struct ChangeView {
    pub text: Seq<char>,
    pub parent: Option<usize>,
    pub children: Seq<usize>,
    pub cursor: usize,
}

impl View for Change {
    type V = ChangeView;

    open(crate) spec fn view(&self) -> ChangeView {
        ChangeView {
            text: rope_text(self.rope),
            parent: self.parent,
            children: self.children@,
            cursor: self.cursor,
        }
    }
}

/// The snapshots of one buffer and the index of the newest, the head.
pub struct History {
    pub(crate) nodes: Vec<Change>,
    pub(crate) head: usize,
}

/// What a history holds.
pub struct HistoryView {
    pub nodes: Seq<ChangeView>,
    pub head: usize,
}

impl View for History {
    type V = HistoryView;

    open(crate) spec fn view(&self) -> HistoryView {
        HistoryView { nodes: Seq::new(self.nodes@.len(), |i: int| self.nodes@[i]@), head: self.head }
    }
}

/// `text` with `part` put in at `at`, unless the text cannot grow by that
/// much.
pub open spec fn text_with_part(text: Seq<char>, at: int, part: Seq<char>) -> Seq<char> {
    if text.len() + part.len() <= usize::MAX {
        with_part(text, at, part)
    } else {
        text
    }
}

impl HistoryView {
    /// Snapshot `i` was made into a newer one that lists it as a child.
    pub open spec fn linked_up(self, i: int) -> bool {
        match self.nodes[i].parent {
            Some(p) => i < p < self.nodes.len() && self.nodes[p as int].children.contains(
                i as usize,
            ),
            None => false,
        }
    }

    /// The `k`-th child of snapshot `i` is an older snapshot that names `i`
    /// as its parent.
    pub open spec fn linked_down(self, i: int, k: int) -> bool {
        let c = self.nodes[i].children[k];
        c < i && self.nodes[c as int].parent == Some(i as usize)
    }

    /// The head is a snapshot without parent, every other snapshot has been
    /// made into a newer one, the links agree in both directions, every
    /// cursor lies on its text or right behind it, and no text is longer than
    /// the machine can count.
    pub open spec fn wf(self) -> bool {
        &&& self.head < self.nodes.len() <= usize::MAX
        &&& self.nodes[self.head as int].parent is None
        &&& forall|i: int|
            0 <= i < self.nodes.len() ==> (#[trigger] self.nodes[i]).cursor
                <= self.nodes[i].text.len() <= usize::MAX
        &&& forall|i: int|
            0 <= i < self.nodes.len() && i != self.head ==> #[trigger] self.linked_up(i)
        &&& forall|i: int, k: int|
            0 <= i < self.nodes.len() && 0 <= k < self.nodes[i].children.len()
                ==> #[trigger] self.linked_down(i, k)
    }

    /// The text of the head.
    pub open spec fn text(self) -> Seq<char> {
        self.nodes[self.head as int].text
    }

    /// The cursor of the head.
    pub open spec fn cursor(self) -> usize {
        self.nodes[self.head as int].cursor
    }

    /// Whether the head was made from an earlier snapshot.
    pub open spec fn is_modified(self) -> bool {
        self.nodes[self.head as int].children.len() > 0
    }

    /// The history with the cursor of the head at `cursor`.
    pub open spec fn with_cursor(self, cursor: usize) -> HistoryView {
        HistoryView {
            nodes: self.nodes.update(
                self.head as int,
                ChangeView { cursor, ..self.nodes[self.head as int] },
            ),
            ..self
        }
    }

    /// The history with `text` and `cursor` in the head.
    pub open spec fn with_text(self, text: Seq<char>, cursor: usize) -> HistoryView {
        HistoryView {
            nodes: self.nodes.update(
                self.head as int,
                ChangeView { text, cursor, ..self.nodes[self.head as int] },
            ),
            ..self
        }
    }

    /// The history after a new head was made from the head: the new head
    /// has the text and the cursor of the old one and the old one as its
    /// only child; the old head has the new one as its parent; nothing else
    /// changes.
    pub open spec fn advanced(self) -> HistoryView {
        let old_head = self.nodes[self.head as int];
        let next = self.nodes.len() as usize;
        HistoryView {
            nodes: self.nodes.update(
                self.head as int,
                ChangeView { parent: Some(next), ..old_head },
            ).push(
                ChangeView {
                    text: old_head.text,
                    parent: None,
                    children: seq![self.head],
                    cursor: old_head.cursor,
                },
            ),
            head: next,
        }
    }

    /// The history after a new head was made and `ch` was put in at its
    /// cursor, the cursor moving behind it.
    pub open spec fn char_inserted(self, ch: char) -> HistoryView {
        let a = self.advanced();
        if a.text().len() < usize::MAX {
            a.with_text(a.text().insert(a.cursor() as int, ch), (a.cursor() + 1) as usize)
        } else {
            a
        }
    }

    /// The history after a new head was made and `part` was put in at
    /// position `at`, or at the end of the text if `at` lies behind it.
    pub open spec fn part_inserted(self, at: usize, part: Seq<char>) -> HistoryView {
        let a = self.advanced();
        let at = if at <= a.text().len() {
            at as int
        } else {
            a.text().len() as int
        };
        a.with_text(text_with_part(a.text(), at, part), a.cursor())
    }

    /// The history after a new head was made and the characters from `from`
    /// up to `to` were taken out of it. A cursor behind `from` moves left by
    /// the number of characters taken out before it.
    pub open spec fn range_removed(self, from: int, to: int) -> HistoryView {
        let a = self.advanced();
        if 0 <= from < to <= a.text().len() {
            a.with_text(without(a.text(), from, to), cursor_after_removal(a.cursor(), from, to))
        } else {
            a
        }
    }
}

/// Where a cursor stands after the characters from `from` up to `to` were
/// taken out: unmoved before `from`, at `from` inside the range, and moved
/// left by the length of the range behind it.
pub open spec fn cursor_after_removal(cursor: usize, from: int, to: int) -> usize {
    if cursor <= from {
        cursor
    } else if cursor < to {
        from as usize
    } else {
        (cursor - (to - from)) as usize
    }
}

/// Making a new head keeps a history well formed.
pub proof fn lemma_advanced_wf(h: HistoryView)
    requires
        h.wf(),
        h.nodes.len() < usize::MAX,
    ensures
        h.advanced().wf(),
        h.advanced().is_modified(),
        h.advanced().text() == h.text(),
        h.advanced().cursor() == h.cursor(),
{
    let a = h.advanced();
    let n = h.nodes.len() as int;
    assert(a.nodes.len() == n + 1);
    assert(a.nodes[n].children[0] == h.head);
    assert forall|i: int| 0 <= i < a.nodes.len() && i != a.head implies #[trigger] a.linked_up(
        i,
    ) by {
        if i == h.head {
            assert(a.nodes[i].parent == Some(n as usize));
            assert(a.nodes[n].children[0] == i as usize);
        } else {
            assert(h.linked_up(i));
            let p = h.nodes[i].parent->Some_0;
            assert(a.nodes[p as int].children == h.nodes[p as int].children);
        }
    }
    assert forall|i: int, k: int|
        0 <= i < a.nodes.len() && 0 <= k < a.nodes[i].children.len() implies #[trigger] a.linked_down(
        i,
        k,
    ) by {
        if i < n {
            assert(a.nodes[i].children == h.nodes[i].children);
            assert(h.linked_down(i, k));
            let c = h.nodes[i].children[k];
            assert(c != h.head);
        }
    }
}

/// Moving the cursor of the head, or changing its text, keeps a history
/// well formed as long as the cursor lies on the new text or right behind it.
pub proof fn lemma_with_text_wf(h: HistoryView, text: Seq<char>, cursor: usize)
    requires
        h.wf(),
        cursor <= text.len() <= usize::MAX,
    ensures
        h.with_text(text, cursor).wf(),
        h.with_text(text, cursor).is_modified() == h.is_modified(),
        h.with_text(h.text(), cursor) == h.with_cursor(cursor),
{
    let a = h.with_text(text, cursor);
    assert forall|i: int| 0 <= i < a.nodes.len() && i != a.head implies #[trigger] a.linked_up(
        i,
    ) by {
        assert(h.linked_up(i));
    }
    assert forall|i: int, k: int|
        0 <= i < a.nodes.len() && 0 <= k < a.nodes[i].children.len() implies #[trigger] a.linked_down(
        i,
        k,
    ) by {
        assert(h.linked_down(i, k));
    }
}

/// A new head leaves every earlier snapshot with the text it had: the old
/// head stays readable as it was.
pub proof fn lemma_advance_keeps_texts(h: HistoryView, i: int)
    requires
        h.wf(),
        h.nodes.len() < usize::MAX,
        0 <= i < h.nodes.len(),
    ensures
        h.advanced().nodes[i].text == h.nodes[i].text,
        h.advanced().nodes[i].cursor == h.nodes[i].cursor,
        h.advanced().text() == h.text(),
{
}

/// Changing the head leaves the text of every other snapshot as it was.
pub proof fn lemma_edit_keeps_past(h: HistoryView, text: Seq<char>, cursor: usize, i: int)
    requires
        h.wf(),
        0 <= i < h.nodes.len(),
        i != h.head,
    ensures
        h.with_text(text, cursor).nodes[i] == h.nodes[i],
{
}

/// Putting `part` in at `at` and taking the same span out again gives the
/// text back.
pub proof fn lemma_insert_then_remove(text: Seq<char>, at: int, part: Seq<char>)
    requires
        0 <= at <= text.len(),
    ensures
        without(with_part(text, at, part), at, at + part.len()) == text,
{
    let grown = with_part(text, at, part);
    assert(grown.len() == text.len() + part.len());
    assert(without(grown, at, at + part.len()) =~= text);
}

impl History {
    /// A history of one snapshot that holds `text`, the cursor at 0.
    pub fn start(text: &str) -> (h: History)
        ensures
            h@.wf(),
            h@.nodes.len() == 1,
            h@.head == 0,
            h@.text() == text@,
            h@.cursor() == 0,
            h@.nodes[0].parent is None,
            h@.nodes[0].children.len() == 0,
            !h@.is_modified(),
    {
        let rope = rope_from_str(text);
        // the rope counts its characters, so the machine can count the text.
        let _ = rope_len_chars(&rope);
        let mut nodes: Vec<Change> = Vec::new();
        nodes.push(Change { rope, parent: None, children: Vec::new(), cursor: 0 });
        let h = History { nodes, head: 0 };
        assert(h@.nodes[0] == h.nodes@[0]@);
        h
    }

    /// Makes a new head from the head and returns its index. The old head
    /// keeps its text and its cursor and becomes the child of the new one.
    pub fn advance(&mut self) -> (next: usize)
        requires
            old(self)@.wf(),
        ensures
            final(self)@ == old(self)@.advanced(),
            final(self)@.wf(),
            next == final(self)@.head,
    {
        let prev = self.head;
        let next = self.nodes.len();
        let rope = rope_clone(&self.nodes[prev].rope);
        let cursor = self.nodes[prev].cursor;
        let mut children: Vec<usize> = Vec::new();
        children.push(prev);
        self.nodes[prev].parent = Some(next);
        self.nodes.push(Change { rope, parent: None, children, cursor });
        self.head = next;
        // the arena counts its snapshots, so the machine can count them.
        let grown = self.nodes.len();
        proof {
            assert(grown == old(self).nodes@.len() + 1);
            lemma_advanced_wf(old(self)@);
            assert(children@ =~= seq![prev]);
            assert(self@.nodes =~= old(self)@.advanced().nodes);
        }
        next
    }

    /// Index of the head.
    pub fn head(&self) -> (i: usize)
        ensures
            i == self@.head,
    {
        self.head
    }

    /// Number of snapshots.
    pub fn len(&self) -> (n: usize)
        ensures
            n == self@.nodes.len(),
    {
        self.nodes.len()
    }

    /// The text of snapshot `i`, if there is such a snapshot.
    pub fn text_of(&self, i: usize) -> (res: Option<String>)
        ensures
            i < self@.nodes.len() ==> (res matches Some(s) && s@ == self@.nodes[i as int].text),
            i >= self@.nodes.len() ==> res is None,
    {
        if i < self.nodes.len() {
            Some(rope_to_string(&self.nodes[i].rope))
        } else {
            None
        }
    }

    /// The cursor of snapshot `i`, if there is such a snapshot.
    pub fn cursor_of(&self, i: usize) -> (res: Option<usize>)
        ensures
            i < self@.nodes.len() ==> res == Some(self@.nodes[i as int].cursor),
            i >= self@.nodes.len() ==> res is None,
    {
        if i < self.nodes.len() {
            Some(self.nodes[i].cursor)
        } else {
            None
        }
    }

    /// The snapshot that was made from snapshot `i`, if any.
    pub fn parent_of(&self, i: usize) -> (res: Option<usize>)
        ensures
            i < self@.nodes.len() ==> res == self@.nodes[i as int].parent,
            i >= self@.nodes.len() ==> res is None,
    {
        if i < self.nodes.len() {
            self.nodes[i].parent
        } else {
            None
        }
    }

    /// The snapshots that snapshot `i` was made from; none if there is no
    /// such snapshot.
    pub fn children_of(&self, i: usize) -> (res: Vec<usize>)
        ensures
            i < self@.nodes.len() ==> res@ == self@.nodes[i as int].children,
            i >= self@.nodes.len() ==> res@.len() == 0,
    {
        if i < self.nodes.len() {
            self.nodes[i].children.clone()
        } else {
            Vec::new()
        }
    }

    /// Whether the head was made from an earlier snapshot.
    pub fn is_modified(&self) -> (b: bool)
        requires
            self@.wf(),
        ensures
            b == self@.is_modified(),
    {
        let change = &self.nodes[self.head];
        change.parent.is_some() || change.children.len() > 0
    }

    /// The cursor of the head.
    pub fn to_char_cursor(&self) -> (c: usize)
        requires
            self@.wf(),
        ensures
            c == self@.cursor(),
            c <= self@.text().len(),
    {
        self.nodes[self.head].cursor
    }

    /// Number of characters of the head's text.
    pub fn n_chars(&self) -> (n: usize)
        requires
            self@.wf(),
        ensures
            n == self@.text().len(),
    {
        rope_len_chars(&self.nodes[self.head].rope)
    }

    /// The character at position `i` of the head's text.
    pub fn char_at(&self, i: usize) -> (c: char)
        requires
            self@.wf(),
            i < self@.text().len(),
        ensures
            c == self@.text()[i as int],
    {
        rope_char(&self.nodes[self.head].rope, i)
    }

    /// The rope of the head.
    pub(crate) fn rope(&self) -> (r: &Rope)
        requires
            self@.wf(),
        ensures
            rope_text(*r) == self@.text(),
    {
        &self.nodes[self.head].rope
    }

    /// Puts the cursor of the head at `cursor`, or right behind the text if
    /// `cursor` lies further.
    pub fn set_cursor(&mut self, cursor: usize)
        requires
            old(self)@.wf(),
        ensures
            final(self)@.wf(),
            cursor <= old(self)@.text().len() ==> final(self)@ == old(self)@.with_cursor(cursor),
            cursor > old(self)@.text().len() ==> final(self)@ == old(self)@.with_cursor(
                old(self)@.text().len() as usize,
            ),
    {
        let head = self.head;
        let n = rope_len_chars(&self.nodes[head].rope);
        let cursor = if cursor <= n {
            cursor
        } else {
            n
        };
        proof {
            lemma_with_text_wf(self@, self@.text(), cursor);
        }
        self.nodes[head].cursor = cursor;
        proof {
            assert(self@.nodes =~= old(self)@.with_cursor(cursor).nodes);
        }
    }

    /// Puts `ch` in at the cursor of the head and moves the cursor behind
    /// it. A text of the greatest length that the machine can count stays
    /// as it is.
    pub fn insert_char(&mut self, ch: char)
        requires
            old(self)@.wf(),
        ensures
            final(self)@.wf(),
            old(self)@.text().len() < usize::MAX ==> final(self)@ == old(self)@.with_text(
                old(self)@.text().insert(old(self)@.cursor() as int, ch),
                (old(self)@.cursor() + 1) as usize,
            ),
            old(self)@.text().len() >= usize::MAX ==> final(self)@ == old(self)@,
    {
        let head = self.head;
        let n = rope_len_chars(&self.nodes[head].rope);
        if n < usize::MAX {
            let cursor = self.nodes[head].cursor;
            proof {
                lemma_with_text_wf(
                    self@,
                    self@.text().insert(cursor as int, ch),
                    (cursor + 1) as usize,
                );
            }
            rope_insert_char(&mut self.nodes[head].rope, cursor, ch);
            self.nodes[head].cursor = cursor + 1;
            proof {
                assert(self@.nodes =~= old(self)@.with_text(
                    old(self)@.text().insert(cursor as int, ch),
                    (cursor + 1) as usize,
                ).nodes);
            }
        } else {
            proof {
                assert(self@.nodes =~= old(self)@.nodes);
            }
        }
    }

    /// Puts `part` in at position `at` of the head's text. The cursor stays
    /// where it is.
    pub fn insert(&mut self, at: usize, part: &str)
        requires
            old(self)@.wf(),
            at <= old(self)@.text().len(),
        ensures
            final(self)@.wf(),
            final(self)@ == old(self)@.with_text(
                text_with_part(old(self)@.text(), at as int, part@),
                old(self)@.cursor(),
            ),
    {
        let head = self.head;
        let n = rope_len_chars(&self.nodes[head].rope);
        let m = part.unicode_len();
        if m <= usize::MAX - n {
            proof {
                lemma_with_text_wf(
                    self@,
                    with_part(self@.text(), at as int, part@),
                    self@.cursor(),
                );
            }
            rope_insert(&mut self.nodes[head].rope, at, part);
            proof {
                assert(self@.nodes =~= old(self)@.with_text(
                    with_part(old(self)@.text(), at as int, part@),
                    old(self)@.cursor(),
                ).nodes);
            }
        } else {
            proof {
                assert(self@.nodes =~= old(self)@.with_text(
                    old(self)@.text(),
                    old(self)@.cursor(),
                ).nodes);
            }
        }
    }

    /// Takes the characters from `from` up to `to` out of the head's text.
    /// A cursor behind `from` moves left by the number of characters taken
    /// out before it.
    pub fn remove(&mut self, from: usize, to: usize)
        requires
            old(self)@.wf(),
            from <= to <= old(self)@.text().len(),
        ensures
            final(self)@.wf(),
            final(self)@ == old(self)@.with_text(
                without(old(self)@.text(), from as int, to as int),
                cursor_after_removal(old(self)@.cursor(), from as int, to as int),
            ),
    {
        let head = self.head;
        let cursor = self.nodes[head].cursor;
        let moved = if cursor <= from {
            cursor
        } else if cursor < to {
            from
        } else {
            cursor - (to - from)
        };
        proof {
            lemma_with_text_wf(self@, without(self@.text(), from as int, to as int), moved);
        }
        rope_remove(&mut self.nodes[head].rope, from, to);
        self.nodes[head].cursor = moved;
        proof {
            assert(self@.nodes =~= old(self)@.with_text(
                without(old(self)@.text(), from as int, to as int),
                moved,
            ).nodes);
        }
    }
}

} // verus!
