//! Module `buffer` implement editing and cursor movement commands
//! over text content.

use vstd::prelude::*;
use vstd::utf8::{encode_utf8, valid_utf8};
use crate::cursor::Cursor;
use crate::event::{Event, Mto};
use crate::history::{History, HistoryView};
use crate::rope::{
    byte_offset, char_of_byte, rope_byte_to_char, rope_char_to_byte, rope_char_to_line,
    rope_len_bytes, rope_len_lines, rope_line_to_char, rope_slice, rope_to_string,
};
use crate::text::{
    lemma_line_of_position, lemma_line_start, lemma_line_start_past, line_count, line_home,
    line_start, newlines_before,
};
use crate::Error;

verus! {

/// Maximum number of lines supported by this buffer implementation.
pub const MAX_LINES: usize = 1_000_000_000;

/// Where the content of a buffer comes from.
#[derive(Debug, PartialEq, Eq)]
pub enum Location {
    /// Content that lives in memory only, under a name.
    Memory { name: String },
    /// A file on disk.
    Disk { path_file: String },
    /// Content that the editor itself made, under a name.
    Ted { name: String },
}

impl Clone for Location {
    fn clone(&self) -> (res: Location)
        ensures
            res == *self,
    {
        match self {
            Location::Memory { name } => Location::Memory { name: name.clone() },
            Location::Disk { path_file } => Location::Disk { path_file: path_file.clone() },
            Location::Ted { name } => Location::Ted { name: name.clone() },
        }
    }
}

impl Default for Location {
    fn default() -> (loc: Location)
        ensures
            loc.id().len() == 0,
            loc is Memory,
    {
        Location::Memory { name: String::new() }
    }
}

impl Location {
    /// The name or the path that identifies the location.
    pub open spec fn id(self) -> Seq<char> {
        match self {
            Location::Memory { name } => name@,
            Location::Disk { path_file } => path_file@,
            Location::Ted { name } => name@,
        }
    }
}

/// Text-format of a buffer.
#[derive(Clone, Copy, Debug, PartialEq, Eq, Structural)]
pub enum Format {
    Text,
    Code,
}

impl Default for Format {
    fn default() -> (f: Format)
        ensures
            f == Format::Text,
    {
        Format::Text
    }
}

/// The column that vertical motions aim for, once a motion to the home or
/// the end of a line has asked for it.
#[derive(Clone, Copy, Debug, PartialEq, Eq, Structural)]
pub enum StickyCol {
    Home,
    End,
    /// No column is remembered.
    Unset,
}

impl Default for StickyCol {
    fn default() -> (s: StickyCol)
        ensures
            s == StickyCol::Unset,
    {
        StickyCol::Unset
    }
}

/// The two modes of a buffer. Both work on the same head of the history, so
/// switching changes the tag and nothing else.
#[derive(Clone, Copy, Debug, PartialEq, Eq, Structural)]
pub enum Mode {
    Insert,
    Normal,
}

/// An end of a range of positions.
#[derive(Clone, Copy, Debug, PartialEq, Eq, Structural)]
pub enum Bound {
    Included(usize),
    Excluded(usize),
    Unbounded,
}

// all bits and pieces of content is managed by buffer.
pub struct Buffer {
    /// Source for this buffer, typically a file from local disk.
    pub(crate) location: Location,
    /// Mark this buffer read-only, in which case insert ops are not allowed.
    pub(crate) read_only: bool,
    /// Text-format for this buffer.
    pub(crate) format: Format,
    // Buffer number, handed out by whoever creates buffers.
    pub(crate) num: usize,
    // Buffer states
    pub(crate) history: History,
    pub(crate) mode: Mode,
    // sticky state for cursor column.
    pub(crate) sticky_col: StickyCol,
    // Last search command applied on this buffer.
    pub(crate) mto_pattern: Mto,
    // Last find character command (within the line) applied on this buffer.
    pub(crate) mto_find_char: Mto,
    // Number of times to repeat an insert operation.
    pub(crate) insert_repeat: usize,
    // Collection of events applied during the last insert session.
    pub(crate) last_inserts: Vec<Event>,
}

/// What a buffer holds.
pub struct BufferView {
    pub location: Location,
    pub read_only: bool,
    pub format: Format,
    pub num: usize,
    pub history: HistoryView,
    pub mode: Mode,
    pub sticky_col: StickyCol,
    pub mto_pattern: Mto,
    pub mto_find_char: Mto,
    pub insert_repeat: usize,
    pub last_inserts: Seq<Event>,
}

impl View for Buffer {
    type V = BufferView;

    open(crate) spec fn view(&self) -> BufferView {
        BufferView {
            location: self.location,
            read_only: self.read_only,
            format: self.format,
            num: self.num,
            history: self.history@,
            mode: self.mode,
            sticky_col: self.sticky_col,
            mto_pattern: self.mto_pattern,
            mto_find_char: self.mto_find_char,
            insert_repeat: self.insert_repeat,
            last_inserts: self.last_inserts@,
        }
    }
}

impl BufferView {
    /// The history is well formed.
    pub open spec fn wf(self) -> bool {
        self.history.wf()
    }

    /// The text of the buffer.
    pub open spec fn text(self) -> Seq<char> {
        self.history.text()
    }

    /// The cursor as a position in the text.
    pub open spec fn cursor(self) -> int {
        self.history.cursor() as int
    }

    /// Whether the text was changed since the buffer was made.
    pub open spec fn is_modified(self) -> bool {
        self.history.is_modified()
    }

    /// The buffer with the cursor at `cursor`.
    pub open spec fn at(self, cursor: int) -> BufferView {
        BufferView { history: self.history.with_cursor(cursor as usize), ..self }
    }

    /// The buffer with `sticky_col` remembered.
    pub open spec fn stuck(self, sticky_col: StickyCol) -> BufferView {
        BufferView { sticky_col, ..self }
    }

    /// The buffer in `mode`.
    pub open spec fn in_mode(self, mode: Mode) -> BufferView {
        BufferView { mode, ..self }
    }

    /// The buffer after a new head was made and `ch` was put in at the
    /// cursor.
    pub open spec fn char_inserted(self, ch: char) -> BufferView {
        BufferView { history: self.history.char_inserted(ch), ..self }
    }

    /// The buffer after a new head was made and `part` was put in at `at`.
    pub open spec fn part_inserted(self, at: usize, part: Seq<char>) -> BufferView {
        BufferView { history: self.history.part_inserted(at, part), ..self }
    }

    /// The buffer after a new head was made and the characters from `from`
    /// up to `to` were taken out.
    pub open spec fn range_removed(self, from: int, to: int) -> BufferView {
        BufferView { history: self.history.range_removed(from, to), ..self }
    }

    /// The buffer after a new head was made and up to `n` characters before
    /// the cursor were taken out.
    pub open spec fn backspaced(self, n: usize) -> BufferView {
        let from = if n <= self.cursor() {
            self.cursor() - n
        } else {
            0
        };
        self.range_removed(from, self.cursor())
    }

    /// The first position of the range that the two bounds describe on a
    /// text of `n` characters.
    pub open spec fn range_from(from: Bound, n: int) -> int {
        match from {
            Bound::Included(a) => if a < n {
                a as int
            } else if n > 0 {
                n - 1
            } else {
                0
            },
            Bound::Excluded(a) => if a < n {
                a + 1
            } else {
                n
            },
            Bound::Unbounded => 0,
        }
    }

    /// The position behind the range that the two bounds describe on a text
    /// of `n` characters.
    pub open spec fn range_to(to: Bound, n: int) -> int {
        match to {
            Bound::Included(z) => if z < n {
                z + 1
            } else {
                n
            },
            Bound::Excluded(z) => if z < n {
                z as int
            } else {
                n
            },
            Bound::Unbounded => n,
        }
    }
}

/// Putting `part` in at `at` with `cmd_insert` and then taking the span from
/// `at` up to `at` plus the length of `part` out with `cmd_remove_at` gives
/// a buffer with the text that it had before, as long as the machine can
/// count the longer text and the two new snapshots. Left out is the empty
/// `part` at the end of a text that is not empty: a range that starts behind
/// the text is read as starting on its last character.
pub proof fn lemma_insert_remove_round_trip(v: BufferView, at: usize, part: Seq<char>)
    requires
        v.wf(),
        at <= v.text().len(),
        v.text().len() + part.len() <= usize::MAX,
        v.history.nodes.len() + 2 <= usize::MAX,
        part.len() > 0 || at < v.text().len() || v.text().len() == 0,
    ensures
        v.part_inserted(at, part).range_removed(
            BufferView::range_from(
                Bound::Included(at),
                v.part_inserted(at, part).text().len() as int,
            ),
            BufferView::range_to(
                Bound::Excluded((at + part.len()) as usize),
                v.part_inserted(at, part).text().len() as int,
            ),
        ).text() == v.text(),
{
    crate::history::lemma_insert_then_remove(v.text(), at as int, part);
    let grown = v.part_inserted(at, part);
    assert(grown.text() == crate::rope::with_part(v.text(), at as int, part));
    assert(grown.text().len() == v.text().len() + part.len());
}

/// `std::str::from_utf8`: the bytes as text, if they are well-formed UTF-8;
/// the text then encodes to the same bytes.
#[verifier::external_body]
pub(crate) fn utf8_text(data: &[u8]) -> (res: Option<&str>)
    ensures
        res.is_some() == valid_utf8(data@),
        res matches Some(s) ==> encode_utf8(s@) == data@,
{
    std::str::from_utf8(data).ok()
}

/// Create and configure a text buffer.
impl Buffer {
    /// A buffer in Normal mode over the text that `data` encodes in UTF-8,
    /// the cursor at 0 and nothing modified. `num` is the number that the
    /// creator gives to this buffer. Fails with `FailBuffer` if and only if
    /// `data` is not well-formed UTF-8.
    pub fn from_reader(data: &[u8], loc: Location, num: usize) -> (res: Result<Buffer, Error>)
        ensures
            valid_utf8(data@) ==> (res matches Ok(b) && b@.wf() && encode_utf8(b@.text()) == data@
                && b@.cursor() == 0 && !b@.is_modified() && b@.history.nodes.len() == 1
                && b@.mode == Mode::Normal && b@.location == loc && b@.num == num
                && !b@.read_only && b@.format == Format::Text && b@.sticky_col
                == StickyCol::Unset && b@.mto_pattern == Mto::Nop && b@.mto_find_char == Mto::Nop
                && b@.insert_repeat == 0 && b@.last_inserts.len() == 0),
            !valid_utf8(data@) ==> res matches Err(Error::FailBuffer(_)),
    {
        match utf8_text(data) {
            Some(text) => Ok(
                Buffer {
                    location: loc,
                    read_only: false,
                    format: Format::Text,
                    num,
                    history: History::start(text),
                    mode: Mode::Normal,
                    sticky_col: StickyCol::Unset,
                    mto_pattern: Mto::Nop,
                    mto_find_char: Mto::Nop,
                    insert_repeat: 0,
                    last_inserts: Vec::new(),
                },
            ),
            None => Err(Error::FailBuffer("content is not valid utf8".to_owned())),
        }
    }

    /// A buffer in Normal mode over `text`, the cursor at 0 and nothing
    /// modified.
    pub fn from_text(text: &str, loc: Location, num: usize) -> (b: Buffer)
        ensures
            b@.wf(),
            b@.text() == text@,
            b@.cursor() == 0,
            !b@.is_modified(),
            b@.history.nodes.len() == 1,
            b@.mode == Mode::Normal,
            b@.location == loc,
            b@.num == num,
            !b@.read_only,
            b@.format == Format::Text,
            b@.sticky_col == StickyCol::Unset,
            b@.mto_pattern == Mto::Nop,
            b@.mto_find_char == Mto::Nop,
            b@.insert_repeat == 0,
            b@.last_inserts.len() == 0,
    {
        Buffer {
            location: loc,
            read_only: false,
            format: Format::Text,
            num,
            history: History::start(text),
            mode: Mode::Normal,
            sticky_col: StickyCol::Unset,
            mto_pattern: Mto::Nop,
            mto_find_char: Mto::Nop,
            insert_repeat: 0,
            last_inserts: Vec::new(),
        }
    }

    /// An empty buffer in memory, with number 0.
    pub fn empty() -> (b: Buffer)
        ensures
            b@.wf(),
            b@.text().len() == 0,
            b@.cursor() == 0,
            !b@.is_modified(),
            b@.mode == Mode::Normal,
            b@.num == 0,
            !b@.read_only,
            b@.insert_repeat == 0,
            b@.last_inserts.len() == 0,
    {
        let b = Self::from_text("", Location::default(), 0);
        proof {
            reveal_strlit("");
        }
        b
    }

    /// Puts the cursor at `cursor`, or right behind the text if `cursor`
    /// lies further.
    pub fn set_cursor(&mut self, cursor: usize)
        requires
            old(self)@.wf(),
        ensures
            final(self)@.wf(),
            cursor <= old(self)@.text().len() ==> final(self)@ == old(self)@.at(cursor as int),
            cursor > old(self)@.text().len() ==> final(self)@ == old(self)@.at(
                old(self)@.text().len() as int,
            ),
    {
        self.history.set_cursor(cursor);
    }

    pub fn set_read_only(&mut self, read_only: bool)
        ensures
            final(self)@ == (BufferView { read_only, ..old(self)@ }),
    {
        self.read_only = read_only;
    }

    pub fn set_format(&mut self, format: Format)
        ensures
            final(self)@ == (BufferView { format, ..old(self)@ }),
    {
        self.format = format;
    }
}

impl Buffer {
    /// Return whether buffer is marked read-only.
    #[inline]
    pub fn is_read_only(&self) -> (b: bool)
        ensures
            b == self@.read_only,
    {
        self.read_only
    }

    /// Return whether buffer is marked as modified.
    #[inline]
    pub fn is_modified(&self) -> (b: bool)
        requires
            self@.wf(),
        ensures
            b == self@.is_modified(),
    {
        self.history.is_modified()
    }

    /// Return current buffer state as string.
    #[inline]
    pub fn to_mode(&self) -> (s: &'static str)
        ensures
            self@.mode == Mode::Insert ==> s@ == "insert"@,
            self@.mode == Mode::Normal ==> s@ == "normal"@,
    {
        match self.mode {
            Mode::Insert => "insert",
            Mode::Normal => "normal",
        }
    }

    /// Return buffer id, constructed from its location string.
    #[inline]
    pub fn to_id(&self) -> (id: String)
        ensures
            id@ == self@.location.id(),
    {
        match &self.location {
            Location::Memory { name } => name.clone(),
            Location::Disk { path_file } => path_file.clone(),
            Location::Ted { name } => name.clone(),
        }
    }

    /// Buffer number, handy for users to rotate between buffers.
    #[inline]
    pub fn to_num(&self) -> (n: usize)
        ensures
            n == self@.num,
    {
        self.num
    }

    /// Return buffer's location.
    #[inline]
    pub fn to_location(&self) -> (loc: Location)
        ensures
            loc == self@.location,
    {
        self.location.clone()
    }

    /// Return buffer's text-format.
    #[inline]
    pub fn to_format(&self) -> (f: Format)
        ensures
            f == self@.format,
    {
        self.format
    }

    /// Return the underlying text, if buffer is really large this can be
    /// a costly operation.
    #[inline]
    pub fn to_string(&self) -> (s: String)
        requires
            self@.wf(),
        ensures
            s@ == self@.text(),
    {
        rope_to_string(self.history.rope())
    }

    /// The position of the character that byte `byte_idx` of the text in
    /// UTF-8 belongs to, or the number of characters if there is no such
    /// byte.
    pub fn byte_to_char(&self, byte_idx: usize) -> (c: usize)
        requires
            self@.wf(),
        ensures
            byte_idx <= byte_offset(self@.text(), self@.text().len() as int) ==> c == char_of_byte(
                self@.text(),
                byte_idx as int,
                0,
            ),
            byte_idx > byte_offset(self@.text(), self@.text().len() as int) ==> c
                == self@.text().len(),
    {
        let rope = self.history.rope();
        if byte_idx <= rope_len_bytes(rope) {
            rope_byte_to_char(rope, byte_idx)
        } else {
            self.history.n_chars()
        }
    }

    /// The byte offset in UTF-8 of position `char_idx`, which is at most
    /// the number of characters.
    pub fn char_to_byte(&self, char_idx: usize) -> (b: usize)
        requires
            self@.wf(),
            char_idx <= self@.text().len(),
        ensures
            b == byte_offset(self@.text(), char_idx as int),
    {
        rope_char_to_byte(self.history.rope(), char_idx)
    }

    /// The edit history of the buffer.
    pub fn as_history(&self) -> (h: &History)
        ensures
            h@ == self@.history,
    {
        &self.history
    }

    /// The events of the insert session that is going on or was the last.
    pub fn to_last_inserts(&self) -> (log: Vec<Event>)
        ensures
            log@ == self@.last_inserts,
    {
        let mut log: Vec<Event> = Vec::new();
        let mut i: usize = 0;
        while i < self.last_inserts.len()
            invariant
                i <= self.last_inserts.len(),
                log@ == self.last_inserts@.subrange(0, i as int),
            decreases self.last_inserts.len() - i,
        {
            log.push(self.last_inserts[i].clone());
            i += 1;
            assert(log@ =~= self.last_inserts@.subrange(0, i as int));
        }
        assert(log@ =~= self.last_inserts@);
        log
    }

    /// The column that vertical motions aim for.
    pub fn to_sticky_col(&self) -> (s: StickyCol)
        ensures
            s == self@.sticky_col,
    {
        self.sticky_col
    }

    /// How often the insert session will be repeated when it ends.
    pub fn to_insert_repeat(&self) -> (n: usize)
        ensures
            n == self@.insert_repeat,
    {
        self.insert_repeat
    }
}

impl Buffer {
    /// The cursor as a position in the text.
    #[inline]
    pub fn to_char_cursor(&self) -> (c: usize)
        requires
            self@.wf(),
        ensures
            c == self@.cursor(),
            c <= self@.text().len(),
    {
        self.history.to_char_cursor()
    }

    /// The cursor as column and row.
    pub fn to_xy_cursor(&self) -> (c: Cursor)
        requires
            self@.wf(),
        ensures
            c.row == newlines_before(self@.text(), self@.cursor()),
            c.col == self@.cursor() - line_home(self@.text(), self@.cursor()),
    {
        let cursor = self.history.to_char_cursor();
        let rope = self.history.rope();
        proof {
            lemma_line_of_position(self@.text(), cursor as int);
        }
        let row_at = rope_char_to_line(rope, cursor);
        let col_at = cursor - rope_line_to_char(rope, row_at);
        Cursor { col: col_at, row: row_at }
    }

    /// Number of characters in the text.
    pub fn n_chars(&self) -> (n: usize)
        requires
            self@.wf(),
        ensures
            n == self@.text().len(),
    {
        self.history.n_chars()
    }

    /// Number of lines in the text: one more than the number of newlines.
    pub fn n_lines(&self) -> (n: usize)
        requires
            self@.wf(),
        ensures
            n == line_count(self@.text()),
            n >= 1,
    {
        proof {
            crate::text::lemma_newlines_nonnegative(self@.text(), self@.text().len() as int);
        }
        rope_len_lines(self.history.rope())
    }

    /// Index of the line that position `char_idx` lies on.
    pub fn char_to_line(&self, char_idx: usize) -> (l: usize)
        requires
            self@.wf(),
            char_idx <= self@.text().len(),
        ensures
            l == newlines_before(self@.text(), char_idx as int),
            l < line_count(self@.text()),
    {
        proof {
            lemma_line_of_position(self@.text(), char_idx as int);
        }
        rope_char_to_line(self.history.rope(), char_idx)
    }

    /// First position of line `line_idx`; the number of characters for the
    /// line index one past the last line.
    pub fn line_to_char(&self, line_idx: usize) -> (c: usize)
        requires
            self@.wf(),
            line_idx <= line_count(self@.text()),
        ensures
            c == line_start(self@.text(), line_idx as int),
            c <= self@.text().len(),
    {
        proof {
            if line_idx < line_count(self@.text()) {
                lemma_line_start(self@.text(), line_idx as int);
            } else {
                lemma_line_start_past(self@.text(), line_idx as int);
            }
        }
        rope_line_to_char(self.history.rope(), line_idx)
    }

    /// Number of characters of line `line_idx`, its newline counted.
    pub fn len_line(&self, line_idx: usize) -> (n: usize)
        requires
            self@.wf(),
            line_idx < line_count(self@.text()),
        ensures
            n == line_start(self@.text(), line_idx + 1) - line_start(self@.text(), line_idx as int),
    {
        let rope = self.history.rope();
        proof {
            lemma_line_start(self@.text(), line_idx as int);
            if line_idx + 1 < line_count(self@.text()) {
                lemma_line_start(self@.text(), line_idx + 1);
            } else {
                lemma_line_start_past(self@.text(), line_idx + 1);
            }
            crate::text::lemma_line_span(self@.text(), line_start(self@.text(), line_idx as int));
        }
        // the rope counts its lines, so there is a line index behind `line_idx`.
        let _ = rope_len_lines(rope);
        let a = rope_line_to_char(rope, line_idx);
        let z = rope_line_to_char(rope, line_idx + 1);
        z - a
    }

    /// The text of line `line_idx`, its newline included.
    pub fn line(&self, line_idx: usize) -> (s: String)
        requires
            self@.wf(),
            line_idx < line_count(self@.text()),
        ensures
            s@ == self@.text().subrange(
                line_start(self@.text(), line_idx as int),
                line_start(self@.text(), line_idx + 1),
            ),
    {
        let rope = self.history.rope();
        proof {
            lemma_line_start(self@.text(), line_idx as int);
            if line_idx + 1 < line_count(self@.text()) {
                lemma_line_start(self@.text(), line_idx + 1);
            } else {
                lemma_line_start_past(self@.text(), line_idx + 1);
            }
            crate::text::lemma_line_span(self@.text(), line_start(self@.text(), line_idx as int));
        }
        // the rope counts its lines, so there is a line index behind `line_idx`.
        let _ = rope_len_lines(rope);
        let a = rope_line_to_char(rope, line_idx);
        let z = rope_line_to_char(rope, line_idx + 1);
        rope_slice(rope, a, z)
    }

    /// First position of the line that the cursor is on.
    #[inline]
    pub fn to_line_home(&self) -> (c: usize)
        requires
            self@.wf(),
        ensures
            c == line_home(self@.text(), self@.cursor()),
            c <= self@.cursor(),
    {
        let cursor = self.history.to_char_cursor();
        let rope = self.history.rope();
        proof {
            lemma_line_of_position(self@.text(), cursor as int);
        }
        let line_idx = rope_char_to_line(rope, cursor);
        rope_line_to_char(rope, line_idx)
    }
}

impl Buffer {
    /// Switches to Normal mode.
    pub fn mode_normal(&mut self)
        ensures
            final(self)@ == old(self)@.in_mode(Mode::Normal),
    {
        self.mode = Mode::Normal;
    }

    /// Switches to Insert mode.
    pub fn mode_insert(&mut self)
        ensures
            final(self)@ == old(self)@.in_mode(Mode::Insert),
    {
        self.mode = Mode::Insert;
    }

    /// Makes a new head and puts `ch` in at the cursor, which moves behind
    /// it.
    pub fn cmd_insert_char(&mut self, ch: char)
        requires
            old(self)@.wf(),
        ensures
            final(self)@.wf(),
            final(self)@ == old(self)@.char_inserted(ch),
            final(self)@.is_modified(),
    {
        self.history.advance();
        self.history.insert_char(ch);
    }

    /// Makes a new head and puts `text` in at position `char_idx`, or at the
    /// end of the text if `char_idx` lies behind it. The cursor stays where
    /// it is.
    pub fn cmd_insert(&mut self, char_idx: usize, text: &str)
        requires
            old(self)@.wf(),
        ensures
            final(self)@.wf(),
            final(self)@ == old(self)@.part_inserted(char_idx, text@),
            final(self)@.is_modified(),
    {
        self.history.advance();
        let n = self.history.n_chars();
        let at = if char_idx <= n {
            char_idx
        } else {
            n
        };
        self.history.insert(at, text);
    }

    /// Makes a new head and takes up to `n` characters out before the
    /// cursor, which moves left with them.
    pub fn cmd_backspace(&mut self, n: usize)
        requires
            old(self)@.wf(),
        ensures
            final(self)@.wf(),
            final(self)@ == old(self)@.backspaced(n),
            final(self)@.is_modified(),
    {
        self.history.advance();
        let cursor = self.history.to_char_cursor();
        let from = if n <= cursor {
            cursor - n
        } else {
            0
        };
        if from < cursor {
            self.history.remove(from, cursor);
        }
    }

    /// Makes a new head and takes out the characters that the two bounds
    /// enclose, as far as the text has them.
    pub fn cmd_remove_at(&mut self, a: Bound, z: Bound)
        requires
            old(self)@.wf(),
        ensures
            final(self)@.wf(),
            final(self)@ == old(self)@.range_removed(
                BufferView::range_from(a, old(self)@.text().len() as int),
                BufferView::range_to(z, old(self)@.text().len() as int),
            ),
            final(self)@.is_modified(),
    {
        self.history.advance();
        let n = self.history.n_chars();
        let from = match a {
            Bound::Included(from) => if from < n {
                from
            } else if n > 0 {
                n - 1
            } else {
                0
            },
            Bound::Excluded(from) => if from < n {
                from + 1
            } else {
                n
            },
            Bound::Unbounded => 0,
        };
        let to = match z {
            Bound::Included(to) => if to < n {
                to + 1
            } else {
                n
            },
            Bound::Excluded(to) => if to < n {
                to
            } else {
                n
            },
            Bound::Unbounded => n,
        };
        if from < to {
            self.history.remove(from, to);
        }
    }
}

} // verus!
