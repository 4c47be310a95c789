//! The place of an edit window on the terminal and of the cursor in it.

use vstd::prelude::*;

verus! {

/// Cursor on the terminal, where the first row, first column start from
/// (0, 0).
#[derive(Clone, Copy, Default, Debug, PartialEq, Eq, Structural)]
pub struct WinCursor {
    pub col: u16,
    pub row: u16,
}

/// Terminal coordinates of a window: its origin, counted from (1, 1), its
/// height and its width.
#[derive(Clone, Copy, Debug, PartialEq, Eq, Structural)]
pub struct Coord {
    pub col: u16,
    pub row: u16,
    pub hgt: u16,
    pub wth: u16,
}

impl Coord {
    /// The origin is counted from 1 and the window ends on the terminal.
    pub open spec fn wf(self) -> bool {
        &&& self.col >= 1
        &&& self.row >= 1
        &&& self.col - 1 + self.wth <= u16::MAX
        &&& self.row - 1 + self.hgt <= u16::MAX
    }

    /// The window of `hgt` rows and `wth` columns with its origin at
    /// (`col`, `row`).
    pub fn new(col: u16, row: u16, hgt: u16, wth: u16) -> (coord: Coord)
        ensures
            coord == (Coord { col, row, hgt, wth }),
    {
        Coord { col, row, hgt, wth }
    }

    /// Origin of the window, counted from (1, 1).
    pub fn to_origin(&self) -> (origin: (u16, u16))
        ensures
            origin == (self.col, self.row),
    {
        (self.col, self.row)
    }

    /// The top left corner of the window as a cursor, counted from (0, 0).
    pub fn to_top_left(&self) -> (c: WinCursor)
        requires
            self.wf(),
        ensures
            c.col == self.col - 1,
            c.row == self.row - 1,
    {
        WinCursor { col: self.col - 1, row: self.row - 1 }
    }

    /// Height and width of the window.
    pub fn to_size(&self) -> (size: (u16, u16))
        ensures
            size == (self.hgt, self.wth),
    {
        (self.hgt, self.wth)
    }
}

/// A window that shows the text of a buffer, with or without a margin of
/// line numbers.
pub struct WindowEdit {
    pub(crate) coord: Coord,
    pub(crate) cursor: WinCursor,
    pub(crate) nu_wth: u16,
    pub(crate) old_bc: (usize, usize),
    pub(crate) buffer_id: String,
}

/// What an edit window holds.
pub struct WindowEditView {
    pub coord: Coord,
    pub cursor: WinCursor,
    pub nu_wth: u16,
    pub old_bc: (usize, usize),
    pub buffer_id: Seq<char>,
}

impl View for WindowEdit {
    type V = WindowEditView;

    open(crate) spec fn view(&self) -> WindowEditView {
        WindowEditView {
            coord: self.coord,
            cursor: self.cursor,
            nu_wth: self.nu_wth,
            old_bc: self.old_bc,
            buffer_id: self.buffer_id@,
        }
    }
}

impl Clone for WindowEdit {
    fn clone(&self) -> (res: WindowEdit)
        ensures
            res@ == self@,
    {
        WindowEdit {
            coord: self.coord,
            cursor: self.cursor,
            nu_wth: self.nu_wth,
            old_bc: (self.old_bc.0, self.old_bc.1),
            buffer_id: self.buffer_id.clone(),
        }
    }
}

impl WindowEditView {
    /// The window lies on the terminal and the cursor, with the margin to
    /// its left, lies in the window.
    pub open spec fn wf(self) -> bool {
        &&& self.coord.wf()
        &&& self.cursor.col + self.nu_wth <= self.coord.wth
        &&& self.cursor.row <= self.coord.hgt
    }
}

impl WindowEdit {
    /// A window at `coord` that shows no buffer yet, its cursor in the top
    /// left corner and no margin.
    #[inline]
    pub fn new(coord: Coord) -> (w: WindowEdit)
        ensures
            w@.coord == coord,
            w@.cursor == (WinCursor { col: 0, row: 0 }),
            w@.nu_wth == 0,
            w@.old_bc == (0usize, 0usize),
            w@.buffer_id.len() == 0,
            coord.wf() ==> w@.wf(),
    {
        WindowEdit {
            coord,
            cursor: WinCursor { col: 0, row: 0 },
            nu_wth: 0,
            old_bc: (0, 0),
            buffer_id: String::new(),
        }
    }

    /// The cursor on the terminal: the cursor in the window, moved by the
    /// top left corner of the window and by the width of the margin.
    #[inline]
    pub fn to_cursor(&self) -> (c: WinCursor)
        requires
            self@.wf(),
        ensures
            c.col == self@.coord.col - 1 + self@.cursor.col + self@.nu_wth,
            c.row == self@.coord.row - 1 + self@.cursor.row,
    {
        let corner = self.coord.to_top_left();
        WinCursor {
            col: corner.col + self.cursor.col + self.nu_wth,
            row: corner.row + self.cursor.row,
        }
    }

    /// Shows the buffer with identity `buffer_id` from now on.
    pub fn set_buffer(&mut self, buffer_id: String)
        ensures
            final(self)@ == (WindowEditView { buffer_id: buffer_id@, ..old(self)@ }),
    {
        self.buffer_id = buffer_id;
    }

    /// Identity of the buffer that the window shows.
    pub fn to_buffer_id(&self) -> (id: String)
        ensures
            id@ == self@.buffer_id,
    {
        self.buffer_id.clone()
    }
}

} // verus!
