//! The buffers of an application and the numbers that it hands out to them.

use vstd::prelude::*;
use crate::buffer::{Buffer, BufferView};

verus! {

// Application state
pub struct State {
    pub(crate) buffers: Vec<Buffer>,
    // Number of the buffer that was created last.
    pub(crate) last_num: usize,
}

/// What the state holds.
pub struct StateView {
    pub buffers: Seq<BufferView>,
    pub last_num: usize,
}

impl View for State {
    type V = StateView;

    open(crate) spec fn view(&self) -> StateView {
        StateView {
            buffers: Seq::new(self.buffers@.len(), |i: int| self.buffers@[i]@),
            last_num: self.last_num,
        }
    }
}

/// The first index at or after `i` of a buffer with identity `id`; the
/// number of buffers if there is none.
pub open spec fn index_of(buffers: Seq<BufferView>, id: Seq<char>, i: int) -> int
    decreases buffers.len() - i,
{
    if 0 <= i < buffers.len() && buffers[i].location.id() != id {
        index_of(buffers, id, i + 1)
    } else {
        i
    }
}

/// The index that `index_of` gives lies among the buffers or right behind
/// them, and no buffer before it has the identity.
pub proof fn lemma_index_of(buffers: Seq<BufferView>, id: Seq<char>, i: int)
    requires
        0 <= i <= buffers.len(),
    ensures
        i <= index_of(buffers, id, i) <= buffers.len(),
        index_of(buffers, id, i) < buffers.len() ==> buffers[index_of(
            buffers,
            id,
            i,
        )].location.id() == id,
        forall|k: int| i <= k < index_of(buffers, id, i) ==> (#[trigger] buffers[k]).location.id() != id,
    decreases buffers.len() - i,
{
    if i < buffers.len() && buffers[i].location.id() != id {
        lemma_index_of(buffers, id, i + 1);
    }
}

impl StateView {
    /// Every buffer is well formed.
    pub open spec fn wf(self) -> bool {
        forall|i: int| 0 <= i < self.buffers.len() ==> (#[trigger] self.buffers[i]).wf()
    }

    /// Whether there is a buffer with identity `id`.
    pub open spec fn has(self, id: Seq<char>) -> bool {
        index_of(self.buffers, id, 0) < self.buffers.len()
    }

    /// The first buffer with identity `id`.
    pub open spec fn buffer(self, id: Seq<char>) -> BufferView {
        self.buffers[index_of(self.buffers, id, 0)]
    }
}

impl State {
    /// A state without buffers; the first number that it hands out is 1.
    pub fn new() -> (s: State)
        ensures
            s@.buffers.len() == 0,
            s@.last_num == 0,
            s@.wf(),
    {
        State { buffers: Vec::new(), last_num: 0 }
    }

    /// Hands out the number for the next buffer: one more than the last,
    /// as long as the machine can count on.
    pub fn next_num(&mut self) -> (num: usize)
        ensures
            final(self)@.buffers == old(self)@.buffers,
            final(self)@.last_num == num,
            old(self)@.last_num < usize::MAX ==> num == old(self)@.last_num + 1,
            old(self)@.last_num == usize::MAX ==> num == usize::MAX,
    {
        if self.last_num < usize::MAX {
            self.last_num = self.last_num + 1;
        }
        self.last_num
    }

    /// Index of the first buffer with identity `id`.
    fn find_buffer(&self, id: &str) -> (i: usize)
        ensures
            i == index_of(self@.buffers, id@, 0),
            i <= self@.buffers.len(),
    {
        let wanted = id.to_owned();
        let mut i: usize = 0;
        while i < self.buffers.len()
            invariant
                i <= self.buffers.len(),
                wanted@ == id@,
                index_of(self@.buffers, id@, 0) == index_of(self@.buffers, id@, i as int),
            decreases self.buffers.len() - i,
        {
            assert(self@.buffers[i as int] == self.buffers@[i as int]@);
            if self.buffers[i].to_id() == wanted {
                return i;
            }
            i += 1;
        }
        i
    }

    /// Takes the first buffer with identity `id` out of the state.
    pub fn take_buffer(&mut self, id: &str) -> (res: Option<Buffer>)
        ensures
            old(self)@.has(id@) ==> (res matches Some(b) && b@ == old(self)@.buffer(id@)
                && final(self)@.buffers == old(self)@.buffers.remove(
                index_of(old(self)@.buffers, id@, 0),
            )),
            !old(self)@.has(id@) ==> res is None && final(self)@ == old(self)@,
            final(self)@.last_num == old(self)@.last_num,
            old(self)@.wf() ==> final(self)@.wf(),
    {
        let i = self.find_buffer(id);
        if i < self.buffers.len() {
            let buffer = self.buffers.remove(i);
            proof {
                assert(self@.buffers =~= old(self)@.buffers.remove(i as int));
            }
            Some(buffer)
        } else {
            None
        }
    }

    /// Puts `buffer` before all the buffers of the state.
    pub fn add_buffer(&mut self, buffer: Buffer)
        ensures
            final(self)@.buffers == old(self)@.buffers.insert(0, buffer@),
            final(self)@.last_num == old(self)@.last_num,
            old(self)@.wf() && buffer@.wf() ==> final(self)@.wf(),
    {
        self.buffers.insert(0, buffer);
        proof {
            assert(self@.buffers =~= old(self)@.buffers.insert(0, buffer@));
        }
    }

    /// Number of buffers.
    pub fn n_buffers(&self) -> (n: usize)
        ensures
            n == self@.buffers.len(),
    {
        self.buffers.len()
    }
}

impl State {
    /// The first buffer with identity `id`, if there is one.
    pub fn as_buffer(&self, id: &str) -> (res: Option<&Buffer>)
        ensures
            self@.has(id@) ==> (res matches Some(b) && b@ == self@.buffer(id@)),
            !self@.has(id@) ==> res is None,
    {
        let i = self.find_buffer(id);
        if i < self.buffers.len() {
            Some(&self.buffers[i])
        } else {
            None
        }
    }

    /// Number of the first buffer with identity `id`, if there is one.
    pub fn to_buffer_num(&self, id: String) -> (res: Option<usize>)
        ensures
            self@.has(id@) ==> res == Some(self@.buffer(id@).num),
            !self@.has(id@) ==> res is None,
    {
        match self.as_buffer(id.as_str()) {
            Some(b) => Some(b.to_num()),
            None => None,
        }
    }
}

} // verus!
