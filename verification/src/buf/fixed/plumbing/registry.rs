//! Bookkeeping of buffers that are picked by index.

use super::slots::{
    initial_slots, is_free, is_out, registrable, slot_iovecs, slots_wf, taken, uio_maxiov, Slot,
    SlotState,
};
use crate::buf::buffer::Buffer;
use crate::driver::sqe::IoVec;
use vstd::prelude::*;

verus! {

/// A collection of buffers, each of which is checked out by its index.
pub struct Registry {
    /// The memory of each buffer, in the form that the kernel takes.
    iovecs: Vec<IoVec>,
    /// The state of each buffer, under the same index.
    states: Vec<SlotState>,
    /// The buffers themselves, kept as long as the collection.
    buffers: Vec<Buffer>,
}

impl View for Registry {
    type V = Seq<Slot>;

    closed spec fn view(&self) -> Seq<Slot> {
        Seq::new(
            self.iovecs@.len(),
            |i: int| Slot { iovec: self.iovecs@[i], state: self.states@[i] },
        )
    }
}

impl Registry {
    /// The validity of the collection.
    pub closed spec fn wf(&self) -> bool {
        &&& self.states.len() == self.iovecs.len()
        &&& slots_wf(self@)
    }

    /// The buffers that the collection keeps.
    pub closed spec fn kept(&self) -> Seq<Buffer> {
        self.buffers@
    }

    /// A valid collection has valid slots.
    pub proof fn lemma_slots_wf(&self)
        requires
            self.wf(),
        ensures
            slots_wf(self@),
    {
    }

    /// A collection of the given buffers, as many as the kernel takes.
    pub fn new(bufs: Vec<Buffer>) -> (r: Registry)
        requires
            forall|i: int| 0 <= i < taken(bufs@.len()) ==> registrable((#[trigger] bufs[i])@),
        ensures
            r.wf(),
            r@ == initial_slots(bufs@),
            r.kept() == bufs@.take(taken(bufs@.len()) as int),
    {
        let ghost all = bufs@;
        let max: usize = uio_maxiov();
        let mut buffers = bufs;
        if buffers.len() > max {
            buffers.truncate(max);
        }
        let mut iovecs: Vec<IoVec> = Vec::new();
        let mut states: Vec<SlotState> = Vec::new();
        for i in 0..buffers.len()
            invariant
                buffers.len() == taken(all.len()),
                buffers@ == all.take(taken(all.len()) as int),
                forall|j: int| 0 <= j < taken(all.len()) ==> registrable((#[trigger] all[j])@),
                iovecs.len() == i,
                states.len() == i,
                forall|j: int| 0 <= j < i ==> #[trigger] iovecs[j] == initial_slots(all)[j].iovec,
                forall|j: int| 0 <= j < i ==> #[trigger] states[j] == initial_slots(all)[j].state,
        {
            assert(buffers@[i as int] == all[i as int]);
            let part = buffers[i].part(0);
            iovecs.push(IoVec { base: part.addr, len: part.cap });
            states.push(SlotState::Free { init_len: part.len });
        }
        let r = Registry { iovecs, states, buffers };
        proof {
            assert(r@ =~= initial_slots(all));
            assert forall|i: int| 0 <= i < r@.len() implies (#[trigger] r@[i]).wf() by {
                assert(registrable(all[i]@));
                assert(all[i]@.parts[0].wf());
            }
        }
        r
    }

    /// The memory of each buffer.
    pub fn iovecs(&self) -> (r: &Vec<IoVec>)
        ensures
            r@ == slot_iovecs(self@),
    {
        assert(self.iovecs@ =~= slot_iovecs(self@));
        &self.iovecs
    }

    /// Hands out the buffer with the given index, if there is one and it is free:
    /// its memory, and how much of it has been written.
    pub fn check_out(&mut self, index: usize) -> (r: Option<(IoVec, usize)>)
        requires
            old(self).wf(),
        ensures
            final(self).wf(),
            final(self).kept() == old(self).kept(),
            r is Some <==> is_free(old(self)@, index as int),
            match r {
                Some((iovec, init_len)) => {
                    &&& old(self)@[index as int] == (Slot {
                        iovec,
                        state: SlotState::Free { init_len },
                    })
                    &&& final(self)@ == old(self)@.update(
                        index as int,
                        old(self)@[index as int].checked_out(),
                    )
                },
                None => final(self)@ == old(self)@,
            },
    {
        if index >= self.states.len() {
            return None;
        }
        match self.states[index] {
            SlotState::CheckedOut => None,
            SlotState::Free { init_len } => {
                assert(self@[index as int].wf());
                self.states.set(index, SlotState::CheckedOut);
                proof {
                    assert(self@ =~= old(self)@.update(
                        index as int,
                        old(self)@[index as int].checked_out(),
                    ));
                    assert(slots_wf(self@));
                }
                Some((self.iovecs[index], init_len))
            },
        }
    }

    /// Takes a buffer back, of which the first `init_len` bytes have been written.
    pub fn check_in(&mut self, index: usize, init_len: usize)
        requires
            old(self).wf(),
            is_out(old(self)@, index as int),
            init_len <= old(self)@[index as int].iovec.len,
        ensures
            final(self).wf(),
            final(self).kept() == old(self).kept(),
            final(self)@ == old(self)@.update(
                index as int,
                old(self)@[index as int].checked_in(init_len),
            ),
    {
        assert(self@[index as int].wf());
        self.states.set(index, SlotState::Free { init_len });
        proof {
            assert(self@ =~= old(self)@.update(
                index as int,
                old(self)@[index as int].checked_in(init_len),
            ));
            assert(slots_wf(self@));
        }
    }
}

} // verus!
