//! The state of a collection of buffers: one slot for each of them.

use crate::buf::buffer::{Buffer, BufferView};
use crate::driver::sqe::IoVec;
use vstd::prelude::*;

verus! {

/// Whether a buffer is free or in the hands of somebody.
#[derive(Clone, Copy, Debug, PartialEq, Eq, Structural)]
pub enum SlotState {
    /// Nobody uses the buffer. The first `init_len` bytes have been written.
    Free { init_len: usize },
    /// Somebody uses the buffer.
    CheckedOut,
}

/// A buffer of a collection: its memory and its state.
#[derive(Clone, Copy, Debug, PartialEq, Eq, Structural)]
pub struct Slot {
    pub iovec: IoVec,
    pub state: SlotState,
}

/// The most buffers that the kernel takes into its table.
pub open spec fn max_buffers() -> nat {
    1024
}

/// How many of `n` buffers a collection takes.
pub open spec fn taken(n: nat) -> nat {
    if n <= max_buffers() {
        n
    } else {
        max_buffers()
    }
}

impl Slot {
    /// The memory has addresses, and no more of it has been written than there is.
    pub open spec fn wf(self) -> bool {
        &&& self.iovec.base + self.iovec.len <= usize::MAX
        &&& self.state matches SlotState::Free { init_len } ==> init_len <= self.iovec.len
    }

    /// The slot once somebody has taken the buffer.
    pub open spec fn checked_out(self) -> Slot {
        Slot { iovec: self.iovec, state: SlotState::CheckedOut }
    }

    /// The slot once the buffer came back with `init_len` bytes written.
    pub open spec fn checked_in(self, init_len: usize) -> Slot {
        Slot { iovec: self.iovec, state: SlotState::Free { init_len } }
    }
}

/// The validity of the slots of a collection.
pub open spec fn slots_wf(slots: Seq<Slot>) -> bool {
    &&& slots.len() <= max_buffers()
    &&& forall|i: int| 0 <= i < slots.len() ==> (#[trigger] slots[i]).wf()
}

/// Buffer `i` exists and nobody uses it.
pub open spec fn is_free(slots: Seq<Slot>, i: int) -> bool {
    &&& 0 <= i < slots.len()
    &&& slots[i].state is Free
}

/// Buffer `i` exists and somebody uses it.
pub open spec fn is_out(slots: Seq<Slot>, i: int) -> bool {
    &&& 0 <= i < slots.len()
    &&& slots[i].state is CheckedOut
}

/// The buffer can go into a collection: it is valid and in one part.
pub open spec fn registrable(buf: BufferView) -> bool {
    &&& buf.wf()
    &&& buf.parts.len() == 1
}

/// The slots of a new collection: the buffers in their order, all free, as many
/// as the kernel takes.
pub open spec fn initial_slots(bufs: Seq<Buffer>) -> Seq<Slot> {
    Seq::new(
        taken(bufs.len()),
        |i: int|
            Slot {
                iovec: bufs[i]@.parts[0].room(),
                state: SlotState::Free { init_len: bufs[i]@.parts[0].len },
            },
    )
}

/// The memory of each slot: what the kernel is asked to register.
pub open spec fn slot_iovecs(slots: Seq<Slot>) -> Seq<IoVec> {
    slots.map_values(|s: Slot| s.iovec)
}

/// `libc::UIO_MAXIOV`, the number of iovecs that one call may pass: 1024.
#[verifier::external_body]
pub(crate) fn uio_maxiov() -> (r: usize)
    ensures
        r == max_buffers(),
{
    libc::UIO_MAXIOV as usize
}

} // verus!
