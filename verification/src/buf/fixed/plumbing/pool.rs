//! Bookkeeping of buffers that are picked by capacity.

use super::slots::{
    initial_slots, is_free, is_out, registrable, slot_iovecs, slots_wf, taken, uio_maxiov, Slot,
    SlotState,
};
use crate::buf::buffer::Buffer;
use crate::driver::sqe::IoVec;
use std::collections::HashMap;
use std::collections::HashSet;
use vstd::prelude::*;

verus! {

/// The state of a buffer, with its place in a list of free buffers.
#[derive(Clone, Copy, Debug, PartialEq, Eq, Structural)]
enum BufState {
    /// The buffer is free. `next` is the next free buffer of the same capacity.
    Free { init_len: usize, next: Option<u16> },
    /// Somebody uses the buffer.
    CheckedOut,
}

impl BufState {
    /// The state without the place in a list.
    spec fn slot_state(self) -> SlotState {
        match self {
            BufState::Free { init_len, next } => SlotState::Free { init_len },
            BufState::CheckedOut => SlotState::CheckedOut,
        }
    }
}

/// What a pool holds: its buffers, and the capacities that somebody has waited for.
#[verifier::ext_equal]
pub struct PoolView {
    pub slots: Seq<Slot>,
    pub waited: Set<usize>,
}

/// Buffer `i` is free and has the capacity `cap`.
pub open spec fn available(slots: Seq<Slot>, cap: usize, i: int) -> bool {
    &&& is_free(slots, i)
    &&& slots[i].iovec.len == cap
}

/// Some free buffer has the capacity `cap`.
pub open spec fn any_available(slots: Seq<Slot>, cap: usize) -> bool {
    exists|i: int| available(slots, cap, i)
}

/// A collection of buffers, of which any free one with a wanted capacity is
/// checked out. The free buffers of each capacity form a linked list.
pub struct Pool {
    /// The memory of each buffer, in the form that the kernel takes.
    iovecs: Vec<IoVec>,
    /// The state of each buffer, under the same index.
    states: Vec<BufState>,
    /// The first free buffer of each capacity that has any.
    free_buf_head_by_cap: HashMap<usize, u16>,
    /// The capacities that somebody has waited for, which is never forgotten.
    notify_next_by_cap: HashSet<usize>,
    /// The buffers themselves, kept as long as the collection.
    buffers: Vec<Buffer>,
    /// The indices in each list of free buffers, in order.
    lists: Ghost<Map<usize, Seq<u16>>>,
}

/// The entries of `list` are linked to one another, and all have the capacity `cap`.
spec fn linked(states: Seq<BufState>, iovecs: Seq<IoVec>, cap: usize, list: Seq<u16>) -> bool {
    &&& list.len() > 0
    &&& list.no_duplicates()
    &&& forall|k: int|
        #![trigger list[k]]
        0 <= k < list.len() ==> {
            &&& list[k] < states.len()
            &&& iovecs[list[k] as int].len == cap
            &&& states[list[k] as int] matches BufState::Free { next, .. } && next == (if k + 1
                < list.len() {
                Some(list[k + 1])
            } else {
                None::<u16>
            })
        }
}

/// The lists hold every free buffer, each under its capacity, and start at `heads`.
spec fn lists_wf(
    states: Seq<BufState>,
    iovecs: Seq<IoVec>,
    heads: Map<usize, u16>,
    lists: Map<usize, Seq<u16>>,
) -> bool {
    &&& heads.dom() == lists.dom()
    &&& forall|cap: usize| #[trigger]
        lists.contains_key(cap) ==> {
            &&& linked(states, iovecs, cap, lists[cap])
            &&& heads[cap] == lists[cap][0]
        }
    &&& forall|i: int|
        #![trigger states[i]]
        0 <= i < states.len() && states[i] is Free ==> {
            &&& lists.contains_key(iovecs[i].len)
            &&& lists[iovecs[i].len].contains(i as u16)
        }
}

impl View for Pool {
    type V = PoolView;

    closed spec fn view(&self) -> PoolView {
        PoolView {
            slots: Seq::new(
                self.iovecs@.len(),
                |i: int| Slot { iovec: self.iovecs@[i], state: self.states@[i].slot_state() },
            ),
            waited: self.notify_next_by_cap@,
        }
    }
}

proof fn lemma_push_front(
    states: Seq<BufState>,
    iovecs: Seq<IoVec>,
    heads: Map<usize, u16>,
    lists: Map<usize, Seq<u16>>,
    index: u16,
    init_len: usize,
)
    requires
        states.len() == iovecs.len(),
        index < states.len(),
        states.len() <= u16::MAX,
        states[index as int] is CheckedOut,
        lists_wf(states, iovecs, heads, lists),
    ensures
        ({
            let cap = iovecs[index as int].len;
            let next = if heads.contains_key(cap) {
                Some(heads[cap])
            } else {
                None::<u16>
            };
            let rest = if lists.contains_key(cap) {
                lists[cap]
            } else {
                Seq::<u16>::empty()
            };
            lists_wf(
                states.update(index as int, BufState::Free { init_len, next }),
                iovecs,
                heads.insert(cap, index),
                lists.insert(cap, seq![index] + rest),
            )
        }),
{
    let cap = iovecs[index as int].len;
    let next = if heads.contains_key(cap) {
        Some(heads[cap])
    } else {
        None::<u16>
    };
    let rest = if lists.contains_key(cap) {
        lists[cap]
    } else {
        Seq::<u16>::empty()
    };
    let states2 = states.update(index as int, BufState::Free { init_len, next });
    let heads2 = heads.insert(cap, index);
    let list2 = seq![index] + rest;
    let lists2 = lists.insert(cap, list2);
    assert(heads2.dom() =~= lists2.dom());
    assert(heads.contains_key(cap) == heads.dom().contains(cap));
    assert(lists.contains_key(cap) == lists.dom().contains(cap));
    assert forall|c: usize| #[trigger] lists2.contains_key(c) implies {
        &&& linked(states2, iovecs, c, lists2[c])
        &&& heads2[c] == lists2[c][0]
    } by {
        if c == cap {
            assert forall|k: int| 0 <= k < rest.len() implies rest[k] != index by {
                assert(lists.contains_key(cap));
            }
            assert(forall|k: int| 1 <= k < list2.len() ==> list2[k] == rest[k - 1]);
            assert(list2.no_duplicates()) by {
                if lists.contains_key(cap) {
                    assert(rest.no_duplicates());
                }
            }
            assert forall|k: int| 0 <= k < list2.len() implies {
                &&& #[trigger] list2[k] < states2.len()
                &&& iovecs[list2[k] as int].len == cap
                &&& states2[list2[k] as int] matches BufState::Free { next, .. } && next == (if k
                    + 1 < list2.len() {
                    Some(list2[k + 1])
                } else {
                    None::<u16>
                })
            } by {
                if k > 0 {
                    assert(lists.contains_key(cap));
                    assert(list2[k] == rest[k - 1]);
                } else if rest.len() > 0 {
                    assert(lists.contains_key(cap));
                    assert(list2[1] == rest[0]);
                }
            }
        } else {
            assert(lists.contains_key(c));
            let l = lists[c];
            assert forall|k: int| 0 <= k < l.len() implies l[k] != index by {}
        }
    }
    assert forall|i: int|
        #![trigger states2[i]]
        0 <= i < states2.len() && states2[i] is Free implies {
        &&& lists2.contains_key(iovecs[i].len)
        &&& lists2[iovecs[i].len].contains(i as u16)
    } by {
        if i == index {
            assert(list2[0] == index);
        } else {
            assert(states[i] is Free);
            let c = iovecs[i].len;
            if c == cap {
                let k = choose|k: int| 0 <= k < rest.len() && rest[k] == i as u16;
                assert(list2[k + 1] == i as u16);
            }
        }
    }
}

proof fn lemma_pop_front(
    states: Seq<BufState>,
    iovecs: Seq<IoVec>,
    heads: Map<usize, u16>,
    lists: Map<usize, Seq<u16>>,
    cap: usize,
)
    requires
        states.len() == iovecs.len(),
        states.len() <= u16::MAX,
        lists_wf(states, iovecs, heads, lists),
        heads.contains_key(cap),
    ensures
        heads[cap] < states.len(),
        iovecs[heads[cap] as int].len == cap,
        states[heads[cap] as int] matches BufState::Free { next, .. } && {
            let states2 = states.update(heads[cap] as int, BufState::CheckedOut);
            match next {
                Some(second) => lists_wf(
                    states2,
                    iovecs,
                    heads.insert(cap, second),
                    lists.insert(cap, lists[cap].drop_first()),
                ),
                None => lists_wf(states2, iovecs, heads.remove(cap), lists.remove(cap)),
            }
        },
{
    assert(lists.contains_key(cap)) by {
        assert(heads.dom().contains(cap));
        assert(lists.dom().contains(cap));
    }
    let l = lists[cap];
    let head = heads[cap];
    assert(l[0] == head);
    let next = states[head as int]->next;
    let states2 = states.update(head as int, BufState::CheckedOut);
    let rest = l.drop_first();
    let heads2 = match next {
        Some(second) => heads.insert(cap, second),
        None => heads.remove(cap),
    };
    let lists2 = match next {
        Some(second) => lists.insert(cap, rest),
        None => lists.remove(cap),
    };
    assert(heads2.dom() =~= lists2.dom());
    assert(forall|k: int| 0 <= k < rest.len() ==> rest[k] == l[k + 1]);
    assert forall|c: usize| #[trigger] lists2.contains_key(c) implies {
        &&& linked(states2, iovecs, c, lists2[c])
        &&& heads2[c] == lists2[c][0]
    } by {
        if c == cap {
            assert(l.len() > 1);
            assert(rest.no_duplicates());
            assert forall|k: int| 0 <= k < rest.len() implies {
                &&& #[trigger] rest[k] < states2.len()
                &&& iovecs[rest[k] as int].len == cap
                &&& states2[rest[k] as int] matches BufState::Free { next, .. } && next == (if k + 1
                    < rest.len() {
                    Some(rest[k + 1])
                } else {
                    None::<u16>
                })
            } by {
                assert(l[k + 1] != l[0]);
            }
        } else {
            assert(lists.contains_key(c));
            let other = lists[c];
            assert forall|k: int| 0 <= k < other.len() implies other[k] != head by {}
        }
    }
    assert forall|i: int|
        #![trigger states2[i]]
        0 <= i < states2.len() && states2[i] is Free implies {
        &&& lists2.contains_key(iovecs[i].len)
        &&& lists2[iovecs[i].len].contains(i as u16)
    } by {
        assert(states[i] is Free);
        let c = iovecs[i].len;
        if c == cap {
            let k = choose|k: int| 0 <= k < l.len() && l[k] == i as u16;
            assert(k > 0);
            assert(rest[k - 1] == i as u16);
        }
    }
}

impl Pool {
    /// The validity of the collection.
    pub closed spec fn wf(&self) -> bool {
        &&& self.states.len() == self.iovecs.len()
        &&& slots_wf(self@.slots)
        &&& lists_wf(
            self.states@,
            self.iovecs@,
            self.free_buf_head_by_cap@,
            self.lists@,
        )
    }

    /// The buffers that the collection keeps.
    pub closed spec fn kept(&self) -> Seq<Buffer> {
        self.buffers@
    }

    /// A valid collection has valid slots.
    pub proof fn lemma_slots_wf(&self)
        requires
            self.wf(),
        ensures
            slots_wf(self@.slots),
    {
    }

    /// A collection of the given buffers, as many as the kernel takes.
    pub fn new(bufs: Vec<Buffer>) -> (r: Pool)
        requires
            forall|i: int| 0 <= i < taken(bufs@.len()) ==> registrable((#[trigger] bufs[i])@),
        ensures
            r.wf(),
            r@ == (PoolView { slots: initial_slots(bufs@), waited: Set::empty() }),
            r.kept() == bufs@.take(taken(bufs@.len()) as int),
    {
        let ghost all = bufs@;
        let max: usize = uio_maxiov();
        let mut buffers = bufs;
        if buffers.len() > max {
            buffers.truncate(max);
        }
        let count: usize = buffers.len();
        let mut iovecs: Vec<IoVec> = Vec::new();
        let mut states: Vec<BufState> = Vec::new();
        let mut init_lens: Vec<usize> = Vec::new();
        for i in 0..count
            invariant
                buffers.len() == taken(all.len()) == count,
                buffers@ == all.take(taken(all.len()) as int),
                forall|j: int| 0 <= j < taken(all.len()) ==> registrable((#[trigger] all[j])@),
                iovecs.len() == i,
                states.len() == i,
                init_lens.len() == i,
                forall|j: int| 0 <= j < i ==> #[trigger] iovecs[j] == all[j]@.parts[0].room(),
                forall|j: int| 0 <= j < i ==> #[trigger] init_lens[j] == all[j]@.parts[0].len,
                forall|j: int| 0 <= j < i ==> #[trigger] states[j] is CheckedOut,
        {
            assert(buffers@[i as int] == all[i as int]);
            let part = buffers[i].part(0);
            iovecs.push(IoVec { base: part.addr, len: part.cap });
            states.push(BufState::CheckedOut);
            init_lens.push(part.len);
        }
        let mut pool = Pool {
            iovecs,
            states,
            free_buf_head_by_cap: HashMap::new(),
            notify_next_by_cap: HashSet::new(),
            buffers,
            lists: Ghost(Map::empty()),
        };
        assert forall|i: int| 0 <= i < count implies {
            &&& (#[trigger] all[i]@.parts[0].room()).base + all[i]@.parts[0].cap <= usize::MAX
            &&& all[i]@.parts[0].len <= all[i]@.parts[0].cap
        } by {
            assert(registrable(all[i]@));
            assert(all[i]@.parts[0].wf());
        }
        assert(pool.wf()) by {
            assert(pool.free_buf_head_by_cap@.dom() =~= pool.lists@.dom());
            assert forall|i: int| 0 <= i < pool@.slots.len() implies (
            #[trigger] pool@.slots[i]).wf() by {
                assert(iovecs@[i] == all[i]@.parts[0].room());
                assert(states@[i] is CheckedOut);
            }
        }
        for i in 0..count
            invariant
                count == taken(all.len()) == init_lens.len() == pool@.slots.len(),
                forall|j: int|
                    0 <= j < count ==> {
                        &&& #[trigger] init_lens[j] == all[j]@.parts[0].len
                        &&& init_lens[j] <= all[j]@.parts[0].cap
                    },
                pool.wf(),
                pool.kept() == all.take(taken(all.len()) as int),
                pool@.waited == Set::<usize>::empty(),
                forall|j: int|
                    0 <= j < i ==> #[trigger] pool@.slots[j] == initial_slots(all)[j],
                forall|j: int|
                    i <= j < count ==> #[trigger] pool@.slots[j] == initial_slots(all)[j].checked_out(),
        {
            assert(pool@.slots[i as int] == initial_slots(all)[i as int].checked_out());
            pool.link(i, init_lens[i]);
        }
        assert(pool@.slots =~= initial_slots(all));
        pool
    }

    /// The memory of each buffer.
    pub fn iovecs(&self) -> (r: &Vec<IoVec>)
        ensures
            r@ == slot_iovecs(self@.slots),
    {
        assert(self.iovecs@ =~= slot_iovecs(self@.slots));
        &self.iovecs
    }

    /// Makes a buffer the first of the free ones of its capacity.
    fn link(&mut self, index: usize, init_len: usize)
        requires
            old(self).wf(),
            is_out(old(self)@.slots, index as int),
            init_len <= old(self)@.slots[index as int].iovec.len,
        ensures
            final(self).wf(),
            final(self).kept() == old(self).kept(),
            final(self)@.waited == old(self)@.waited,
            final(self)@.slots == old(self)@.slots.update(
                index as int,
                old(self)@.slots[index as int].checked_in(init_len),
            ),
    {
        broadcast use vstd::std_specs::hash::group_hash_axioms;

        proof {
            assert(self@.slots[index as int].wf());
            assert(self.states@[index as int] is CheckedOut);
            lemma_push_front(
                self.states@,
                self.iovecs@,
                self.free_buf_head_by_cap@,
                self.lists@,
                index as u16,
                init_len,
            );
        }
        let cap: usize = self.iovecs[index].len;
        let next = self.free_buf_head_by_cap.insert(cap, index as u16);
        self.states.set(index, BufState::Free { init_len, next });
        self.lists = Ghost(
            self.lists@.insert(
                cap,
                seq![index as u16] + (if self.lists@.contains_key(cap) {
                    self.lists@[cap]
                } else {
                    Seq::<u16>::empty()
                }),
            ),
        );
        proof {
            assert(self@.slots =~= old(self)@.slots.update(
                index as int,
                old(self)@.slots[index as int].checked_in(init_len),
            ));
            assert(slots_wf(self@.slots));
        }
    }

    /// Takes a buffer back, of which the first `init_len` bytes have been written.
    /// Returns its capacity if somebody who has waited for a buffer of that
    /// capacity should be woken.
    pub fn check_in(&mut self, index: usize, init_len: usize) -> (r: Option<usize>)
        requires
            old(self).wf(),
            is_out(old(self)@.slots, index as int),
            init_len <= old(self)@.slots[index as int].iovec.len,
        ensures
            final(self).wf(),
            final(self).kept() == old(self).kept(),
            final(self)@.waited == old(self)@.waited,
            final(self)@.slots == old(self)@.slots.update(
                index as int,
                old(self)@.slots[index as int].checked_in(init_len),
            ),
            r == (if old(self)@.waited.contains(old(self)@.slots[index as int].iovec.len) {
                Some(old(self)@.slots[index as int].iovec.len)
            } else {
                None
            }),
    {
        broadcast use vstd::std_specs::hash::group_hash_axioms;

        self.link(index, init_len);
        let cap: usize = self.iovecs[index].len;
        assert(self@.slots[index as int].iovec.len == cap);
        if self.notify_next_by_cap.contains(&cap) {
            Some(cap)
        } else {
            None
        }
    }

    /// Remembers that somebody waits for a buffer of the given capacity.
    pub fn notify_on_next(&mut self, cap: usize)
        requires
            old(self).wf(),
        ensures
            final(self).wf(),
            final(self).kept() == old(self).kept(),
            final(self)@.slots == old(self)@.slots,
            final(self)@.waited == old(self)@.waited.insert(cap),
    {
        broadcast use vstd::std_specs::hash::group_hash_axioms;

        self.notify_next_by_cap.insert(cap);
        assert(self@.slots =~= old(self)@.slots);
    }

    /// Hands out a free buffer of the given capacity, if there is one: its memory,
    /// how much of it has been written, and its index.
    pub fn try_next(&mut self, cap: usize) -> (r: Option<(IoVec, usize, usize)>)
        requires
            old(self).wf(),
        ensures
            final(self).wf(),
            final(self).kept() == old(self).kept(),
            final(self)@.waited == old(self)@.waited,
            r is Some <==> any_available(old(self)@.slots, cap),
            match r {
                Some((iovec, init_len, index)) => {
                    &&& available(old(self)@.slots, cap, index as int)
                    &&& old(self)@.slots[index as int] == (Slot {
                        iovec,
                        state: SlotState::Free { init_len },
                    })
                    &&& final(self)@.slots == old(self)@.slots.update(
                        index as int,
                        old(self)@.slots[index as int].checked_out(),
                    )
                },
                None => final(self)@.slots == old(self)@.slots,
            },
    {
        broadcast use vstd::std_specs::hash::group_hash_axioms;

        let head: u16 = match self.free_buf_head_by_cap.get(&cap) {
            Some(head) => *head,
            None => {
                proof {
                    assert forall|i: int| !available(self@.slots, cap, i) by {
                        if available(self@.slots, cap, i) {
                            assert(self.states@[i] is Free);
                            assert(self.lists@.dom().contains(cap));
                        }
                    }
                }
                return None;
            },
        };
        proof {
            lemma_pop_front(
                self.states@,
                self.iovecs@,
                self.free_buf_head_by_cap@,
                self.lists@,
                cap,
            );
            assert(available(self@.slots, cap, head as int));
            assert(self@.slots[head as int].wf());
        }
        let index: usize = head as usize;
        match self.states[index] {
            BufState::CheckedOut => {
                assert(false);
                None
            },
            BufState::Free { init_len, next } => {
                self.states.set(index, BufState::CheckedOut);
                match next {
                    Some(second) => {
                        self.free_buf_head_by_cap.insert(cap, second);
                        self.lists = Ghost(self.lists@.insert(cap, self.lists@[cap].drop_first()));
                    },
                    None => {
                        self.free_buf_head_by_cap.remove(&cap);
                        self.lists = Ghost(self.lists@.remove(cap));
                    },
                }
                proof {
                    assert(self@.slots =~= old(self)@.slots.update(
                        index as int,
                        old(self)@.slots[index as int].checked_out(),
                    ));
                    assert(slots_wf(self@.slots));
                }
                Some((self.iovecs[index], init_len, index))
            },
        }
    }
}

} // verus!
