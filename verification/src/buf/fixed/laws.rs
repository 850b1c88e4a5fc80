//! What holds of pools and registries over many calls.

use super::plumbing::pool::{any_available, available, PoolView};
use super::plumbing::slots::{
    initial_slots, is_free, is_out, registrable, slot_iovecs, slots_wf, taken, Slot,
};
use super::{pool, registry};
use crate::buf::bounded::Window;
use crate::buf::buffer::{lemma_single_part, lemma_with_len, total_cap, Buffer, BufferView, UserData};
use crate::driver::sqe::{low32, IoVec};
use vstd::prelude::*;

verus! {

/// Something that happens to a pool.
pub enum PoolEvent {
    /// Somebody asks for a buffer of this capacity and gets one, or not.
    Ask { cap: usize, got: Option<BufferView> },
    /// Somebody asks for a buffer of this capacity, gets none and waits.
    Wait { cap: usize },
    /// Somebody gives a buffer back.
    GiveBack { buf: BufferView },
}

/// How an event changes a pool. This is what `try_next`, `next`,
/// `next_when_notified` and `check_in` promise.
pub open spec fn pool_step(before: PoolView, event: PoolEvent, after: PoolView) -> bool {
    match event {
        PoolEvent::Ask { cap, got } => match got {
            Some(buf) => {
                &&& pool::taken_for(before.slots, cap, buf, after.slots)
                &&& after.waited == before.waited
            },
            None => {
                &&& !any_available(before.slots, cap)
                &&& after == before
            },
        },
        PoolEvent::Wait { cap } => {
            &&& !any_available(before.slots, cap)
            &&& after.slots == before.slots
            &&& after.waited == before.waited.insert(cap)
        },
        PoolEvent::GiveBack { buf } => {
            &&& pool::checked_out_of(before.slots, buf)
            &&& after.slots == pool::given_back(before.slots, buf)
            &&& after.waited == before.waited
        },
    }
}

/// `states` are the states that a pool goes through while `events` happen.
pub open spec fn pool_run(states: Seq<PoolView>, events: Seq<PoolEvent>) -> bool {
    &&& states.len() == events.len() + 1
    &&& forall|i: int|
        #![trigger events[i]]
        0 <= i < events.len() ==> pool_step(states[i], events[i], states[i + 1])
}

/// The event hands out the buffer with the given index.
pub open spec fn hands_out(event: PoolEvent, index: u16) -> bool {
    event matches PoolEvent::Ask { got: Some(buf), .. } && buf.user_data == UserData::Pool(
        pool::PoolInfo { index },
    )
}

/// The event gives the buffer with the given index back.
pub open spec fn takes_back(event: PoolEvent, index: u16) -> bool {
    event matches PoolEvent::GiveBack { buf } && buf.user_data == UserData::Pool(
        pool::PoolInfo { index },
    )
}

proof fn lemma_run_prefix(states: Seq<PoolView>, events: Seq<PoolEvent>)
    requires
        pool_run(states, events),
        events.len() > 0,
    ensures
        pool_run(states.drop_last(), events.drop_last()),
        pool_step(states.drop_last().last(), events.last(), states.last()),
{
    assert forall|i: int|
        #![trigger events.drop_last()[i]]
        0 <= i < events.drop_last().len() implies pool_step(
        states.drop_last()[i],
        events.drop_last()[i],
        states.drop_last()[i + 1],
    ) by {
        assert(events[i] == events.drop_last()[i]);
    }
    assert(pool_step(
        states[events.len() - 1],
        events[events.len() - 1],
        states[events.len() - 1 + 1],
    ));
}

/// Nobody gets hold of a buffer that somebody uses: whatever happens to a pool, a
/// buffer that is checked out stays so, and is handed out to nobody else, until it
/// is given back.
pub proof fn law_pool_exclusive(states: Seq<PoolView>, events: Seq<PoolEvent>, index: u16)
    requires
        pool_run(states, events),
        is_out(states[0].slots, index as int),
        forall|i: int| 0 <= i < events.len() ==> !takes_back(#[trigger] events[i], index),
    ensures
        is_out(states.last().slots, index as int),
        forall|i: int| 0 <= i < events.len() ==> !hands_out(#[trigger] events[i], index),
    decreases events.len(),
{
    if events.len() > 0 {
        lemma_run_prefix(states, events);
        assert forall|i: int| 0 <= i < events.drop_last().len() implies !takes_back(
            #[trigger] events.drop_last()[i],
            index,
        ) by {
            assert(events.drop_last()[i] == events[i]);
        }
        law_pool_exclusive(states.drop_last(), events.drop_last(), index);
        assert(!takes_back(events[events.len() - 1], index));
        assert forall|i: int| 0 <= i < events.len() implies !hands_out(
            #[trigger] events[i],
            index,
        ) by {
            if i < events.len() - 1 {
                assert(events.drop_last()[i] == events[i]);
            }
        }
    }
}

/// Whatever happens to a pool, it keeps its buffers: as many, with the same memory,
/// under the same indices, in a valid state.
pub proof fn law_pool_keeps_memory(states: Seq<PoolView>, events: Seq<PoolEvent>)
    requires
        pool_run(states, events),
        slots_wf(states[0].slots),
    ensures
        slot_iovecs(states.last().slots) == slot_iovecs(states[0].slots),
        slots_wf(states.last().slots),
    decreases events.len(),
{
    if events.len() > 0 {
        lemma_run_prefix(states, events);
        law_pool_keeps_memory(states.drop_last(), events.drop_last());
        let before = states.drop_last().last();
        let after = states.last();
        assert(slot_iovecs(after.slots) =~= slot_iovecs(before.slots));
        assert forall|i: int| 0 <= i < after.slots.len() implies (#[trigger] after.slots[i]).wf() by {
            assert(before.slots[i].wf());
        }
    }
}

/// A pool never forgets that somebody has waited for a capacity, so that whoever
/// waits is woken by every buffer of that capacity that comes back from then on.
pub proof fn law_pool_remembers_waiting(
    states: Seq<PoolView>,
    events: Seq<PoolEvent>,
    cap: usize,
)
    requires
        pool_run(states, events),
        states[0].waited.contains(cap) || exists|i: int|
            0 <= i < events.len() && #[trigger] events[i] == (PoolEvent::Wait { cap }),
    ensures
        states.last().waited.contains(cap),
    decreases events.len(),
{
    if events.len() > 0 {
        lemma_run_prefix(states, events);
        if events.last() != (PoolEvent::Wait { cap }) {
            if !states[0].waited.contains(cap) {
                let i = choose|i: int|
                    0 <= i < events.len() && #[trigger] events[i] == (PoolEvent::Wait { cap });
                assert(events.drop_last()[i] == (PoolEvent::Wait { cap }));
            }
            law_pool_remembers_waiting(states.drop_last(), events.drop_last(), cap);
        }
    }
}

/// The event gives a buffer of the given capacity back.
pub open spec fn releases(event: PoolEvent, cap: usize) -> bool {
    event matches PoolEvent::GiveBack { buf } && buf.parts[0].cap == cap
}

/// As long as no buffer of a capacity is given back, none becomes available, and
/// whoever asks for one, or waits and asks again, gets none.
pub proof fn law_pool_wait_needs_release(
    states: Seq<PoolView>,
    events: Seq<PoolEvent>,
    cap: usize,
)
    requires
        pool_run(states, events),
        !any_available(states[0].slots, cap),
        forall|i: int| 0 <= i < events.len() ==> !releases(#[trigger] events[i], cap),
    ensures
        !any_available(states.last().slots, cap),
        forall|i: int|
            0 <= i < events.len() ==> (#[trigger] events[i] matches PoolEvent::Ask {
                cap: asked,
                got,
            } ==> asked == cap ==> got is None),
    decreases events.len(),
{
    if events.len() > 0 {
        lemma_run_prefix(states, events);
        assert forall|i: int| 0 <= i < events.drop_last().len() implies !releases(
            #[trigger] events.drop_last()[i],
            cap,
        ) by {
            assert(events.drop_last()[i] == events[i]);
        }
        law_pool_wait_needs_release(states.drop_last(), events.drop_last(), cap);
        assert(!releases(events[events.len() - 1], cap));
        let before = states.drop_last().last().slots;
        assert forall|i: int| !available(states.last().slots, cap, i) by {
            assert(!available(before, cap, i));
        }
        assert forall|i: int| 0 <= i < events.len() implies (
        #[trigger] events[i] matches PoolEvent::Ask { cap: asked, got } ==> asked == cap
            ==> got is None) by {
            if i < events.len() - 1 {
                assert(events.drop_last()[i] == events[i]);
            }
        }
    }
}

/// A buffer that was given back is available again: asking for its capacity succeeds.
pub proof fn law_pool_gives_again(slots: Seq<Slot>, buf: BufferView)
    requires
        pool::checked_out_of(slots, buf),
    ensures
        any_available(pool::given_back(slots, buf), buf.parts[0].cap),
{
    let index = buf.user_data->Pool_0.index as int;
    assert(available(pool::given_back(slots, buf), buf.parts[0].cap, index));
}

/// Checking a buffer out does not touch the others: who has one of them checked out
/// still has, and whatever was available still is.
pub proof fn law_pool_others_untouched(
    before: Seq<Slot>,
    cap: usize,
    buf: BufferView,
    after: Seq<Slot>,
    other: BufferView,
)
    requires
        pool::taken_for(before, cap, buf, after),
        pool::checked_out_of(before, other),
    ensures
        other.user_data != buf.user_data,
        pool::checked_out_of(after, other),
        forall|i: int|
            0 <= i < before.len() && i != buf.user_data->Pool_0.index ==> #[trigger] after[i]
                == before[i],
{
}

/// Giving a buffer back does not touch the others either.
pub proof fn law_pool_give_back_others_untouched(
    slots: Seq<Slot>,
    buf: BufferView,
    other: BufferView,
)
    requires
        pool::checked_out_of(slots, buf),
        pool::checked_out_of(slots, other),
        other.user_data != buf.user_data,
    ensures
        pool::checked_out_of(pool::given_back(slots, buf), other),
{
}

/// What comes out of a pool has the capacity that was asked for, and goes back to
/// where it came from: checking it out and giving it back changes nothing.
pub proof fn law_pool_turnaround(
    before: Seq<Slot>,
    cap: usize,
    buf: BufferView,
    after: Seq<Slot>,
)
    requires
        pool::taken_for(before, cap, buf, after),
    ensures
        total_cap(buf.parts) == cap,
        pool::given_back(after, buf) == before,
{
    lemma_single_part(buf.parts);
    assert(pool::given_back(after, buf) =~= before);
}

/// What is given back to a registry is what the next check-out of the same index
/// returns: the same memory, with as many bytes in use.
pub proof fn law_registry_turnaround(slots: Seq<Slot>, buf: BufferView)
    requires
        registry::checked_out_of(slots, buf),
    ensures
        ({
            let index = buf.user_data->Registry_0.index;
            let after = registry::given_back(slots, buf);
            &&& is_free(after, index as int)
            &&& registry::handle(after[index as int], index) == buf
            &&& after.update(index as int, after[index as int].checked_out()) == slots
        }),
{
    let index = buf.user_data->Registry_0.index;
    let after = registry::given_back(slots, buf);
    assert(registry::handle(after[index as int], index).parts =~= buf.parts);
    assert(after.update(index as int, after[index as int].checked_out()) =~= slots);
}

/// Something that happens to a registry.
pub enum RegistryEvent {
    /// Somebody asks for the buffer with this index and gets it, or not.
    CheckOut { index: usize, got: Option<BufferView> },
    /// Somebody gives a buffer back.
    CheckIn { buf: BufferView },
}

/// How an event changes a registry. This is what `check_out` and `check_in` promise.
pub open spec fn registry_step(before: Seq<Slot>, event: RegistryEvent, after: Seq<Slot>) -> bool {
    match event {
        RegistryEvent::CheckOut { index, got } => match got {
            Some(buf) => {
                &&& is_free(before, index as int)
                &&& index <= u16::MAX
                &&& buf == registry::handle(before[index as int], index as u16)
                &&& after == before.update(index as int, before[index as int].checked_out())
            },
            None => {
                &&& !is_free(before, index as int)
                &&& after == before
            },
        },
        RegistryEvent::CheckIn { buf } => {
            &&& registry::checked_out_of(before, buf)
            &&& after == registry::given_back(before, buf)
        },
    }
}

/// `states` are the states that a registry goes through while `events` happen.
pub open spec fn registry_run(states: Seq<Seq<Slot>>, events: Seq<RegistryEvent>) -> bool {
    &&& states.len() == events.len() + 1
    &&& forall|i: int|
        #![trigger events[i]]
        0 <= i < events.len() ==> registry_step(states[i], events[i], states[i + 1])
}

/// The event gives the buffer with the given index back.
pub open spec fn checks_in(event: RegistryEvent, index: u16) -> bool {
    event matches RegistryEvent::CheckIn { buf } && buf.user_data == UserData::Registry(
        registry::RegistryInfo { index },
    )
}

proof fn lemma_registry_run_prefix(states: Seq<Seq<Slot>>, events: Seq<RegistryEvent>)
    requires
        registry_run(states, events),
        events.len() > 0,
    ensures
        registry_run(states.drop_last(), events.drop_last()),
        registry_step(states.drop_last().last(), events.last(), states.last()),
{
    assert forall|i: int|
        #![trigger events.drop_last()[i]]
        0 <= i < events.drop_last().len() implies registry_step(
        states.drop_last()[i],
        events.drop_last()[i],
        states.drop_last()[i + 1],
    ) by {
        assert(events[i] == events.drop_last()[i]);
    }
    assert(registry_step(
        states[events.len() - 1],
        events[events.len() - 1],
        states[events.len() - 1 + 1],
    ));
}

/// Whatever happens to a registry, a buffer that is checked out stays so until it is
/// given back, and every attempt to check it out until then gets nothing.
pub proof fn law_registry_exclusive(
    states: Seq<Seq<Slot>>,
    events: Seq<RegistryEvent>,
    index: u16,
)
    requires
        registry_run(states, events),
        is_out(states[0], index as int),
        forall|i: int| 0 <= i < events.len() ==> !checks_in(#[trigger] events[i], index),
    ensures
        is_out(states.last(), index as int),
        forall|i: int|
            0 <= i < events.len() ==> (#[trigger] events[i] matches RegistryEvent::CheckOut {
                index: asked,
                got,
            } ==> asked == index ==> got is None),
    decreases events.len(),
{
    if events.len() > 0 {
        lemma_registry_run_prefix(states, events);
        assert forall|i: int| 0 <= i < events.drop_last().len() implies !checks_in(
            #[trigger] events.drop_last()[i],
            index,
        ) by {
            assert(events.drop_last()[i] == events[i]);
        }
        law_registry_exclusive(states.drop_last(), events.drop_last(), index);
        assert(!checks_in(events[events.len() - 1], index));
        assert forall|i: int| 0 <= i < events.len() implies (
        #[trigger] events[i] matches RegistryEvent::CheckOut { index: asked, got } ==> asked
            == index ==> got is None) by {
            if i < events.len() - 1 {
                assert(events.drop_last()[i] == events[i]);
            }
        }
    }
}

/// Whatever happens to a registry, it keeps its buffers: as many, with the same
/// memory, under the same indices, in a valid state.
pub proof fn law_registry_keeps_memory(states: Seq<Seq<Slot>>, events: Seq<RegistryEvent>)
    requires
        registry_run(states, events),
        slots_wf(states[0]),
    ensures
        slot_iovecs(states.last()) == slot_iovecs(states[0]),
        slots_wf(states.last()),
    decreases events.len(),
{
    if events.len() > 0 {
        lemma_registry_run_prefix(states, events);
        law_registry_keeps_memory(states.drop_last(), events.drop_last());
        let before = states.drop_last().last();
        let after = states.last();
        assert(slot_iovecs(after) =~= slot_iovecs(before));
        assert forall|i: int| 0 <= i < after.len() implies (#[trigger] after[i]).wf() by {
            assert(before[i].wf());
        }
    }
}

/// `len` bytes from `addr` on lie in the given range.
pub open spec fn lies_in(addr: int, len: int, range: IoVec) -> bool {
    &&& range.base <= addr
    &&& addr + len <= range.base + range.len
}

/// The buffer is checked out of a pool or a registry with these slots.
pub open spec fn checked_out(slots: Seq<Slot>, buf: BufferView) -> bool {
    pool::checked_out_of(slots, buf) || registry::checked_out_of(slots, buf)
}

/// An operation on a checked-out buffer, or on a window on one, stays within the
/// memory that the kernel has registered under the index that the operation names.
pub proof fn law_fixed_operation_in_registered_memory(slots: Seq<Slot>, window: Window)
    requires
        window.wf(),
        checked_out(slots, window.buf),
    ensures
        window.buf.fixed_index() matches Some(index) && {
            let range = slot_iovecs(slots)[index as int];
            &&& index < slot_iovecs(slots).len()
            &&& lies_in(window.addr(), low32(window.total() as usize), range)
            &&& lies_in(window.addr(), low32(window.used() as usize), range)
        },
{
    lemma_single_part(window.buf.parts);
}

/// An operation that succeeds leaves a checked-out buffer in a state in which it can
/// be given back.
pub proof fn law_completed_buffer_can_go_back(slots: Seq<Slot>, window: Window, n: nat)
    requires
        window.wf(),
        checked_out(slots, window.buf),
        n <= window.total(),
    ensures
        checked_out(slots, window.with_len(n).buf),
        window.with_len(n).buf.user_data == window.buf.user_data,
{
    lemma_single_part(window.buf.parts);
    lemma_with_len(window.buf.parts, window.begin + n);
    let after = window.with_len(n).buf;
    assert(after.parts[0].wf());
}

/// A read that fails leaves a checked-out buffer in a state in which it can be given
/// back, too.
pub proof fn law_failed_read_buffer_can_go_back(slots: Seq<Slot>, buf: BufferView)
    requires
        checked_out(slots, buf),
    ensures
        checked_out(slots, buf.all_in_use()),
        buf.all_in_use().user_data == buf.user_data,
{
    assert(buf.all_in_use().parts[0].wf());
}

/// Two ranges of memory share no byte.
pub open spec fn apart(a: IoVec, b: IoVec) -> bool {
    a.base + a.len <= b.base || b.base + b.len <= a.base
}

/// No two of the buffers share memory.
pub open spec fn all_apart(slots: Seq<Slot>) -> bool {
    forall|i: int, j: int|
        0 <= i < j < slots.len() ==> apart((#[trigger] slots[i]).iovec, (#[trigger] slots[j]).iovec)
}

/// Where the registered buffers share no memory, no two buffers that are checked out
/// at the same time do.
pub proof fn law_checked_out_buffers_apart(slots: Seq<Slot>, a: BufferView, b: BufferView)
    requires
        checked_out(slots, a),
        checked_out(slots, b),
        a.fixed_index() != b.fixed_index(),
        all_apart(slots),
    ensures
        apart(a.parts[0].room(), b.parts[0].room()),
{
    let i = a.fixed_index()->0 as int;
    let j = b.fixed_index()->0 as int;
    if i < j {
        assert(apart(slots[i].iovec, slots[j].iovec));
    } else {
        assert(apart(slots[j].iovec, slots[i].iovec));
    }
}

/// The handles that `events` have handed out and not given back, by index.
pub open spec fn live_handles(events: Seq<PoolEvent>) -> Map<int, BufferView>
    decreases events.len(),
{
    if events.len() == 0 {
        Map::empty()
    } else {
        let earlier = live_handles(events.drop_last());
        match events.last() {
            PoolEvent::Ask { got: Some(buf), .. } => earlier.insert(
                buf.user_data->Pool_0.index as int,
                buf,
            ),
            PoolEvent::GiveBack { buf } => earlier.remove(buf.user_data->Pool_0.index as int),
            _ => earlier,
        }
    }
}

/// The indices of the handles with the given capacity.
pub open spec fn handles_of(handles: Map<int, BufferView>, cap: usize) -> Set<int> {
    Set::new(|i: int| handles.contains_key(i) && handles[i].parts[0].cap == cap)
}

/// The indices of the registered buffers with the given capacity.
pub open spec fn buffers_of(slots: Seq<Slot>, cap: usize) -> Set<int> {
    Set::new(|i: int| 0 <= i < slots.len() && slots[i].iovec.len == cap)
}

/// The handles that are live at the end of a run are for buffers that are checked out,
/// each for the one under its index. In a run from a state in which nothing is checked
/// out, every buffer that is checked out has such a handle.
pub proof fn law_pool_live_handles(states: Seq<PoolView>, events: Seq<PoolEvent>)
    requires
        pool_run(states, events),
        slots_wf(states[0].slots),
    ensures
        forall|i: int| #[trigger]
            live_handles(events).contains_key(i) ==> {
                &&& pool::checked_out_of(states.last().slots, live_handles(events)[i])
                &&& live_handles(events)[i].user_data->Pool_0.index == i
            },
        (forall|i: int| !is_out(states[0].slots, i)) ==> forall|i: int| #[trigger]
            is_out(states.last().slots, i) ==> live_handles(events).contains_key(i),
    decreases events.len(),
{
    if events.len() > 0 {
        lemma_run_prefix(states, events);
        law_pool_live_handles(states.drop_last(), events.drop_last());
        law_pool_keeps_memory(states.drop_last(), events.drop_last());
        let before = states.drop_last().last();
        let after = states.last();
        let earlier = live_handles(events.drop_last());
        assert forall|i: int| #[trigger] live_handles(events).contains_key(i) implies {
            &&& pool::checked_out_of(after.slots, live_handles(events)[i])
            &&& live_handles(events)[i].user_data->Pool_0.index == i
        } by {
            if earlier.contains_key(i) {
                assert(pool::checked_out_of(before.slots, earlier[i]));
            } else {
                assert(before.slots[i].wf());
            }
        }
        if forall|i: int| !is_out(states[0].slots, i) {
            assert forall|i: int| #[trigger] is_out(after.slots, i) implies live_handles(
                events,
            ).contains_key(i) by {
                if is_out(before.slots, i) {
                    assert(earlier.contains_key(i));
                }
            }
        }
    }
}

/// Whatever happens to a pool, a buffer that is handed out is different from every
/// buffer for which a handle is live: it has another index and, where the registered
/// buffers share no memory, no byte in common with it.
pub proof fn law_pool_hands_out_others(states: Seq<PoolView>, events: Seq<PoolEvent>, j: int)
    requires
        pool_run(states, events),
        slots_wf(states[0].slots),
        0 <= j < events.len(),
        events[j] matches PoolEvent::Ask { got, .. } && got is Some,
    ensures
        ({
            let buf = events[j]->got->0;
            let live = live_handles(events.take(j));
            &&& !live.contains_key(buf.user_data->Pool_0.index as int)
            &&& forall|i: int| #[trigger]
                live.contains_key(i) ==> live[i].user_data != buf.user_data
            &&& all_apart(states[0].slots) ==> forall|i: int| #[trigger]
                live.contains_key(i) ==> apart(live[i].parts[0].room(), buf.parts[0].room())
        }),
{
    let buf = events[j]->got->0;
    let earlier = states.take(j + 1);
    let live = live_handles(events.take(j));
    assert(pool_run(earlier, events.take(j))) by {
        assert forall|i: int|
            #![trigger events.take(j)[i]]
            0 <= i < events.take(j).len() implies pool_step(
            earlier[i],
            events.take(j)[i],
            earlier[i + 1],
        ) by {
            assert(events[i] == events.take(j)[i]);
        }
    }
    assert(pool_step(states[j], events[j], states[j + 1]));
    law_pool_live_handles(earlier, events.take(j));
    law_pool_keeps_memory(earlier, events.take(j));
    let index = buf.user_data->Pool_0.index as int;
    assert(earlier.last() == states[j]);
    assert(slot_iovecs(states[j].slots).len() == slot_iovecs(states[0].slots).len());
    if live.contains_key(index) {
        assert(pool::checked_out_of(states[j].slots, live[index]));
    }
    if all_apart(states[0].slots) {
        assert forall|i: int| #[trigger] live.contains_key(i) implies apart(
            live[i].parts[0].room(),
            buf.parts[0].room(),
        ) by {
            assert(pool::checked_out_of(states[j].slots, live[i]));
            assert(slot_iovecs(states[j].slots)[i] == slot_iovecs(states[0].slots)[i]);
            assert(slot_iovecs(states[j].slots)[index] == slot_iovecs(states[0].slots)[index]);
            if i < index {
                assert(apart(states[0].slots[i].iovec, states[0].slots[index].iovec));
            } else {
                assert(apart(states[0].slots[index].iovec, states[0].slots[i].iovec));
            }
        }
    }
}

/// Whatever happens to a pool, the live handles of a capacity never outnumber the
/// registered buffers of that capacity.
pub proof fn law_pool_limits_live_handles(
    states: Seq<PoolView>,
    events: Seq<PoolEvent>,
    cap: usize,
)
    requires
        pool_run(states, events),
        slots_wf(states[0].slots),
    ensures
        buffers_of(states[0].slots, cap).finite(),
        handles_of(live_handles(events), cap).finite(),
        handles_of(live_handles(events), cap).len() <= buffers_of(states[0].slots, cap).len(),
{
    let first = states[0].slots;
    let last = states.last().slots;
    let handles = live_handles(events);
    law_pool_live_handles(states, events);
    law_pool_keeps_memory(states, events);
    assert(slot_iovecs(last).len() == slot_iovecs(first).len());
    vstd::set_lib::lemma_int_range(0, first.len() as int);
    vstd::set_lib::lemma_len_subset(
        buffers_of(first, cap),
        vstd::set_lib::set_int_range(0, first.len() as int),
    );
    assert forall|i: int| #[trigger] handles_of(handles, cap).contains(i) implies buffers_of(
        first,
        cap,
    ).contains(i) by {
        assert(handles.contains_key(i));
        assert(slot_iovecs(last)[i] == slot_iovecs(first)[i]);
    }
    vstd::set_lib::lemma_len_subset(handles_of(handles, cap), buffers_of(first, cap));
}

/// The handles that `events` have handed out and not given back, by index.
pub open spec fn live_registry_handles(events: Seq<RegistryEvent>) -> Map<int, BufferView>
    decreases events.len(),
{
    if events.len() == 0 {
        Map::empty()
    } else {
        let earlier = live_registry_handles(events.drop_last());
        match events.last() {
            RegistryEvent::CheckOut { index, got: Some(buf) } => earlier.insert(index as int, buf),
            RegistryEvent::CheckIn { buf } => earlier.remove(
                buf.user_data->Registry_0.index as int,
            ),
            _ => earlier,
        }
    }
}

/// The handles that are live at the end of a run are for buffers that are checked out,
/// each for the one under its index. In a run from a state in which nothing is checked
/// out, every buffer that is checked out has such a handle.
pub proof fn law_registry_live_handles(states: Seq<Seq<Slot>>, events: Seq<RegistryEvent>)
    requires
        registry_run(states, events),
        slots_wf(states[0]),
    ensures
        forall|i: int| #[trigger]
            live_registry_handles(events).contains_key(i) ==> {
                &&& registry::checked_out_of(states.last(), live_registry_handles(events)[i])
                &&& live_registry_handles(events)[i].user_data->Registry_0.index == i
            },
        (forall|i: int| !is_out(states[0], i)) ==> forall|i: int| #[trigger]
            is_out(states.last(), i) ==> live_registry_handles(events).contains_key(i),
    decreases events.len(),
{
    if events.len() > 0 {
        lemma_registry_run_prefix(states, events);
        law_registry_live_handles(states.drop_last(), events.drop_last());
        law_registry_keeps_memory(states.drop_last(), events.drop_last());
        let before = states.drop_last().last();
        let after = states.last();
        let earlier = live_registry_handles(events.drop_last());
        assert forall|i: int| #[trigger] live_registry_handles(events).contains_key(i) implies {
            &&& registry::checked_out_of(after, live_registry_handles(events)[i])
            &&& live_registry_handles(events)[i].user_data->Registry_0.index == i
        } by {
            if earlier.contains_key(i) {
                assert(registry::checked_out_of(before, earlier[i]));
            } else {
                assert(before[i].wf());
            }
        }
        if forall|i: int| !is_out(states[0], i) {
            assert forall|i: int| #[trigger] is_out(after, i) implies live_registry_handles(
                events,
            ).contains_key(i) by {
                if is_out(before, i) {
                    assert(earlier.contains_key(i));
                }
            }
        }
    }
}

/// A new collection holds the given buffers in their order, each of them free, and
/// what exceeds the most that the kernel takes makes no difference.
pub proof fn law_new_collection(bufs: Seq<Buffer>)
    requires
        forall|i: int| 0 <= i < taken(bufs.len()) ==> registrable((#[trigger] bufs[i])@),
    ensures
        initial_slots(bufs).len() == taken(bufs.len()),
        slots_wf(initial_slots(bufs)),
        forall|i: int|
            0 <= i < taken(bufs.len()) ==> {
                &&& is_free(initial_slots(bufs), i)
                &&& #[trigger] slot_iovecs(initial_slots(bufs))[i] == bufs[i]@.parts[0].room()
            },
        initial_slots(bufs).len() == (if bufs.len() <= 1024 {
            bufs.len()
        } else {
            1024
        }),
        slot_iovecs(initial_slots(bufs)).len() == initial_slots(bufs).len(),
        forall|i: int|
            0 <= i < initial_slots(bufs).len() ==> {
                &&& (#[trigger] slot_iovecs(initial_slots(bufs))[i]).base == bufs[i]@.parts[0].addr
                &&& slot_iovecs(initial_slots(bufs))[i].len == bufs[i]@.parts[0].cap
            },
        initial_slots(bufs) == initial_slots(bufs.take(taken(bufs.len()) as int)),
{
    let few = bufs.take(taken(bufs.len()) as int);
    assert(initial_slots(bufs) =~= initial_slots(few));
    assert forall|i: int| 0 <= i < initial_slots(bufs).len() implies (
    #[trigger] initial_slots(bufs)[i]).wf() by {
        assert(registrable(bufs[i]@));
        assert(bufs[i]@.parts[0].wf());
    }
}

/// What is handed out of a new collection under an index is the buffer that was put in
/// there: the same memory with the same bytes in use. A pool has a buffer of each capacity
/// that was put in.
pub proof fn law_new_collection_hands_out_its_buffers(bufs: Seq<Buffer>, i: int)
    requires
        forall|i: int| 0 <= i < taken(bufs.len()) ==> registrable((#[trigger] bufs[i])@),
        0 <= i < bufs.len(),
        i < 1024,
    ensures
        ({
            let slots = initial_slots(bufs);
            &&& 0 <= i < slots.len()
            &&& pool::handle(slots[i], i as u16).parts == bufs[i]@.parts
            &&& registry::handle(slots[i], i as u16).parts == bufs[i]@.parts
            &&& pool::handle(slots[i], i as u16).fixed_index() == Some(i as u16)
            &&& registry::handle(slots[i], i as u16).fixed_index() == Some(i as u16)
            &&& available(slots, bufs[i]@.parts[0].cap, i)
            &&& any_available(slots, bufs[i]@.parts[0].cap)
        }),
{
    let slots = initial_slots(bufs);
    assert(registrable(bufs[i]@));
    assert(pool::handle(slots[i], i as u16).parts =~= bufs[i]@.parts);
    assert(registry::handle(slots[i], i as u16).parts =~= bufs[i]@.parts);
    assert(available(slots, bufs[i]@.parts[0].cap, i));
}

/// No free buffer is withheld: where one of a capacity is free, asking for that capacity
/// succeeds, and where none is, it does not.
pub proof fn law_pool_availability(slots: Seq<Slot>, cap: usize)
    ensures
        any_available(slots, cap) <==> exists|i: int|
            0 <= i < slots.len() && (#[trigger] slots[i]).iovec.len == cap && slots[i].state is Free,
{
    if any_available(slots, cap) {
        let i = choose|i: int| available(slots, cap, i);
        assert(slots[i].iovec.len == cap && slots[i].state is Free);
    }
    if exists|i: int|
        0 <= i < slots.len() && (#[trigger] slots[i]).iovec.len == cap && slots[i].state is Free {
        let i = choose|i: int|
            0 <= i < slots.len() && (#[trigger] slots[i]).iovec.len == cap
                && slots[i].state is Free;
        assert(available(slots, cap, i));
    }
}

/// What is given back to a pool is what the pool hands out under that index the next time:
/// the same memory, with as many bytes in use.
pub proof fn law_pool_returns_what_was_given_back(slots: Seq<Slot>, buf: BufferView)
    requires
        pool::checked_out_of(slots, buf),
    ensures
        ({
            let index = buf.user_data->Pool_0.index;
            let after = pool::given_back(slots, buf);
            &&& is_free(after, index as int)
            &&& pool::handle(after[index as int], index) == buf
            &&& after.update(index as int, after[index as int].checked_out()) == slots
        }),
{
    let index = buf.user_data->Pool_0.index;
    let after = pool::given_back(slots, buf);
    assert(pool::handle(after[index as int], index).parts =~= buf.parts);
    assert(after.update(index as int, after[index as int].checked_out()) =~= slots);
}

/// Whoever has waited for a capacity is woken by every buffer of that capacity that comes
/// back later, and nobody is woken where nobody has waited for the capacity.
pub proof fn law_pool_wakes_who_waited(
    states: Seq<PoolView>,
    events: Seq<PoolEvent>,
    buf: BufferView,
)
    requires
        pool_run(states, events),
        states[0].waited == Set::<usize>::empty(),
    ensures
        pool::woken(states.last(), buf) == (if exists|i: int|
            0 <= i < events.len() && #[trigger] events[i] == (PoolEvent::Wait {
                cap: buf.parts[0].cap,
            }) {
            Some(buf.parts[0].cap)
        } else {
            None
        }),
    decreases events.len(),
{
    let cap = buf.parts[0].cap;
    let wait = PoolEvent::Wait { cap };
    if events.len() > 0 {
        lemma_run_prefix(states, events);
        law_pool_wakes_who_waited(states.drop_last(), events.drop_last(), buf);
        if exists|i: int| 0 <= i < events.drop_last().len() && #[trigger] events.drop_last()[i]
            == wait {
            let i = choose|i: int|
                0 <= i < events.drop_last().len() && #[trigger] events.drop_last()[i] == wait;
            assert(events[i] == wait);
        } else if exists|i: int| 0 <= i < events.len() && #[trigger] events[i] == wait {
            let i = choose|i: int| 0 <= i < events.len() && #[trigger] events[i] == wait;
            if i < events.len() - 1 {
                assert(events.drop_last()[i] == wait);
            }
            assert(events.last() == wait);
        } else {
            assert(events[events.len() - 1] != wait);
        }
    }
}

/// Taking a buffer of a pool apart and putting the pieces together gives it back.
pub proof fn law_pool_buf_round_trip(buf: pool::FixedBuf)
    requires
        buf.pool_info is Some,
    ensures
        pool::FixedBuf::from_raw(
            seq![buf.iovec.base],
            seq![buf.init_len],
            seq![buf.iovec.len],
            buf.pool_info->0,
        ) == buf,
{
}

/// Taking a buffer of a registry apart and putting the pieces together gives it back.
pub proof fn law_registry_buf_round_trip(buf: registry::FixedBuf)
    requires
        buf.registry_info is Some,
    ensures
        registry::FixedBuf::from_raw(
            seq![buf.iovec.base],
            seq![buf.init_len],
            seq![buf.iovec.len],
            buf.registry_info->0,
        ) == buf,
{
}

} // verus!
