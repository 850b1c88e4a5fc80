//! A dynamic collection of I/O buffers that are registered with the kernel.
//!
//! A [`FixedBufPool`] hands out any free buffer of a wanted capacity, which lets
//! sets of interchangeable buffers with different capacity tiers rotate among
//! tasks.

use super::laws::{pool_step, PoolEvent};
use super::plumbing::pool::{any_available, available, Pool, PoolView};
use super::plumbing::slots::{
    initial_slots, is_out, registrable, slot_iovecs, slots_wf, taken, Slot,
};
use crate::buf::buffer::{lemma_single_part, BufPart, Buffer, BufferView, UserData};
use crate::driver::context::{context_step, Collection, Context, RegistrationEvent};
use crate::driver::sqe::{IoVec, RegisterRequest};
use crate::error::Error;
use vstd::prelude::*;

verus! {

/// What a buffer knows of the pool that it was checked out of.
#[derive(Clone, Copy, Debug, PartialEq, Eq, Structural)]
pub struct PoolInfo {
    pub index: u16,
}

/// The buffer that a free slot becomes in the hands of whoever checks it out.
pub open spec fn handle(slot: Slot, index: u16) -> BufferView {
    BufferView {
        parts: seq![
            BufPart {
                addr: slot.iovec.base,
                len: slot.state->init_len,
                cap: slot.iovec.len,
            },
        ],
        user_data: UserData::Pool(PoolInfo { index }),
    }
}

/// `buf` is the handle to a buffer that is checked out of a pool with these slots.
pub open spec fn checked_out_of(slots: Seq<Slot>, buf: BufferView) -> bool {
    buf.user_data matches UserData::Pool(info) && {
        &&& is_out(slots, info.index as int)
        &&& buf.parts.len() == 1
        &&& buf.parts[0].wf()
        &&& buf.parts[0].room() == slots[info.index as int].iovec
    }
}

/// The slots once the buffer behind the handle `buf` has been given back.
pub open spec fn given_back(slots: Seq<Slot>, buf: BufferView) -> Seq<Slot> {
    let index = buf.user_data->Pool_0.index as int;
    slots.update(index, slots[index].checked_in(buf.parts[0].len))
}

/// The capacity of which somebody should be woken when `buf` is given back, if any.
pub open spec fn woken(before: PoolView, buf: BufferView) -> Option<usize> {
    if before.waited.contains(buf.parts[0].cap) {
        Some(buf.parts[0].cap)
    } else {
        None
    }
}

/// `buf` has been checked out of `before`, which left `after`: it was free there
/// and has the wanted capacity, and nothing else changed.
pub open spec fn taken_for(
    before: Seq<Slot>,
    cap: usize,
    buf: BufferView,
    after: Seq<Slot>,
) -> bool {
    buf.user_data matches UserData::Pool(info) && {
        &&& available(before, cap, info.index as int)
        &&& buf == handle(before[info.index as int], info.index)
        &&& after == before.update(info.index as int, before[info.index as int].checked_out())
    }
}

/// The memory of a buffer that is checked out of a pool. It goes back to the pool
/// when it is released.
#[derive(Debug, PartialEq, Eq)]
pub struct FixedBuf {
    pub iovec: IoVec,
    pub init_len: usize,
    /// Nothing once the memory has been handed on or released.
    pub pool_info: Option<PoolInfo>,
}

impl FixedBuf {
    /// The buffer with the first of the given addresses, used lengths and capacities.
    pub open spec fn from_raw(
        ptr: Seq<usize>,
        len: Seq<usize>,
        cap: Seq<usize>,
        user_data: PoolInfo,
    ) -> FixedBuf {
        FixedBuf {
            iovec: IoVec { base: ptr[0], len: cap[0] },
            init_len: len[0],
            pool_info: Some(user_data),
        }
    }

    /// Takes the buffer apart into addresses, used lengths and capacities, and what
    /// it knows of its pool.
    pub fn into_raw_parts(self) -> (r: (Vec<usize>, Vec<usize>, Vec<usize>, PoolInfo))
        requires
            self.pool_info is Some,
        ensures
            r.0@ == seq![self.iovec.base],
            r.1@ == seq![self.init_len],
            r.2@ == seq![self.iovec.len],
            Some(r.3) == self.pool_info,
    {
        let pool_info = self.pool_info.unwrap();
        (vec![self.iovec.base], vec![self.init_len], vec![self.iovec.len], pool_info)
    }

    /// Puts a buffer together from what [`FixedBuf::into_raw_parts`] returns.
    pub fn from_raw_parts(
        ptr: Vec<usize>,
        len: Vec<usize>,
        cap: Vec<usize>,
        user_data: PoolInfo,
    ) -> (r: FixedBuf)
        requires
            ptr.len() > 0,
            len.len() > 0,
            cap.len() > 0,
        ensures
            r == FixedBuf::from_raw(ptr@, len@, cap@, user_data),
    {
        let iovec = IoVec { base: ptr[0], len: cap[0] };
        FixedBuf { iovec, init_len: len[0], pool_info: Some(user_data) }
    }

    /// Gives the memory back to its pool, unless it has been handed on before.
    /// Returns the capacity of which somebody should be woken, if any.
    pub fn release(&mut self, pool: &mut FixedBufPool) -> (r: Option<usize>)
        requires
            old(pool).wf(),
            old(self).pool_info matches Some(info) ==> {
                &&& is_out(old(pool)@.slots, info.index as int)
                &&& old(pool)@.slots[info.index as int].iovec == old(self).iovec
                &&& old(self).init_len <= old(self).iovec.len
            },
        ensures
            final(pool).wf(),
            final(pool).kept() == old(pool).kept(),
            *final(self) == (FixedBuf { pool_info: None, ..*old(self) }),
            final(pool)@.waited == old(pool)@.waited,
            match old(self).pool_info {
                Some(info) => {
                    &&& final(pool)@.slots == old(pool)@.slots.update(
                        info.index as int,
                        old(pool)@.slots[info.index as int].checked_in(old(self).init_len),
                    )
                    &&& r == (if old(pool)@.waited.contains(old(self).iovec.len) {
                        Some(old(self).iovec.len)
                    } else {
                        None
                    })
                },
                None => final(pool)@ == old(pool)@ && r is None,
            },
    {
        match self.pool_info {
            None => None,
            Some(pool_info) => {
                self.pool_info = None;
                pool.inner.check_in(pool_info.index as usize, self.init_len)
            },
        }
    }
}

/// What to do to get hold of a buffer that may not be free yet.
pub enum NextStep {
    /// The buffer is here.
    Ready(Buffer),
    /// Wait until a buffer of the wanted capacity is given back, then ask again
    /// with [`FixedBufPool::next_when_notified`].
    Wait,
}

/// A collection of I/O buffers, registered with the kernel, of which any free one
/// with a wanted capacity can be checked out.
pub struct FixedBufPool {
    inner: Pool,
}

impl View for FixedBufPool {
    type V = PoolView;

    closed spec fn view(&self) -> PoolView {
        self.inner@
    }
}

impl FixedBufPool {
    /// The validity of the pool.
    pub closed spec fn wf(&self) -> bool {
        self.inner.wf()
    }

    /// The buffers that the pool keeps.
    pub closed spec fn kept(&self) -> Seq<Buffer> {
        self.inner.kept()
    }

    /// The pool over the given bookkeeping.
    pub fn new(inner: Pool) -> (r: FixedBufPool)
        requires
            inner.wf(),
        ensures
            r.wf(),
            r@ == inner@,
            r.kept() == inner.kept(),
    {
        FixedBufPool { inner }
    }

    /// A valid pool has valid slots.
    pub proof fn lemma_slots_wf(&self)
        requires
            self.wf(),
        ensures
            slots_wf(self@.slots),
    {
        self.inner.lemma_slots_wf();
    }

    /// Returns a buffer of the given capacity that nobody uses, or nothing if there
    /// is none. Which one of several it is should not be relied on.
    pub fn try_next(&mut self, cap: usize) -> (r: Option<Buffer>)
        requires
            old(self).wf(),
        ensures
            final(self).wf(),
            final(self).kept() == old(self).kept(),
            final(self)@.waited == old(self)@.waited,
            r is Some <==> any_available(old(self)@.slots, cap),
            match r {
                Some(buf) => {
                    &&& taken_for(old(self)@.slots, cap, buf@, final(self)@.slots)
                    &&& checked_out_of(final(self)@.slots, buf@)
                    &&& buf@.wf()
                },
                None => final(self)@ == old(self)@,
            },
            pool_step(
                old(self)@,
                PoolEvent::Ask {
                    cap,
                    got: match r {
                        Some(buf) => Some(buf@),
                        None => None,
                    },
                },
                final(self)@,
            ),
    {
        proof {
            self.inner.lemma_slots_wf();
        }
        match self.inner.try_next(cap) {
            None => None,
            Some((iovec, init_len, index)) => {
                let pool_info = PoolInfo { index: index as u16 };
                let buf = FixedBuf { iovec, init_len, pool_info: Some(pool_info) };
                let (ptr, len, caps, info) = buf.into_raw_parts();
                let buffer = Buffer::from_raw_parts(ptr, len, caps, UserData::Pool(info));
                proof {
                    let slot = old(self)@.slots[index as int];
                    assert(slot.wf());
                    assert(buffer@.parts =~= handle(slot, info.index).parts);
                    lemma_single_part(buffer@.parts);
                }
                Some(buffer)
            },
        }
    }

    /// Asks for a buffer of the given capacity for the first time. Where none is
    /// free, the pool remembers that somebody waits for that capacity.
    pub fn next(&mut self, cap: usize) -> (r: NextStep)
        requires
            old(self).wf(),
        ensures
            final(self).wf(),
            final(self).kept() == old(self).kept(),
            r is Ready <==> any_available(old(self)@.slots, cap),
            match r {
                NextStep::Ready(buf) => {
                    &&& taken_for(old(self)@.slots, cap, buf@, final(self)@.slots)
                    &&& checked_out_of(final(self)@.slots, buf@)
                    &&& buf@.wf()
                    &&& final(self)@.waited == old(self)@.waited
                },
                NextStep::Wait => {
                    &&& final(self)@.slots == old(self)@.slots
                    &&& final(self)@.waited == old(self)@.waited.insert(cap)
                },
            },
            pool_step(
                old(self)@,
                match r {
                    NextStep::Ready(buf) => PoolEvent::Ask { cap, got: Some(buf@) },
                    NextStep::Wait => PoolEvent::Wait { cap },
                },
                final(self)@,
            ),
    {
        match self.try_next(cap) {
            Some(buffer) => NextStep::Ready(buffer),
            None => {
                self.inner.notify_on_next(cap);
                NextStep::Wait
            },
        }
    }

    /// Asks again for a buffer of the given capacity, after a wake-up. The buffer
    /// that was given back may be gone already, or the wake-up may be left over from
    /// an earlier time: then the waiting goes on.
    pub fn next_when_notified(&mut self, cap: usize) -> (r: NextStep)
        requires
            old(self).wf(),
        ensures
            final(self).wf(),
            final(self).kept() == old(self).kept(),
            final(self)@.waited == old(self)@.waited,
            r is Ready <==> any_available(old(self)@.slots, cap),
            match r {
                NextStep::Ready(buf) => {
                    &&& taken_for(old(self)@.slots, cap, buf@, final(self)@.slots)
                    &&& checked_out_of(final(self)@.slots, buf@)
                    &&& buf@.wf()
                },
                NextStep::Wait => final(self)@ == old(self)@,
            },
            pool_step(
                old(self)@,
                PoolEvent::Ask {
                    cap,
                    got: match r {
                        NextStep::Ready(buf) => Some(buf@),
                        NextStep::Wait => None,
                    },
                },
                final(self)@,
            ),
    {
        match self.try_next(cap) {
            Some(buffer) => NextStep::Ready(buffer),
            None => NextStep::Wait,
        }
    }

    /// Takes back a buffer that nobody uses any more. Returns its capacity if
    /// somebody who has waited for a buffer of that capacity should be woken.
    pub fn check_in(&mut self, buf: Buffer) -> (r: Option<usize>)
        requires
            old(self).wf(),
            checked_out_of(old(self)@.slots, buf@),
        ensures
            final(self).wf(),
            final(self).kept() == old(self).kept(),
            final(self)@.waited == old(self)@.waited,
            final(self)@.slots == given_back(old(self)@.slots, buf@),
            r == (if old(self)@.waited.contains(buf@.parts[0].cap) {
                Some(buf@.parts[0].cap)
            } else {
                None
            }),
            r == woken(old(self)@, buf@),
            pool_step(old(self)@, PoolEvent::GiveBack { buf: buf@ }, final(self)@),
    {
        let (ptr, len, cap, user_data) = buf.into_raw_parts();
        match user_data {
            UserData::Pool(info) => {
                let mut fixed = FixedBuf::from_raw_parts(ptr, len, cap, info);
                fixed.release(self)
            },
            _ => {
                assert(false);
                None
            },
        }
    }
}

/// A pool whose buffers the kernel has been asked to register.
pub struct PoolRegistration {
    pool: Pool,
}

impl View for PoolRegistration {
    type V = PoolView;

    closed spec fn view(&self) -> PoolView {
        self.pool@
    }
}

impl PoolRegistration {
    /// The validity of the pool.
    pub closed spec fn wf(&self) -> bool {
        self.pool.wf()
    }

    /// The buffers that the pool keeps.
    pub closed spec fn kept(&self) -> Seq<Buffer> {
        self.pool.kept()
    }

    /// What the kernel is asked for: to register the buffers in their order.
    pub fn request(&self) -> (r: RegisterRequest)
        ensures
            r matches RegisterRequest::Register(iovecs) && iovecs@ == slot_iovecs(self@.slots),
    {
        let iovecs = self.pool.iovecs().clone();
        assert(iovecs@ =~= slot_iovecs(self@.slots));
        RegisterRequest::Register(iovecs)
    }

    /// Takes the kernel's reply: the pool, if the kernel has registered the buffers; the
    /// kernel's error if it has not.
    pub fn complete(self, context: &mut Context, reply: Result<(), Error>) -> (r: Result<
        FixedBufPool,
        Error,
    >)
        requires
            self.wf(),
            old(context).registered is None,
        ensures
            match reply {
                Ok(()) => r matches Ok(pool) && {
                    &&& pool.wf()
                    &&& pool@ == self@
                    &&& pool.kept() == self.kept()
                },
                Err(error) => r == Err::<FixedBufPool, Error>(error),
            },
            final(context).registered == (match reply {
                Ok(()) => Some(Collection::Pool),
                Err(_) => None,
            }),
            final(context).in_flight == old(context).in_flight,
            context_step(
                *old(context),
                match reply {
                    Ok(()) => RegistrationEvent::Registered(Collection::Pool),
                    Err(_) => RegistrationEvent::Refused,
                },
                *final(context),
            ),
    {
        context.after_register(Collection::Pool, reply);
        match reply {
            Ok(()) => Ok(FixedBufPool::new(self.pool)),
            Err(error) => Err(error),
        }
    }
}

/// Starts the registration of a collection of buffers, which are numbered from zero
/// in their order. As many are taken as the kernel takes; the rest is dropped. Fails
/// while a collection is registered.
pub fn register(context: &Context, bufs: Vec<Buffer>) -> (r: Result<PoolRegistration, Error>)
    requires
        forall|i: int| 0 <= i < taken(bufs@.len()) ==> registrable((#[trigger] bufs[i])@),
    ensures
        match context.registered {
            None => r matches Ok(registration) && {
                &&& registration.wf()
                &&& registration.kept() == bufs@.take(taken(bufs@.len()) as int)
                &&& registration@ == (PoolView { slots: initial_slots(bufs@), waited: Set::empty() })
            },
            Some(_) => r == Err::<PoolRegistration, Error>(Error::AlreadyRegistered),
        },
{
    match context.check_register() {
        Ok(()) => Ok(PoolRegistration { pool: Pool::new(bufs) }),
        Err(error) => Err(error),
    }
}

/// What the kernel is asked for to drop the registered buffers. Fails while no pool is
/// registered.
pub fn unregister(context: &Context) -> (r: Result<RegisterRequest, Error>)
    ensures
        r == (match context.unregister_answer(Collection::Pool) {
            Ok(()) => Ok::<RegisterRequest, Error>(RegisterRequest::Unregister),
            Err(error) => Err(error),
        }),
        r == (if context.registered == Some(Collection::Pool) {
            Ok::<RegisterRequest, Error>(RegisterRequest::Unregister)
        } else {
            Err(Error::NotRegistered)
        }),
{
    match context.check_unregister(Collection::Pool) {
        Ok(()) => Ok(RegisterRequest::Unregister),
        Err(error) => Err(error),
    }
}

/// Takes the kernel's reply to the request that [`unregister`] returned, which is the
/// outcome.
pub fn complete_unregister(context: &mut Context, reply: Result<(), Error>) -> (r: Result<
    (),
    Error,
>)
    requires
        old(context).registered == Some(Collection::Pool),
    ensures
        r == reply,
        final(context).registered == (match reply {
            Ok(()) => None,
            Err(_) => old(context).registered,
        }),
        final(context).in_flight == old(context).in_flight,
        context_step(
            *old(context),
            match reply {
                Ok(()) => RegistrationEvent::Unregistered(Collection::Pool),
                Err(_) => RegistrationEvent::Refused,
            },
            *final(context),
        ),
{
    context.after_unregister(reply)
}

} // verus!
