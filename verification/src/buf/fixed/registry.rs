//! An indexed collection of I/O buffers that are registered with the kernel.

use super::laws::{registry_step, RegistryEvent};
use super::plumbing::registry::Registry;
use super::plumbing::slots::{
    initial_slots, is_free, is_out, registrable, slot_iovecs, slots_wf, taken, Slot,
};
use crate::buf::buffer::{lemma_single_part, BufPart, Buffer, BufferView, UserData};
use crate::driver::context::{context_step, Collection, Context, RegistrationEvent};
use crate::driver::sqe::{IoVec, RegisterRequest};
use crate::error::Error;
use vstd::prelude::*;

verus! {

/// What a buffer knows of the registry that it was checked out of.
#[derive(Clone, Copy, Debug, PartialEq, Eq, Structural)]
pub struct RegistryInfo {
    pub index: u16,
}

/// The buffer that a free slot becomes in the hands of whoever checks it out.
pub open spec fn handle(slot: Slot, index: u16) -> BufferView {
    BufferView {
        parts: seq![
            BufPart {
                addr: slot.iovec.base,
                len: slot.state->init_len,
                cap: slot.iovec.len,
            },
        ],
        user_data: UserData::Registry(RegistryInfo { index }),
    }
}

/// `buf` is the handle to a buffer that is checked out of a registry with these
/// slots.
pub open spec fn checked_out_of(slots: Seq<Slot>, buf: BufferView) -> bool {
    buf.user_data matches UserData::Registry(info) && {
        &&& is_out(slots, info.index as int)
        &&& buf.parts.len() == 1
        &&& buf.parts[0].wf()
        &&& buf.parts[0].room() == slots[info.index as int].iovec
    }
}

/// The slots once the buffer behind the handle `buf` has been given back.
pub open spec fn given_back(slots: Seq<Slot>, buf: BufferView) -> Seq<Slot> {
    let index = buf.user_data->Registry_0.index as int;
    slots.update(index, slots[index].checked_in(buf.parts[0].len))
}

/// The memory of a buffer that is checked out of a registry. It goes back to the
/// registry when it is released.
#[derive(Debug, PartialEq, Eq)]
pub struct FixedBuf {
    pub iovec: IoVec,
    pub init_len: usize,
    /// Nothing once the memory has been handed on or released.
    pub registry_info: Option<RegistryInfo>,
}

impl FixedBuf {
    /// The buffer with the first of the given addresses, used lengths and capacities.
    pub open spec fn from_raw(
        ptr: Seq<usize>,
        len: Seq<usize>,
        cap: Seq<usize>,
        user_data: RegistryInfo,
    ) -> FixedBuf {
        FixedBuf {
            iovec: IoVec { base: ptr[0], len: cap[0] },
            init_len: len[0],
            registry_info: Some(user_data),
        }
    }

    /// Takes the buffer apart into addresses, used lengths and capacities, and what
    /// it knows of its registry.
    pub fn into_raw_parts(self) -> (r: (Vec<usize>, Vec<usize>, Vec<usize>, RegistryInfo))
        requires
            self.registry_info is Some,
        ensures
            r.0@ == seq![self.iovec.base],
            r.1@ == seq![self.init_len],
            r.2@ == seq![self.iovec.len],
            Some(r.3) == self.registry_info,
    {
        let registry_info = self.registry_info.unwrap();
        (vec![self.iovec.base], vec![self.init_len], vec![self.iovec.len], registry_info)
    }

    /// Puts a buffer together from what [`FixedBuf::into_raw_parts`] returns.
    pub fn from_raw_parts(
        ptr: Vec<usize>,
        len: Vec<usize>,
        cap: Vec<usize>,
        user_data: RegistryInfo,
    ) -> (r: FixedBuf)
        requires
            ptr.len() > 0,
            len.len() > 0,
            cap.len() > 0,
        ensures
            r == FixedBuf::from_raw(ptr@, len@, cap@, user_data),
    {
        let iovec = IoVec { base: ptr[0], len: cap[0] };
        FixedBuf { iovec, init_len: len[0], registry_info: Some(user_data) }
    }

    /// Gives the memory back to its registry, unless it has been handed on before.
    pub fn release(&mut self, registry: &mut FixedBufRegistry)
        requires
            old(registry).wf(),
            old(self).registry_info matches Some(info) ==> {
                &&& is_out(old(registry)@, info.index as int)
                &&& old(registry)@[info.index as int].iovec == old(self).iovec
                &&& old(self).init_len <= old(self).iovec.len
            },
        ensures
            final(registry).wf(),
            final(registry).kept() == old(registry).kept(),
            *final(self) == (FixedBuf { registry_info: None, ..*old(self) }),
            final(registry)@ == (match old(self).registry_info {
                Some(info) => old(registry)@.update(
                    info.index as int,
                    old(registry)@[info.index as int].checked_in(old(self).init_len),
                ),
                None => old(registry)@,
            }),
    {
        match self.registry_info {
            None => {},
            Some(registry_info) => {
                self.registry_info = None;
                registry.inner.check_in(registry_info.index as usize, self.init_len);
            },
        }
    }
}

/// A collection of I/O buffers, registered with the kernel, each of which is
/// checked out by its index.
pub struct FixedBufRegistry {
    inner: Registry,
}

impl View for FixedBufRegistry {
    type V = Seq<Slot>;

    closed spec fn view(&self) -> Seq<Slot> {
        self.inner@
    }
}

impl FixedBufRegistry {
    /// The validity of the registry.
    pub closed spec fn wf(&self) -> bool {
        self.inner.wf()
    }

    /// The buffers that the registry keeps.
    pub closed spec fn kept(&self) -> Seq<Buffer> {
        self.inner.kept()
    }

    /// A valid registry has valid slots.
    pub proof fn lemma_slots_wf(&self)
        requires
            self.wf(),
        ensures
            slots_wf(self@),
    {
        self.inner.lemma_slots_wf();
    }

    /// The registry over the given bookkeeping.
    pub fn new(inner: Registry) -> (r: FixedBufRegistry)
        requires
            inner.wf(),
        ensures
            r.wf(),
            r@ == inner@,
            r.kept() == inner.kept(),
    {
        FixedBufRegistry { inner }
    }

    /// Returns the buffer with the given index, unless somebody uses it already or
    /// there is none.
    pub fn check_out(&mut self, index: usize) -> (r: Option<Buffer>)
        requires
            old(self).wf(),
        ensures
            final(self).wf(),
            final(self).kept() == old(self).kept(),
            r is Some <==> is_free(old(self)@, index as int),
            match r {
                Some(buf) => {
                    &&& buf@ == handle(old(self)@[index as int], index as u16)
                    &&& buf@.wf()
                    &&& final(self)@ == old(self)@.update(
                        index as int,
                        old(self)@[index as int].checked_out(),
                    )
                    &&& index <= u16::MAX
                    &&& checked_out_of(final(self)@, buf@)
                },
                None => final(self)@ == old(self)@,
            },
            registry_step(
                old(self)@,
                RegistryEvent::CheckOut {
                    index,
                    got: match r {
                        Some(buf) => Some(buf@),
                        None => None,
                    },
                },
                final(self)@,
            ),
    {
        proof {
            self.inner.lemma_slots_wf();
        }
        match self.inner.check_out(index) {
            None => None,
            Some((iovec, init_len)) => {
                let registry_info = RegistryInfo { index: index as u16 };
                let buf = FixedBuf { iovec, init_len, registry_info: Some(registry_info) };
                let (ptr, len, cap, info) = buf.into_raw_parts();
                let buffer = Buffer::from_raw_parts(ptr, len, cap, UserData::Registry(info));
                proof {
                    let slot = old(self)@[index as int];
                    assert(slot.wf());
                    assert(buffer@.parts =~= handle(slot, info.index).parts);
                    lemma_single_part(buffer@.parts);
                }
                Some(buffer)
            },
        }
    }

    /// Takes back a buffer that nobody uses any more.
    pub fn check_in(&mut self, buf: Buffer)
        requires
            old(self).wf(),
            checked_out_of(old(self)@, buf@),
        ensures
            final(self).wf(),
            final(self).kept() == old(self).kept(),
            final(self)@ == given_back(old(self)@, buf@),
            registry_step(old(self)@, RegistryEvent::CheckIn { buf: buf@ }, final(self)@),
    {
        let (ptr, len, cap, user_data) = buf.into_raw_parts();
        match user_data {
            UserData::Registry(info) => {
                let mut fixed = FixedBuf::from_raw_parts(ptr, len, cap, info);
                fixed.release(self);
            },
            _ => {
                assert(false);
            },
        }
    }
}

/// A registry whose buffers the kernel has been asked to register.
pub struct RegistryRegistration {
    registry: Registry,
}

impl View for RegistryRegistration {
    type V = Seq<Slot>;

    closed spec fn view(&self) -> Seq<Slot> {
        self.registry@
    }
}

impl RegistryRegistration {
    /// The validity of the registry.
    pub closed spec fn wf(&self) -> bool {
        self.registry.wf()
    }

    /// The buffers that the registry keeps.
    pub closed spec fn kept(&self) -> Seq<Buffer> {
        self.registry.kept()
    }

    /// What the kernel is asked for: to register the buffers in their order.
    pub fn request(&self) -> (r: RegisterRequest)
        ensures
            r matches RegisterRequest::Register(iovecs) && iovecs@ == slot_iovecs(self@),
    {
        let iovecs = self.registry.iovecs().clone();
        assert(iovecs@ =~= slot_iovecs(self@));
        RegisterRequest::Register(iovecs)
    }

    /// Takes the kernel's reply: the registry, if the kernel has registered the buffers; the
    /// kernel's error if it has not.
    pub fn complete(self, context: &mut Context, reply: Result<(), Error>) -> (r: Result<
        FixedBufRegistry,
        Error,
    >)
        requires
            self.wf(),
            old(context).registered is None,
        ensures
            match reply {
                Ok(()) => r matches Ok(registry) && {
                    &&& registry.wf()
                    &&& registry@ == self@
                    &&& registry.kept() == self.kept()
                },
                Err(error) => r == Err::<FixedBufRegistry, Error>(error),
            },
            final(context).registered == (match reply {
                Ok(()) => Some(Collection::Registry),
                Err(_) => None,
            }),
            final(context).in_flight == old(context).in_flight,
            context_step(
                *old(context),
                match reply {
                    Ok(()) => RegistrationEvent::Registered(Collection::Registry),
                    Err(_) => RegistrationEvent::Refused,
                },
                *final(context),
            ),
    {
        context.after_register(Collection::Registry, reply);
        match reply {
            Ok(()) => Ok(FixedBufRegistry::new(self.registry)),
            Err(error) => Err(error),
        }
    }
}

/// Starts the registration of a collection of buffers, which are numbered from zero
/// in their order. As many are taken as the kernel takes; the rest is dropped. Fails
/// while a collection is registered.
pub fn register(context: &Context, bufs: Vec<Buffer>) -> (r: Result<RegistryRegistration, Error>)
    requires
        forall|i: int| 0 <= i < taken(bufs@.len()) ==> registrable((#[trigger] bufs[i])@),
    ensures
        match context.registered {
            None => r matches Ok(registration) && {
                &&& registration.wf()
                &&& registration.kept() == bufs@.take(taken(bufs@.len()) as int)
                &&& registration@ == initial_slots(bufs@)
            },
            Some(_) => r == Err::<RegistryRegistration, Error>(Error::AlreadyRegistered),
        },
{
    match context.check_register() {
        Ok(()) => Ok(RegistryRegistration { registry: Registry::new(bufs) }),
        Err(error) => Err(error),
    }
}

/// What the kernel is asked for to drop the registered buffers. Fails while no registry is
/// registered, and while an operation in flight uses a buffer that was checked out of a
/// registry. A buffer that is merely checked out is no obstacle.
pub fn unregister(context: &Context) -> (r: Result<RegisterRequest, Error>)
    ensures
        r == (match context.unregister_answer(Collection::Registry) {
            Ok(()) => Ok::<RegisterRequest, Error>(RegisterRequest::Unregister),
            Err(error) => Err(error),
        }),
        r == (if context.registered != Some(Collection::Registry) {
            Err::<RegisterRequest, Error>(Error::NotRegistered)
        } else if context.in_flight > 0 {
            Err(Error::BuffersInUse)
        } else {
            Ok(RegisterRequest::Unregister)
        }),
{
    match context.check_unregister(Collection::Registry) {
        Ok(()) => Ok(RegisterRequest::Unregister),
        Err(error) => Err(error),
    }
}

/// Takes the kernel's reply to the request that [`unregister`] returned, which is the
/// outcome.
pub fn complete_unregister(context: &mut Context, reply: Result<(), Error>) -> (r: Result<
    (),
    Error,
>)
    requires
        old(context).registered == Some(Collection::Registry),
        old(context).in_flight == 0,
    ensures
        r == reply,
        final(context).registered == (match reply {
            Ok(()) => None,
            Err(_) => old(context).registered,
        }),
        final(context).in_flight == old(context).in_flight,
        context_step(
            *old(context),
            match reply {
                Ok(()) => RegistrationEvent::Unregistered(Collection::Registry),
                Err(_) => RegistrationEvent::Refused,
            },
            *final(context),
        ),
{
    context.after_unregister(reply)
}

} // verus!
