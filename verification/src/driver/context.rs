//! What a runtime knows of itself.

use crate::buf::buffer::UserData;
use crate::error::Error;
use vstd::prelude::*;

verus! {

/// The sorts of collections of buffers that can be registered.
#[derive(Clone, Copy, Debug, PartialEq, Eq, Structural)]
pub enum Collection {
    Pool,
    Registry,
}

/// The context of a runtime: which sort of collection of buffers is registered with
/// the kernel, if any, and how many operations are in flight on buffers that were
/// checked out of a registry. There is at most one collection at a time.
#[derive(Clone, Copy, Debug, PartialEq, Eq, Structural)]
pub struct Context {
    pub registered: Option<Collection>,
    pub in_flight: usize,
}

/// How many buffers of a registry an operation on the given memory uses.
pub open spec fn registry_uses(user_data: UserData) -> int {
    if user_data is Registry {
        1
    } else {
        0
    }
}

impl Context {
    /// What is answered to whoever wants to register a collection.
    pub open spec fn register_answer(self) -> Result<(), Error> {
        match self.registered {
            None => Ok(()),
            Some(_) => Err(Error::AlreadyRegistered),
        }
    }

    /// What is answered to whoever wants to unregister a collection of the given sort.
    pub open spec fn unregister_answer(self, collection: Collection) -> Result<(), Error> {
        if self.registered != Some(collection) {
            Err(Error::NotRegistered)
        } else if collection is Registry && self.in_flight > 0 {
            Err(Error::BuffersInUse)
        } else {
            Ok(())
        }
    }

    /// A context in which nothing is registered and nothing in flight.
    pub fn new() -> (r: Context)
        ensures
            r.registered is None,
            r.in_flight == 0,
    {
        Context { registered: None, in_flight: 0 }
    }

    /// Whether a collection may be registered: not while one is.
    pub fn check_register(&self) -> (r: Result<(), Error>)
        ensures
            r == self.register_answer(),
            r == (match self.registered {
                None => Ok::<(), Error>(()),
                Some(_) => Err(Error::AlreadyRegistered),
            }),
    {
        match self.registered {
            None => Ok(()),
            Some(_) => Err(Error::AlreadyRegistered),
        }
    }

    /// Whether a collection of the given sort may be unregistered: only while one is
    /// registered, and a registry only while no operation in flight uses a buffer of
    /// a registry.
    pub fn check_unregister(&self, collection: Collection) -> (r: Result<(), Error>)
        ensures
            r == self.unregister_answer(collection),
            r == (if self.registered != Some(collection) {
                Err::<(), Error>(Error::NotRegistered)
            } else if collection is Registry && self.in_flight > 0 {
                Err(Error::BuffersInUse)
            } else {
                Ok(())
            }),
    {
        match self.registered {
            Some(registered) => if registered != collection {
                Err(Error::NotRegistered)
            } else if collection == Collection::Registry && self.in_flight > 0 {
                Err(Error::BuffersInUse)
            } else {
                Ok(())
            },
            None => Err(Error::NotRegistered),
        }
    }

    /// Takes note that an operation on a buffer with this memory has been submitted.
    pub fn operation_started(&mut self, user_data: UserData)
        requires
            old(self).in_flight + registry_uses(user_data) <= usize::MAX,
        ensures
            final(self).registered == old(self).registered,
            final(self).in_flight == old(self).in_flight + registry_uses(user_data),
            context_step(*old(self), RegistrationEvent::Started(user_data), *final(self)),
    {
        match user_data {
            UserData::Registry(_) => {
                self.in_flight = self.in_flight + 1;
            },
            _ => {},
        }
    }

    /// Takes note that an operation on a buffer with this memory has completed.
    pub fn operation_finished(&mut self, user_data: UserData)
        requires
            old(self).in_flight >= registry_uses(user_data),
        ensures
            final(self).registered == old(self).registered,
            final(self).in_flight == old(self).in_flight - registry_uses(user_data),
            context_step(*old(self), RegistrationEvent::Finished(user_data), *final(self)),
    {
        match user_data {
            UserData::Registry(_) => {
                self.in_flight = self.in_flight - 1;
            },
            _ => {},
        }
    }

    /// Takes the kernel's reply to the registration of a collection.
    pub fn after_register(&mut self, collection: Collection, reply: Result<(), Error>)
        requires
            old(self).registered is None,
        ensures
            final(self).registered == (match reply {
                Ok(()) => Some(collection),
                Err(_) => None,
            }),
            final(self).in_flight == old(self).in_flight,
    {
        if reply.is_ok() {
            self.registered = Some(collection);
        }
    }

    /// Takes the kernel's reply to the request to unregister, which is the outcome.
    pub fn after_unregister(&mut self, reply: Result<(), Error>) -> (r: Result<(), Error>)
        ensures
            r == reply,
            final(self).registered == (match reply {
                Ok(()) => None,
                Err(_) => old(self).registered,
            }),
            final(self).in_flight == old(self).in_flight,
    {
        if reply.is_ok() {
            self.registered = None;
        }
        reply
    }
}

/// Something that happens to the registered buffers of a runtime.
pub enum RegistrationEvent {
    /// A collection is registered.
    Registered(Collection),
    /// The registered collection, of this sort, is unregistered.
    Unregistered(Collection),
    /// A request is refused, by the runtime or by the kernel.
    Refused,
    /// An operation on a buffer with this memory is submitted.
    Started(UserData),
    /// An operation on a buffer with this memory completes.
    Finished(UserData),
}

/// How an event changes a context. Registering succeeds only while nothing is
/// registered, unregistering only while something of the right sort is. A registry is
/// unregistered only while no operation in flight uses a buffer of a registry.
pub open spec fn context_step(before: Context, event: RegistrationEvent, after: Context) -> bool {
    match event {
        RegistrationEvent::Registered(collection) => {
            &&& before.registered is None
            &&& after.registered == Some(collection)
            &&& after.in_flight == before.in_flight
        },
        RegistrationEvent::Unregistered(collection) => {
            &&& before.registered == Some(collection)
            &&& collection is Registry ==> before.in_flight == 0
            &&& after.registered is None
            &&& after.in_flight == before.in_flight
        },
        RegistrationEvent::Refused => after == before,
        RegistrationEvent::Started(user_data) => {
            &&& after.registered == before.registered
            &&& after.in_flight == before.in_flight + registry_uses(user_data)
        },
        RegistrationEvent::Finished(user_data) => {
            &&& after.registered == before.registered
            &&& after.in_flight == before.in_flight - registry_uses(user_data)
        },
    }
}

/// `states` are the states that a context goes through while `events` happen.
pub open spec fn context_run(states: Seq<Context>, events: Seq<RegistrationEvent>) -> bool {
    &&& states.len() == events.len() + 1
    &&& forall|i: int|
        #![trigger events[i]]
        0 <= i < events.len() ==> context_step(states[i], events[i], states[i + 1])
}

proof fn lemma_stays_registered(
    states: Seq<Context>,
    events: Seq<RegistrationEvent>,
    from: int,
    to: int,
)
    requires
        context_run(states, events),
        0 <= from <= to <= events.len(),
        states[from].registered is Some,
        forall|k: int| from <= k < to ==> !(#[trigger] events[k] is Unregistered),
    ensures
        states[to].registered == states[from].registered,
    decreases to - from,
{
    if from < to {
        lemma_stays_registered(states, events, from, to - 1);
        assert(context_step(states[to - 1], events[to - 1], states[to]));
    }
}

/// At most one collection is registered at a time: between any two registrations
/// that succeed, one is unregistered.
pub proof fn law_one_registration_at_a_time(
    states: Seq<Context>,
    events: Seq<RegistrationEvent>,
    i: int,
    j: int,
)
    requires
        context_run(states, events),
        0 <= i < j < events.len(),
        events[i] is Registered,
        events[j] is Registered,
    ensures
        exists|k: int| i < k < j && #[trigger] events[k] is Unregistered,
{
    assert(context_step(states[i], events[i], states[i + 1]));
    assert(context_step(states[j], events[j], states[j + 1]));
    if forall|k: int| i < k < j ==> !(#[trigger] events[k] is Unregistered) {
        lemma_stays_registered(states, events, i + 1, j);
    }
}

/// A request is granted exactly where the change that it asks for is possible: a
/// collection may be registered exactly while none is, and unregistered exactly while it is
/// the one that is registered and, if it is a registry, none of its operations is in
/// flight. Where a registry cannot be unregistered although it is registered, its buffers
/// are in use.
pub proof fn law_requests_granted_where_possible(context: Context, collection: Collection)
    ensures
        context.register_answer() is Ok <==> exists|after: Context| #[trigger]
            context_step(context, RegistrationEvent::Registered(collection), after),
        context.unregister_answer(collection) is Ok <==> exists|after: Context| #[trigger]
            context_step(context, RegistrationEvent::Unregistered(collection), after),
        context.register_answer() is Ok <==> context.registered is None,
        context.unregister_answer(collection) is Ok ==> context.registered == Some(collection),
        context.registered == Some(collection) && context.in_flight == 0
            ==> context.unregister_answer(collection) is Ok,
        context.registered == Some(Collection::Pool) ==> context.unregister_answer(
            Collection::Pool,
        ) is Ok,
        context.unregister_answer(collection) == Err::<(), Error>(Error::BuffersInUse)
            <==> collection is Registry && context.registered == Some(collection)
            && context.in_flight > 0,
{
    let registered = Context { registered: Some(collection), ..context };
    let unregistered = Context { registered: None, ..context };
    if context.register_answer() is Ok {
        assert(context_step(context, RegistrationEvent::Registered(collection), registered));
    }
    if context.unregister_answer(collection) is Ok {
        assert(context_step(context, RegistrationEvent::Unregistered(collection), unregistered));
    }
}

/// While an operation on a buffer of a registry is in flight, a registry that is registered
/// stays so, and whoever wants to unregister it is told that its buffers are in use. With
/// the completion of the operation all is as before. Operations on other buffers make no
/// difference.
pub proof fn law_operation_in_flight_blocks(
    before: Context,
    user_data: UserData,
    during: Context,
    after: Context,
)
    requires
        context_step(before, RegistrationEvent::Started(user_data), during),
        context_step(during, RegistrationEvent::Finished(user_data), after),
    ensures
        after == before,
        during.registered == before.registered,
        user_data is Registry && before.registered == Some(Collection::Registry)
            ==> during.unregister_answer(Collection::Registry) == Err::<(), Error>(
            Error::BuffersInUse,
        ),
        !(user_data is Registry) ==> during == before,
{
}

/// Registering and unregistering undo each other: what is registered can be unregistered
/// again once nothing is in flight, and then something else be registered.
pub proof fn law_registration_round_trip(
    before: Context,
    collection: Collection,
    registered: Context,
    after: Context,
)
    requires
        context_step(before, RegistrationEvent::Registered(collection), registered),
        context_step(registered, RegistrationEvent::Unregistered(collection), after),
    ensures
        after == before,
        registered.register_answer() is Err,
        after.register_answer() is Ok,
{
}

/// How many operations on buffers of a registry have been submitted by `events` and
/// have not completed.
pub open spec fn pending(events: Seq<RegistrationEvent>) -> int
    decreases events.len(),
{
    if events.len() == 0 {
        0
    } else {
        pending(events.drop_last()) + (match events.last() {
            RegistrationEvent::Started(user_data) => registry_uses(user_data),
            RegistrationEvent::Finished(user_data) => -registry_uses(user_data),
            _ => 0,
        })
    }
}

proof fn lemma_in_flight(states: Seq<Context>, events: Seq<RegistrationEvent>, i: int)
    requires
        context_run(states, events),
        0 <= i <= events.len(),
    ensures
        states[i].in_flight == states[0].in_flight + pending(events.take(i)),
    decreases i,
{
    if i > 0 {
        lemma_in_flight(states, events, i - 1);
        assert(context_step(states[i - 1], events[i - 1], states[i - 1 + 1]));
        assert(events.take(i).drop_last() =~= events.take(i - 1));
    }
}

/// A registry is never unregistered while a buffer of a registry is in use by an
/// operation: by then, every such operation that was submitted has completed.
pub proof fn law_no_unregister_in_flight(
    states: Seq<Context>,
    events: Seq<RegistrationEvent>,
    i: int,
)
    requires
        context_run(states, events),
        states[0].in_flight == 0,
        0 <= i < events.len(),
        events[i] == RegistrationEvent::Unregistered(Collection::Registry),
    ensures
        pending(events.take(i)) == 0,
{
    lemma_in_flight(states, events, i);
    assert(context_step(states[i], events[i], states[i + 1]));
}

} // verus!
