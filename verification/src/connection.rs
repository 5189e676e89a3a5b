//! Member handles: the full-duplex `Connection` and the send-only `Addr`.

use vstd::prelude::*;
use crate::error::Error;
use crate::message::{Message, MessageKey, PayloadKey};
use crate::name::{BusName, Event, EventId, EventKey};
use crate::registry::{
    consumed, declared_now, delivered, fanned_out, removed, subscribed_now, Registry,
};

verus! {

/// The spec-level identity of a handle: the member name it speaks for
/// and the delivery channel it was issued with.
pub ghost struct HandleKey {
    pub name: Seq<char>,
    pub chan: u64,
}

/// The full-duplex handle a registered member holds: it sends,
/// broadcasts, subscribes, and receives through the registry, and it
/// releases its registry slot when closed.
///
/// A `Connection` is obtained from a successful `Registry::register`;
/// it carries the member's name and the channel the registry issued.
#[derive(Debug)]
pub struct Connection {
    name: BusName,
    chan: u64,
}

impl View for Connection {
    type V = HandleKey;

    closed spec fn view(&self) -> HandleKey {
        HandleKey { name: self.name@, chan: self.chan }
    }
}

/// A send-only handle to one named member, for callers that are not
/// themselves bus members. It caches the channel it was issued with,
/// so it can go stale once the target unregisters.
#[derive(Debug)]
pub struct Addr {
    name: BusName,
    chan: u64,
}

impl View for Addr {
    type V = HandleKey;

    closed spec fn view(&self) -> HandleKey {
        HandleKey { name: self.name@, chan: self.chan }
    }
}

impl Connection {
    /// Wraps a member name and its issued channel as a handle.
    pub fn new(name: BusName, chan: u64) -> (r: Connection)
        ensures
            r@.name == name@,
            r@.chan == chan,
    {
        Connection { name, chan }
    }

    /// The name this connection is registered under.
    pub fn name(&self) -> (r: &BusName)
        ensures
            r@ == self@.name,
    {
        &self.name
    }
}

impl Addr {
    /// Wraps a target name and the channel it was resolved to.
    pub fn new(name: BusName, chan: u64) -> (r: Addr)
        ensures
            r@.name == name@,
            r@.chan == chan,
    {
        Addr { name, chan }
    }

    /// The name this handle targets.
    pub fn name(&self) -> (r: &BusName)
        ensures
            r@ == self@.name,
    {
        &self.name
    }
}

impl Connection {
    /// Sends a typed message to the member named by `destination`:
    /// `data` is the encoding of a typed value and `key` the decode
    /// key the receiver dispatches on.
    ///
    /// Fails with `InvalidName` when `destination` is malformed, and
    /// with `UnknownRecipient` when no member is registered under it;
    /// otherwise the message joins the back of the destination's queue.
    pub fn send(
        &self,
        registry: &mut Registry,
        destination: String,
        key: String,
        data: Vec<u8>,
    ) -> (r: Result<(), Error>)
        requires
            old(registry).wf(),
        ensures
            final(registry).wf(),
            destination@.len() == 0 ==> r is Err && r->Err_0 == Error::InvalidName
                && *final(registry) == *old(registry),
            destination@.len() > 0 && !old(registry).registered(destination@) ==> r is Err
                && r->Err_0 == Error::UnknownRecipient && *final(registry) == *old(registry),
            destination@.len() > 0 && old(registry).registered(destination@) ==> r is Ok
                && delivered(
                *old(registry),
                *final(registry),
                destination@,
                (MessageKey {
                    destination: Some(destination@),
                    payload: PayloadKey::Typed { key: key@, data: data@ },
                }),
            ),
    {
        let name = match BusName::try_new(destination) {
            Ok(n) => n,
            Err(e) => {
                return Err(e);
            },
        };
        let message = Message::new(Some(name), key, data);
        registry.send(message)
    }

    /// Sends a raw message to the member named by `destination`, for
    /// callers that already hold bytes and want no typed encoding step.
    ///
    /// Fails exactly as `send` does.
    pub fn send_raw(&self, registry: &mut Registry, destination: String, data: Vec<u8>) -> (r:
        Result<(), Error>)
        requires
            old(registry).wf(),
        ensures
            final(registry).wf(),
            destination@.len() == 0 ==> r is Err && r->Err_0 == Error::InvalidName
                && *final(registry) == *old(registry),
            destination@.len() > 0 && !old(registry).registered(destination@) ==> r is Err
                && r->Err_0 == Error::UnknownRecipient && *final(registry) == *old(registry),
            destination@.len() > 0 && old(registry).registered(destination@) ==> r is Ok
                && delivered(
                *old(registry),
                *final(registry),
                destination@,
                (MessageKey {
                    destination: Some(destination@),
                    payload: PayloadKey::Raw { data: data@ },
                }),
            ),
    {
        let name = match BusName::try_new(destination) {
            Ok(n) => n,
            Err(e) => {
                return Err(e);
            },
        };
        let message = Message::new_raw(Some(name), data);
        registry.send(message)
    }

    /// Declares that this connection's name publishes the event `id`.
    /// Idempotent; fails with `UnknownMember` when this connection's
    /// name is no longer registered.
    pub fn register_event(&self, registry: &mut Registry, id: EventId) -> (r: Result<(), Error>)
        requires
            old(registry).wf(),
        ensures
            final(registry).wf(),
            ({
                let ek = EventKey { publisher: self@.name, id: id@ };
                &&& !old(registry).registered(self@.name) ==> r is Err && r->Err_0
                    == Error::UnknownMember && *final(registry) == *old(registry)
                &&& old(registry).registered(self@.name) && old(registry).declared(ek) ==> r is Ok
                    && *final(registry) == *old(registry)
                &&& old(registry).registered(self@.name) && !old(registry).declared(ek) ==> r is Ok
                    && declared_now(*old(registry), *final(registry), ek)
            }),
    {
        let event = Event::new(self.name.clone(), id);
        registry.register_event(event)
    }

    /// Adds this connection's name to the subscriber set of the event
    /// `id` published by `publisher`. The publisher need not be
    /// registered yet; subscribing twice is a no-op, not an error.
    ///
    /// Fails with `InvalidName` when `publisher` is malformed, and with
    /// `UnknownMember` when this connection's own name is no longer
    /// registered.
    pub fn subscribe(&self, registry: &mut Registry, publisher: String, id: EventId) -> (r: Result<
        (),
        Error,
    >)
        requires
            old(registry).wf(),
        ensures
            final(registry).wf(),
            ({
                let ek = EventKey { publisher: publisher@, id: id@ };
                &&& publisher@.len() == 0 ==> r is Err && r->Err_0 == Error::InvalidName
                    && *final(registry) == *old(registry)
                &&& publisher@.len() > 0 && !old(registry).registered(self@.name) ==> r is Err
                    && r->Err_0 == Error::UnknownMember && *final(registry) == *old(registry)
                &&& publisher@.len() > 0 && old(registry).registered(self@.name) && old(
                    registry,
                ).subscribed(ek, self@.name) ==> r is Ok && *final(registry) == *old(registry)
                &&& publisher@.len() > 0 && old(registry).registered(self@.name) && !old(
                    registry,
                ).subscribed(ek, self@.name) ==> r is Ok && subscribed_now(
                    *old(registry),
                    *final(registry),
                    ek,
                    self@.name,
                )
            }),
    {
        let pname = match BusName::try_new(publisher) {
            Ok(n) => n,
            Err(e) => {
                return Err(e);
            },
        };
        let event = Event::new(pname, id);
        registry.subscribe(&self.name, event)
    }

    /// Broadcasts a typed message under the event `id` published by
    /// this connection's name: every current subscriber's queue gains
    /// its own copy of the message, with no destination set.
    pub fn broadcast(&self, registry: &mut Registry, id: EventId, key: String, data: Vec<u8>) -> (r:
        Result<(), Error>)
        requires
            old(registry).wf(),
        ensures
            final(registry).wf(),
            r is Ok,
            fanned_out(
                *old(registry),
                *final(registry),
                (EventKey { publisher: self@.name, id: id@ }),
                (MessageKey {
                    destination: None,
                    payload: PayloadKey::Typed { key: key@, data: data@ },
                }),
            ),
    {
        let message = Message::new(None, key, data);
        let event = Event::new(self.name.clone(), id);
        registry.broadcast(&event, message)
    }

    /// Yields the next message addressed to this connection's name, in
    /// the order the registry enqueued them, or nothing when no message
    /// is pending or this connection's registration is gone.
    pub fn next_message(&self, registry: &mut Registry) -> (r: Option<Message>)
        requires
            old(registry).wf(),
        ensures
            final(registry).wf(),
            ({
                let live = old(registry).registered(self@.name) && old(registry).chan_of(self@.name)
                    == self@.chan;
                &&& (!live || old(registry).queue_of(self@.name).len() == 0) ==> r is None
                    && *final(registry) == *old(registry)
                &&& (live && old(registry).queue_of(self@.name).len() > 0) ==> r is Some && r->0@
                    == old(registry).queue_of(self@.name)[0] && consumed(
                    *old(registry),
                    *final(registry),
                    self@.name,
                )
            }),
    {
        registry.receive(&self.name, self.chan)
    }

    /// Releases this connection's registry slot: the directory entry
    /// is removed and the name is stripped from every subscriber set.
    /// Consuming the handle makes teardown infallible — if the name is
    /// already gone, nothing is left to do.
    pub fn close(self, registry: &mut Registry)
        requires
            old(registry).wf(),
        ensures
            final(registry).wf(),
            !final(registry).registered(self@.name),
            old(registry).registered(self@.name) ==> removed(
                *old(registry),
                *final(registry),
                self@.name,
            ),
            !old(registry).registered(self@.name) ==> *final(registry) == *old(registry),
    {
        let _ = registry.unregister(&self.name);
    }
}

impl Addr {
    /// Pushes `data`, wrapped as a raw message addressed to the held
    /// name, onto the channel this handle cached. Best effort and
    /// non-suspending: when the target has unregistered since the
    /// handle was made (or a new member reuses the name on a fresh
    /// channel), the send fails with `DeliveryFailed` so the caller can
    /// re-resolve, rather than vanishing into a queue nobody drains.
    pub fn send(&self, registry: &mut Registry, data: Vec<u8>) -> (r: Result<(), Error>)
        requires
            old(registry).wf(),
        ensures
            final(registry).wf(),
            ({
                let live = old(registry).registered(self@.name) && old(registry).chan_of(self@.name)
                    == self@.chan;
                &&& !live ==> r is Err && r->Err_0 == Error::DeliveryFailed && *final(registry)
                    == *old(registry)
                &&& live ==> r is Ok && delivered(
                    *old(registry),
                    *final(registry),
                    self@.name,
                    (MessageKey {
                        destination: Some(self@.name),
                        payload: PayloadKey::Raw { data: data@ },
                    }),
                )
            }),
    {
        let message = Message::new_raw(Some(self.name.clone()), data);
        registry.offer(&self.name, self.chan, message)
    }
}

} // verus!
