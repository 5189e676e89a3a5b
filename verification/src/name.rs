//! Identity types: member names, event ids, and publisher-scoped events.

use vstd::prelude::*;
use crate::error::Error;

verus! {

/// A unique identifier for a bus member.
///
/// Built by fallible conversion from caller-supplied text; an empty
/// string is rejected, so every `BusName` is non-empty.
#[derive(Debug, Eq, Hash)]
pub struct BusName {
    text: String,
}

impl View for BusName {
    type V = Seq<char>;

    closed spec fn view(&self) -> Seq<char> {
        self.text@
    }
}

impl BusName {
    /// A name is well formed when it is non-empty.
    pub open spec fn wf(self) -> bool {
        self@.len() > 0
    }

    /// Fallible conversion from caller text: rejects the empty string
    /// with `InvalidName`, accepts everything else.
    pub fn try_new(text: String) -> (r: Result<BusName, Error>)
        ensures
            text@.len() == 0 <==> (r is Err && r->Err_0 == Error::InvalidName),
            text@.len() > 0 <==> (r is Ok && r->Ok_0@ == text@ && r->Ok_0.wf()),
    {
        if text.as_str().is_empty() {
            Err(Error::InvalidName)
        } else {
            Ok(BusName { text })
        }
    }

    /// The name as text, for callers that report or display it.
    pub fn as_text(&self) -> (r: &str)
        ensures
            r@ == self@,
    {
        self.text.as_str()
    }
}

impl Clone for BusName {
    fn clone(&self) -> (r: Self)
        ensures
            r@ == self@,
            r.wf() == self.wf(),
    {
        BusName { text: self.text.clone() }
    }
}

impl PartialEq for BusName {
    fn eq(&self, other: &Self) -> (r: bool) {
        self.text == other.text
    }
}

impl vstd::std_specs::cmp::PartialEqSpecImpl for BusName {
    open spec fn obeys_eq_spec() -> bool {
        true
    }

    open spec fn eq_spec(&self, other: &Self) -> bool {
        self@ == other@
    }
}

/// A topic identifier, meaningful only together with a publisher name.
///
/// Built by infallible conversion: any text, including the empty
/// string, is a valid event id.
#[derive(Debug, Eq, Hash)]
pub struct EventId {
    text: String,
}

impl View for EventId {
    type V = Seq<char>;

    closed spec fn view(&self) -> Seq<char> {
        self.text@
    }
}

impl EventId {
    /// Infallible conversion from caller text.
    pub fn new(text: String) -> (r: EventId)
        ensures
            r@ == text@,
    {
        EventId { text }
    }
}

impl Clone for EventId {
    fn clone(&self) -> (r: Self)
        ensures
            r@ == self@,
    {
        EventId { text: self.text.clone() }
    }
}

impl PartialEq for EventId {
    fn eq(&self, other: &Self) -> (r: bool) {
        self.text == other.text
    }
}

impl vstd::std_specs::cmp::PartialEqSpecImpl for EventId {
    open spec fn obeys_eq_spec() -> bool {
        true
    }

    open spec fn eq_spec(&self, other: &Self) -> bool {
        self@ == other@
    }
}

/// The spec-level identity of an event: the publisher's name paired
/// with the topic id. The same id under two publishers is two events.
pub ghost struct EventKey {
    pub publisher: Seq<char>,
    pub id: Seq<char>,
}

/// An event: a topic `id` scoped to the `publisher` that broadcasts it.
#[derive(Debug, Eq, Hash)]
pub struct Event {
    publisher: BusName,
    id: EventId,
}

impl View for Event {
    type V = EventKey;

    closed spec fn view(&self) -> EventKey {
        EventKey { publisher: self.publisher@, id: self.id@ }
    }
}

impl Event {
    /// Builds the event `(publisher, id)`.
    pub fn new(publisher: BusName, id: EventId) -> (r: Event)
        ensures
            r@.publisher == publisher@,
            r@.id == id@,
    {
        Event { publisher, id }
    }

    /// The publisher half of the identity.
    pub fn publisher(&self) -> (r: &BusName)
        ensures
            r@ == self@.publisher,
    {
        &self.publisher
    }
}

impl PartialEq for Event {
    fn eq(&self, other: &Self) -> (r: bool) {
        let r = self.publisher.text == other.publisher.text && self.id.text == other.id.text;
        proof {
            if r {
                assert(self@ == other@);
            }
        }
        r
    }
}

impl vstd::std_specs::cmp::PartialEqSpecImpl for Event {
    open spec fn obeys_eq_spec() -> bool {
        true
    }

    open spec fn eq_spec(&self, other: &Self) -> bool {
        self@ == other@
    }
}

impl Clone for Event {
    fn clone(&self) -> (r: Self)
        ensures
            r@ == self@,
    {
        Event { publisher: self.publisher.clone(), id: self.id.clone() }
    }
}

} // verus!
