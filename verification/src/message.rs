//! Envelope types: the payload variants and the message envelope.

use vstd::prelude::*;
use crate::name::BusName;

verus! {

/// The spec-level payload: which variant it is and the bytes it carries.
pub ghost enum PayloadKey {
    /// Opaque bytes, decoded by the receiver on its own terms.
    Raw { data: Seq<u8> },
    /// Bytes produced by encoding a typed value, tagged with the key
    /// the receiver uses to pick a decoder.
    Typed { key: Seq<char>, data: Seq<u8> },
}

/// The spec-level envelope: optional destination plus payload.
pub ghost struct MessageKey {
    pub destination: Option<Seq<char>>,
    pub payload: PayloadKey,
}

/// A message payload: either raw bytes, or the encoding of a typed
/// value together with the decode key the receiver dispatches on.
#[derive(Debug)]
pub enum MessagePayload {
    Raw(Vec<u8>),
    Typed(String, Vec<u8>),
}

impl View for MessagePayload {
    type V = PayloadKey;

    closed spec fn view(&self) -> PayloadKey {
        match *self {
            MessagePayload::Raw(data) => PayloadKey::Raw { data: data@ },
            MessagePayload::Typed(key, data) => PayloadKey::Typed { key: key@, data: data@ },
        }
    }
}

impl MessagePayload {
    /// A duplicate of the payload, byte for byte; broadcast hands each
    /// subscriber its own copy.
    pub fn duplicate(&self) -> (r: Self)
        ensures
            r@ == self@,
    {
        match self {
            MessagePayload::Raw(data) => {
                let d = copy_bytes(data);
                proof {
                    assert(MessagePayload::Raw(d)@ == self@);
                }
                MessagePayload::Raw(d)
            },
            MessagePayload::Typed(key, data) => {
                let d = copy_bytes(data);
                let k = key.clone();
                proof {
                    assert(MessagePayload::Typed(k, d)@ == self@);
                }
                MessagePayload::Typed(k, d)
            },
        }
    }

    /// The bytes the payload carries, whichever variant it is.
    pub fn data(&self) -> (r: &Vec<u8>)
        ensures
            r@ == match self@ {
                PayloadKey::Raw { data } => data,
                PayloadKey::Typed { key: _, data } => data,
            },
    {
        match self {
            MessagePayload::Raw(data) => data,
            MessagePayload::Typed(_, data) => data,
        }
    }
}

/// A byte-for-byte copy of a byte vector.
fn copy_bytes(src: &Vec<u8>) -> (r: Vec<u8>)
    ensures
        r@ == src@,
{
    let mut out: Vec<u8> = Vec::new();
    let mut i: usize = 0;
    while i < src.len()
        invariant
            i <= src.len(),
            out@ == src@.take(i as int),
        decreases src.len() - i,
    {
        out.push(src[i]);
        i = i + 1;
        proof {
            assert(out@ =~= src@.take(i as int));
        }
    }
    proof {
        assert(out@ =~= src@);
    }
    out
}

/// A message envelope: an optional destination name (absent for a
/// broadcast payload) and the payload itself. The bus never interprets
/// the payload's contents.
#[derive(Debug)]
pub struct Message {
    destination: Option<BusName>,
    payload: MessagePayload,
}

impl View for Message {
    type V = MessageKey;

    closed spec fn view(&self) -> MessageKey {
        MessageKey {
            destination: match self.destination {
                Some(n) => Some(n@),
                None => None,
            },
            payload: self.payload@,
        }
    }
}

impl Message {
    /// Builds a typed-variant message: the encoding of a value under a
    /// decode key, optionally addressed to a destination.
    pub fn new(destination: Option<BusName>, key: String, data: Vec<u8>) -> (r: Message)
        ensures
            r@.destination == match destination {
                Some(n) => Some(n@),
                None => None::<Seq<char>>,
            },
            r@.payload == (PayloadKey::Typed { key: key@, data: data@ }),
    {
        Message { destination, payload: MessagePayload::Typed(key, data) }
    }

    /// Builds a raw-variant message around bytes the caller already has.
    pub fn new_raw(destination: Option<BusName>, data: Vec<u8>) -> (r: Message)
        ensures
            r@.destination == match destination {
                Some(n) => Some(n@),
                None => None::<Seq<char>>,
            },
            r@.payload == (PayloadKey::Raw { data: data@ }),
    {
        Message { destination, payload: MessagePayload::Raw(data) }
    }

    /// The destination, if the message is addressed point-to-point.
    pub fn destination(&self) -> (r: &Option<BusName>)
        ensures
            r is Some <==> self@.destination is Some,
            r is Some ==> r->0@ == self@.destination->0,
    {
        &self.destination
    }

    /// The payload the envelope carries.
    pub fn payload(&self) -> (r: &MessagePayload)
        ensures
            r@ == self@.payload,
    {
        &self.payload
    }

    /// A duplicate of the whole envelope; broadcast fan-out enqueues an
    /// independently owned copy per subscriber.
    pub fn duplicate(&self) -> (r: Self)
        ensures
            r@ == self@,
    {
        let destination = match &self.destination {
            Some(n) => Some(n.clone()),
            None => None,
        };
        let m = Message { destination, payload: self.payload.duplicate() };
        proof {
            assert(m@ == self@);
        }
        m
    }
}

} // verus!
