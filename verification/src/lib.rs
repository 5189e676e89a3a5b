//! A verified in-process message bus: a registry maps member names to
//! delivery queues, members exchange point-to-point messages through
//! `Connection` handles, and named events fan broadcasts out to their
//! current subscribers.

pub mod connection;
pub mod error;
pub mod laws;
pub mod message;
pub mod name;
pub mod peer;
pub mod registry;
pub mod writer;

pub use connection::{Addr, Connection};
pub use error::Error;
pub use message::{Message, MessagePayload};
pub use name::{BusName, Event, EventId};
pub use peer::{Peer, PeerSet};
pub use registry::Registry;
pub use writer::{FrameInfo, Writer, WriterAction};
