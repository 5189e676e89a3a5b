//! The bus error taxonomy.

use vstd::prelude::*;

verus! {

/// Everything that can go wrong when talking to the bus.
#[derive(Clone, Copy, Debug, PartialEq, Eq, Structural)]
pub enum Error {
    /// A name or id could not be built from the given input.
    InvalidName,
    /// A registration collided with a live entry for the same name.
    NameInUse,
    /// An unregistration (or a subscription) named a member that is not present.
    UnknownMember,
    /// A point-to-point send named a destination that is not currently registered.
    UnknownRecipient,
    /// A best-effort delivery could not reach the target's channel.
    DeliveryFailed,
}

impl Error {
    /// A short human-readable label for the error, for callers that report it.
    pub fn describe(&self) -> (r: &'static str)
        ensures
            r@ == match *self {
                Error::InvalidName => "invalid name"@,
                Error::NameInUse => "name already in use"@,
                Error::UnknownMember => "unknown member"@,
                Error::UnknownRecipient => "unknown recipient"@,
                Error::DeliveryFailed => "delivery failed"@,
            },
    {
        match *self {
            Error::InvalidName => "invalid name",
            Error::NameInUse => "name already in use",
            Error::UnknownMember => "unknown member",
            Error::UnknownRecipient => "unknown recipient",
            Error::DeliveryFailed => "delivery failed",
        }
    }
}

} // verus!
