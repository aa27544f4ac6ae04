//! Identifiers of programs, messages and uploaded code.
//!
//! Every identifier is a 256-bit number. It is held as two halves, so that two identifiers are
//! equal exactly when both halves are.
use vstd::prelude::*;
use vstd::std_specs::convert::FromSpecImpl;

verus! {

/// Identifier of a program or of a user: whoever can send and receive messages.
#[derive(Clone, Copy, PartialEq, Eq, PartialOrd, Ord, Hash, Debug, Structural)]
pub struct ProgramId {
    /// The 128 least significant bits.
    pub low: u128,
    /// The 128 most significant bits.
    pub high: u128,
}

impl ProgramId {
    /// The identifier as an ordered key.
    pub open spec fn key(self) -> (u128, u128) {
        (self.low, self.high)
    }

    /// The identifier as an ordered key.
    pub(crate) fn to_key(self) -> (key: (u128, u128))
        ensures
            key == self.key(),
    {
        (self.low, self.high)
    }
}

impl From<u64> for ProgramId {
    /// The identifier with the given number.
    fn from(number: u64) -> (id: Self) {
        ProgramId { low: number as u128, high: 0 }
    }
}

impl FromSpecImpl<u64> for ProgramId {
    open spec fn obeys_from_spec() -> bool {
        true
    }

    open spec fn from_spec(number: u64) -> Self {
        ProgramId { low: number as u128, high: 0 }
    }
}

/// Identifier of a message.
#[derive(Clone, Copy, PartialEq, Eq, PartialOrd, Ord, Hash, Debug, Structural)]
pub struct MessageId {
    /// The 128 least significant bits.
    pub low: u128,
    /// The 128 most significant bits.
    pub high: u128,
}

impl MessageId {
    /// The identifier as an ordered key.
    pub open spec fn key(self) -> (u128, u128) {
        (self.low, self.high)
    }

    /// The identifier as an ordered key.
    pub(crate) fn to_key(self) -> (key: (u128, u128))
        ensures
            key == self.key(),
    {
        (self.low, self.high)
    }
}

impl From<u64> for MessageId {
    /// The identifier with the given number.
    fn from(number: u64) -> (id: Self) {
        MessageId { low: number as u128, high: 0 }
    }
}

impl FromSpecImpl<u64> for MessageId {
    open spec fn obeys_from_spec() -> bool {
        true
    }

    open spec fn from_spec(number: u64) -> Self {
        MessageId { low: number as u128, high: 0 }
    }
}

/// Hash of the code of a program.
#[derive(Clone, Copy, PartialEq, Eq, PartialOrd, Ord, Hash, Debug, Structural)]
pub struct CodeHash {
    /// The 128 least significant bits.
    pub low: u128,
    /// The 128 most significant bits.
    pub high: u128,
}

} // verus!
