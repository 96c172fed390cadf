//! The kinds of data block that an identity container holds.

use crate::error::SqrlError;
use crate::wire::{put_u16, u16_le};
use vstd::prelude::*;

verus! {

/// The kind of a data block, written in front of the block as a two-byte tag.
#[derive(Clone, Copy, Debug, PartialEq, Eq, Structural)]
pub enum DataType {
    /// The identity keys, protected by the user's password.
    UserAccess,
    /// The identity unlock key, protected by the rescue code.
    RescueCode,
    /// Identity unlock keys of earlier identities.
    PreviousIdentity,
}

impl DataType {
    /// The number that stands for this kind on the wire.
    pub open spec fn tag(self) -> u16 {
        match self {
            DataType::UserAccess => 1,
            DataType::RescueCode => 2,
            DataType::PreviousIdentity => 3,
        }
    }

    /// The two bytes that stand for this kind on the wire.
    pub open spec fn encoded(self) -> Seq<u8> {
        u16_le(self.tag())
    }

    /// Appends the tag of this kind, least significant byte first.
    pub fn to_binary(&self, output: &mut Vec<u8>) -> (result: Result<(), SqrlError>)
        ensures
            result is Ok,
            final(output)@ == old(output)@ + self.encoded(),
    {
        let tag: u16 = match self {
            DataType::UserAccess => 1,
            DataType::RescueCode => 2,
            DataType::PreviousIdentity => 3,
        };
        put_u16(output, tag);
        Ok(())
    }
}

} // verus!
