//! What every data block of an identity container offers.

use crate::data_type::DataType;
use crate::error::SqrlError;
use std::collections::VecDeque;
use vstd::prelude::*;

verus! {

/// A block with a kind, a declared length and a fixed binary layout. The
/// container writes the length and the kind in front of the body; the block
/// reads and writes the body.
pub trait WritableDataBlock: Sized {
    /// The kind of the block.
    fn get_type(&self) -> DataType;

    /// The declared length of the block.
    fn len(&self) -> u16;

    /// Reads the body of a block from the front of `binary`.
    fn from_binary(binary: &mut VecDeque<u8>) -> Result<Self, SqrlError>;

    /// Appends the body of the block to `output`.
    fn to_binary_inner(&self, output: &mut Vec<u8>) -> Result<(), SqrlError>;
}

} // verus!
