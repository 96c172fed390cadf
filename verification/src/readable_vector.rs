//! Reading fixed-width fields from the front of a byte queue.

use crate::error::{outcome, SqrlError};
use crate::wire::{get_u32, u32_from_le};
use std::collections::VecDeque;
use vstd::prelude::*;

verus! {

/// What a read of `size` bytes from a queue holding `before` returns, and what
/// the queue holds afterwards: the first `size` bytes leave the queue, or, if
/// there are fewer, the read fails and the queue keeps all of them.
pub open spec fn read_outcome(before: Seq<u8>, size: nat) -> (Result<Seq<u8>, SqrlError>, Seq<u8>) {
    if before.len() >= size {
        (Ok(before.take(size as int)), before.skip(size as int))
    } else {
        (Err(SqrlError::StructuralParseError), before)
    }
}

/// A queue of bytes that is consumed field by field from its front.
pub trait ReadableVector {
    /// Takes the next `size` bytes.
    fn next_sub_array(&mut self, size: usize) -> Result<Vec<u8>, SqrlError>;

    /// Takes the next byte.
    fn next_u8(&mut self) -> Result<u8, SqrlError>;

    /// Takes the next four bytes as a little-endian number.
    fn next_u32(&mut self) -> Result<u32, SqrlError>;
}

impl ReadableVector for VecDeque<u8> {
    fn next_sub_array(&mut self, size: usize) -> (result: Result<Vec<u8>, SqrlError>)
        ensures
            outcome(result) == read_outcome(old(self)@, size as nat).0,
            final(self)@ == read_outcome(old(self)@, size as nat).1,
    {
        if self.len() < size {
            return Err(SqrlError::StructuralParseError);
        }
        let mut bytes: Vec<u8> = Vec::new();
        let mut i: usize = 0;
        while i < size
            invariant
                i <= size <= old(self)@.len(),
                bytes@ == old(self)@.take(i as int),
                self@ == old(self)@.skip(i as int),
            decreases size - i,
        {
            let byte = self.pop_front();
            bytes.push(byte.unwrap());
            i += 1;
        }
        Ok(bytes)
    }

    fn next_u8(&mut self) -> (result: Result<u8, SqrlError>)
        ensures
            result == if old(self)@.len() >= 1 {
                Ok::<u8, SqrlError>(old(self)@[0])
            } else {
                Err(SqrlError::StructuralParseError)
            },
            final(self)@ == read_outcome(old(self)@, 1).1,
    {
        match self.pop_front() {
            Some(byte) => Ok(byte),
            None => Err(SqrlError::StructuralParseError),
        }
    }

    fn next_u32(&mut self) -> (result: Result<u32, SqrlError>)
        ensures
            result == if old(self)@.len() >= 4 {
                Ok::<u32, SqrlError>(u32_from_le(old(self)@.take(4)) as u32)
            } else {
                Err(SqrlError::StructuralParseError)
            },
            final(self)@ == read_outcome(old(self)@, 4).1,
    {
        let bytes: [u8; 4] = next_array(self)?;
        Ok(get_u32(&bytes))
    }
}

/// Takes the next `N` bytes as an array.
pub fn next_array<const N: usize>(binary: &mut VecDeque<u8>) -> (result: Result<[u8; N], SqrlError>)
    ensures
        outcome(result) == read_outcome(old(binary)@, N as nat).0,
        final(binary)@ == read_outcome(old(binary)@, N as nat).1,
{
    let taken = binary.next_sub_array(N)?;
    let mut bytes = [0u8; N];
    let mut i: usize = 0;
    while i < N
        invariant
            i <= N,
            taken@.len() == N,
            forall|j: int| 0 <= j < i ==> bytes@[j] == taken@[j],
        decreases N - i,
    {
        bytes[i] = taken[i];
        i += 1;
    }
    assert(bytes@ =~= taken@);
    Ok(bytes)
}

} // verus!
