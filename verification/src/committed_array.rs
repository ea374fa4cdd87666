//! Committed array: a mailbox for one byte message, handed whole from a
//! producer to a consumer.
//!
//! Use `try_commit` to save an array in the committed array and `try_take`
//! to retrieve the value and reset it; a commit while a message waits, and
//! a take while none does, both fail without touching the contents.

use vstd::prelude::*;
use vstd::slice::slice_to_vec;

verus! {

/// The most bytes one committed message can carry.
pub const COMMITTED_ARRAY_CAPACITY: usize = 256;

/// Errors of the committed array.
#[derive(Debug, Clone, Copy, PartialEq, Eq, Structural)]
pub enum CommittedArrayError {
    /// The committed array already holds data that was not yet taken.
    Busy,
    /// The input was larger than the committed array's capacity.
    InputTooBig,
    /// The output buffer cannot hold the data in the committed array.
    OutputBufferTooSmall,
}

/// A mailbox holding at most one byte message at a time.
pub struct CommittedArray {
    full: bool,
    data: Vec<u8>,
}

impl CommittedArray {
    /// Whether a message waits to be taken.
    pub closed spec fn spec_full(self) -> bool {
        self.full
    }

    /// The waiting message.
    pub closed spec fn spec_data(self) -> Seq<u8> {
        self.data@
    }

    /// A waiting message always fits the capacity.
    pub open spec fn wf(self) -> bool {
        self.spec_data().len() <= COMMITTED_ARRAY_CAPACITY
    }

    /// Creates a new committed array
    pub fn new() -> (r: CommittedArray)
        ensures
            r.wf(),
            !r.spec_full(),
    {
        CommittedArray { full: false, data: Vec::new() }
    }

    /// Copies the data from the given slice into the committed array.
    ///
    /// Returns an error if the committed array already has data stored in it.
    pub fn try_commit(&mut self, data: &[u8]) -> (r: Result<(), CommittedArrayError>)
        requires
            old(self).wf(),
        ensures
            final(self).wf(),
            if data@.len() > COMMITTED_ARRAY_CAPACITY {
                &&& r == Err::<(), CommittedArrayError>(CommittedArrayError::InputTooBig)
                &&& *final(self) == *old(self)
            } else if old(self).spec_full() {
                &&& r == Err::<(), CommittedArrayError>(CommittedArrayError::Busy)
                &&& *final(self) == *old(self)
            } else {
                &&& r is Ok
                &&& final(self).spec_full()
                &&& final(self).spec_data() == data@
            },
    {
        if data.len() > COMMITTED_ARRAY_CAPACITY {
            return Err(CommittedArrayError::InputTooBig);
        }
        if self.full {
            return Err(CommittedArrayError::Busy);
        }
        self.data = slice_to_vec(data);
        self.full = true;
        Ok(())
    }

    /// Retrieves the data from the committed array and resets it.
    ///
    /// Returns an error if the committed array does not have any data, or
    /// if the caller's buffer capacity `buf_len` cannot hold the data —
    /// the message then stays committed.
    pub fn try_take(&mut self, buf_len: usize) -> (r: Result<Vec<u8>, CommittedArrayError>)
        requires
            old(self).wf(),
        ensures
            final(self).wf(),
            if !old(self).spec_full() {
                &&& r == Err::<Vec<u8>, CommittedArrayError>(CommittedArrayError::Busy)
                &&& *final(self) == *old(self)
            } else if old(self).spec_data().len() > buf_len {
                &&& r == Err::<Vec<u8>, CommittedArrayError>(
                    CommittedArrayError::OutputBufferTooSmall,
                )
                &&& *final(self) == *old(self)
            } else {
                &&& (r matches Ok(out) && out@ == old(self).spec_data())
                &&& !final(self).spec_full()
            },
    {
        if !self.full {
            return Err(CommittedArrayError::Busy);
        }
        if self.data.len() > buf_len {
            return Err(CommittedArrayError::OutputBufferTooSmall);
        }
        let mut out: Vec<u8> = Vec::new();
        core::mem::swap(&mut out, &mut self.data);
        self.full = false;
        Ok(out)
    }
}

} // verus!
