//! The closed set of failures an operation can end in.

use vstd::prelude::*;

verus! {

/// Why an operation was refused. Every failure leaves all storage untouched.
#[derive(Clone, Copy, Debug, PartialEq, Eq, Structural)]
pub enum LedgerError {
    /// The instruction bytes do not decode to an operation.
    MalformedInstruction,
    /// The instruction names more storage handles than were supplied.
    NotEnoughAccountKeys,
    /// The party that must have signed the request did not.
    Unauthorized,
    /// The target handle does not permit writing.
    NonWritableTarget,
    /// The stored bytes are not the encoding of a record.
    MalformedRecord,
    /// A deposit would take the balance past the 32-bit range.
    ArithmeticOverflow,
    /// A withdrawal asks for more than the balance holds.
    InsufficientFunds,
    /// The encoded record does not fit the buffer, or its history does not
    /// fit the 32-bit length prefix.
    CapacityExceeded,
}

} // verus!
