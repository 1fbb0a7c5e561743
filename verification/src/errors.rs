//! The error taxonomy shared by every operation of the library.

use vstd::prelude::*;

verus! {

/// Why an operation on a record or a slot failed.
///
/// Every fallible function of this crate states in its contract exactly
/// which variant it returns on which inputs.
#[derive(Clone, Copy, Debug, PartialEq, Eq, Structural)]
pub enum HorseError {
    /// The bytes to store do not fit into the slot's fixed capacity.
    CapacityExceeded,
    /// The bytes in hand do not parse as an encoded record.
    Malformed,
    /// A stat increment would exceed the representable range.
    Overflow,
    /// The instruction payload names no known operation.
    UnknownOperation,
    /// The record's name is longer than the record format can carry.
    NameTooLong,
    /// The target slot was handed over without write permission.
    WriteDenied,
    /// The operation needs a slot but none was supplied.
    MissingSlot,
}

} // verus!
