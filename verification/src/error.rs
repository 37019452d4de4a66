//! Domain error kinds and their mapping to the generic error surface of the
//! hosting environment.

use vstd::prelude::*;

verus! {

/// Domain errors of the lookup table program. The order of the variants is
/// the ABI: each maps to the custom error code equal to its position.
#[derive(Debug, Clone, Copy, PartialEq, Eq, Structural)]
pub enum AddressLookupError {
    /// Attempted to lookup addresses from a table that does not exist
    LookupTableAccountNotFound,
    /// Attempted to lookup addresses from an account owned by the wrong program
    InvalidAccountOwner,
    /// Attempted to lookup addresses from an invalid account
    InvalidAccountData,
    /// Address lookup contains an invalid index
    InvalidLookupIndex,
    /// Address lookup is immutable
    LookupTableImmutable,
    /// Incorrect address lookup authority provided
    IncorrectAuthority,
    /// Failed to serialize address lookup table
    FailedToSerialize,
    /// Failed to deserialize address lookup table
    FailedToDeserialize,
}

/// The custom error code a domain error is reported under: its position in
/// the declaration order.
pub open spec fn spec_error_code(e: AddressLookupError) -> u32 {
    match e {
        AddressLookupError::LookupTableAccountNotFound => 0,
        AddressLookupError::InvalidAccountOwner => 1,
        AddressLookupError::InvalidAccountData => 2,
        AddressLookupError::InvalidLookupIndex => 3,
        AddressLookupError::LookupTableImmutable => 4,
        AddressLookupError::IncorrectAuthority => 5,
        AddressLookupError::FailedToSerialize => 6,
        AddressLookupError::FailedToDeserialize => 7,
    }
}

impl AddressLookupError {
    /// The custom error code this error is reported under.
    pub fn error_code(&self) -> (r: u32)
        ensures
            r == spec_error_code(*self),
    {
        match self {
            AddressLookupError::LookupTableAccountNotFound => 0,
            AddressLookupError::InvalidAccountOwner => 1,
            AddressLookupError::InvalidAccountData => 2,
            AddressLookupError::InvalidLookupIndex => 3,
            AddressLookupError::LookupTableImmutable => 4,
            AddressLookupError::IncorrectAuthority => 5,
            AddressLookupError::FailedToSerialize => 6,
            AddressLookupError::FailedToDeserialize => 7,
        }
    }
}

/// The generic error surface of the hosting environment, as far as this
/// program uses it. Every instruction failure is reported as one of these.
#[derive(Debug, Clone, Copy, PartialEq, Eq, Structural)]
pub enum ProgramFailure {
    /// An argument account does not satisfy an operation's preconditions.
    InvalidArgument,
    /// The instruction payload, or a value it carries, is unacceptable.
    InvalidInstructionData,
    /// An account's data cannot be read as what the operation expects.
    InvalidAccountData,
    /// The target of a creation already holds a valid table.
    AccountAlreadyInitialized,
    /// Fewer accounts were supplied than the operation needs.
    NotEnoughAccountKeys,
    /// A required authorizing signature is missing.
    MissingRequiredSignature,
    /// The table account is owned by another program.
    InvalidAccountOwner,
    /// Length or lamport arithmetic overflowed.
    ArithmeticOverflow,
    /// No valid address can be derived from the given seeds.
    InvalidSeeds,
    /// The funding account cannot cover a required lamport transfer.
    InsufficientFunds,
    /// A domain error, reported under its custom error code.
    Lookup(AddressLookupError),
}

} // verus!
