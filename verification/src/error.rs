//! The failures a block transform can end in.

use vstd::prelude::*;

verus! {

/// What is wrong with a block that cannot be trusted.
#[derive(Clone, Copy, Debug, PartialEq, Eq, Structural)]
pub enum IntegrityFault {
    /// A confirmed transaction carries no transaction.
    MissingTransaction,
    /// A transaction carries no message.
    MissingMessage,
    /// A confirmed transaction carries no status metadata, and so no table
    /// of loaded addresses.
    MissingMeta,
    /// A selected instruction names a program beyond the resolved accounts.
    ProgramIndexOutOfRange,
    /// A selected instruction references an account beyond the resolved
    /// accounts.
    AccountIndexOutOfRange,
    /// A transaction that is to be emitted has no signature to be known by.
    NoSignature,
}

/// Why a block produced no output.
#[derive(Clone, Copy, Debug, PartialEq, Eq, Structural)]
pub enum TransformError {
    /// The filter parameters could not be decoded into the expected shape.
    Parameter,
    /// The block is malformed.
    InputIntegrity(IntegrityFault),
}

impl IntegrityFault {
    /// The text that `describe` gives for this fault.
    pub open spec fn description(self) -> Seq<char> {
        match self {
            IntegrityFault::MissingTransaction => "confirmed transaction without a transaction"@,
            IntegrityFault::MissingMessage => "transaction without a message"@,
            IntegrityFault::MissingMeta => "confirmed transaction without status metadata"@,
            IntegrityFault::ProgramIndexOutOfRange => "program id index beyond the resolved accounts"@,
            IntegrityFault::AccountIndexOutOfRange => "account index beyond the resolved accounts"@,
            IntegrityFault::NoSignature => "transaction without a signature"@,
        }
    }

    /// A short description for an operator.
    pub fn describe(&self) -> (text: &'static str)
        ensures
            text@ == self.description(),
    {
        match self {
            IntegrityFault::MissingTransaction => "confirmed transaction without a transaction",
            IntegrityFault::MissingMessage => "transaction without a message",
            IntegrityFault::MissingMeta => "confirmed transaction without status metadata",
            IntegrityFault::ProgramIndexOutOfRange => "program id index beyond the resolved accounts",
            IntegrityFault::AccountIndexOutOfRange => "account index beyond the resolved accounts",
            IntegrityFault::NoSignature => "transaction without a signature",
        }
    }
}

impl TransformError {
    /// The text that `describe` gives for this error.
    pub open spec fn description(self) -> Seq<char> {
        match self {
            TransformError::Parameter => "Unexpected error while parsing parameters"@,
            TransformError::InputIntegrity(fault) => fault.description(),
        }
    }

    /// A short description for an operator.
    pub fn describe(&self) -> (text: &'static str)
        ensures
            text@ == self.description(),
    {
        match self {
            TransformError::Parameter => "Unexpected error while parsing parameters",
            TransformError::InputIntegrity(fault) => fault.describe(),
        }
    }
}

} // verus!
