//! The error taxonomy of the configuration and assignment APIs.
//!
//! Every error is terminal for the enclosing operation: configuration and
//! synthesis never retry, and nothing is swallowed.

use vstd::prelude::*;

verus! {

/// What can go wrong while configuring a circuit or assigning a witness.
#[derive(Clone, Copy, Debug, PartialEq, Eq, Structural)]
pub enum Error {
    /// Invalid use of the configuration API after the shape was frozen by
    /// gate registration, or a structurally invalid gate definition.
    ConfigurationError,
    /// A copy constraint was requested on a column never marked
    /// equality-eligible.
    EqualityNotEnabled,
    /// A region operation was attempted outside an open region's lifetime.
    RegionClosed,
    /// A cell outside the declared columns and rows of the table was named.
    ColumnMismatch,
    /// A cell that already holds a value was re-assigned a different one;
    /// cells are write-once.
    AlreadyAssigned,
    /// A concrete witness value was required but only the unknown
    /// placeholder was available.
    SynthesisError,
}

impl Error {
    /// A short diagnostic name for the error.
    pub fn describe(&self) -> &'static str {
        match self {
            Error::ConfigurationError => "configuration frozen or gate invalid",
            Error::EqualityNotEnabled => "equality not enabled on column",
            Error::RegionClosed => "region closed",
            Error::ColumnMismatch => "cell outside the table",
            Error::AlreadyAssigned => "cell already assigned",
            Error::SynthesisError => "witness value unknown",
        }
    }
}

} // verus!
