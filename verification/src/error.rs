//! The closed set of error kinds that catalog and index operations report.

use vstd::prelude::*;

verus! {

/// Everything that can go wrong in the catalog core.
///
/// - `NotFound`: the requested index name is absent from the catalog,
///   including races where it vanished between a check and its use.
/// - `AlreadyExists`: a registration collided with a present entry.
/// - `Unavailable`: the underlying index resource was closed concurrently.
/// - `Corrupt`: segment metadata could not be read as a valid layout.
/// - `Internal`: lock poisoning or an unexpected invariant violation;
///   the catalog stays usable for subsequent calls.
#[derive(Clone, Copy, Debug, PartialEq, Eq, Structural)]
pub enum Error {
    NotFound,
    AlreadyExists,
    Unavailable,
    Corrupt,
    Internal,
}

impl Error {
    /// A short stable label for the error kind, for boundary layers to log
    /// or map onto a wire status.
    pub fn label(&self) -> (r: &'static str)
        ensures
            r@ == self.spec_label(),
    {
        match self {
            Error::NotFound => "not_found",
            Error::AlreadyExists => "already_exists",
            Error::Unavailable => "unavailable",
            Error::Corrupt => "corrupt",
            Error::Internal => "internal",
        }
    }

    /// What `label` returns for each kind.
    pub open spec fn spec_label(self) -> Seq<char> {
        match self {
            Error::NotFound => "not_found"@,
            Error::AlreadyExists => "already_exists"@,
            Error::Unavailable => "unavailable"@,
            Error::Corrupt => "corrupt"@,
            Error::Internal => "internal"@,
        }
    }
}

} // verus!
