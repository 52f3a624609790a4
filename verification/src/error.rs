//! Error taxonomy of the asset store. Only two distinctions cross the
//! subsystem boundary: the caller's input was invalid (`Validation`,
//! `Decode`), or an internal failure occurred (`Io`, `Database`).

use vstd::prelude::*;

verus! {

/// The failure kinds of the asset store.
///
/// `Validation`: a malformed asset identifier or a malformed upload payload
/// prefix, rejected before any mutation. `Decode`: undecodable image bytes,
/// rejected before any mutation. `Io` and `Database` arise only in the caller
/// that performs real file and database work; they abort its transaction.
#[derive(Clone, Copy, Debug, PartialEq, Eq, Structural)]
pub enum StoreError {
    Validation,
    Decode,
    Io,
    Database,
}

impl StoreError {
    /// A short stable name for the error kind, for callers that log or map
    /// errors to response codes.
    pub fn name(&self) -> (r: &'static str)
        ensures
            r@ == self.name_spec(),
    {
        match self {
            StoreError::Validation => "validation",
            StoreError::Decode => "decode",
            StoreError::Io => "io",
            StoreError::Database => "database",
        }
    }

    /// What `name` returns for each error kind.
    pub open spec fn name_spec(self) -> Seq<char> {
        match self {
            StoreError::Validation => "validation"@,
            StoreError::Decode => "decode"@,
            StoreError::Io => "io"@,
            StoreError::Database => "database"@,
        }
    }
}

} // verus!
