//! The web layer's response-level error kind, and how the store's failures
//! map onto it. The outer layer only distinguishes "the caller's input was
//! invalid" from "an internal failure occurred".

use vstd::prelude::*;
use crate::error::StoreError;

verus! {

/// The outcome code a response carries.
#[derive(Debug)]
pub enum WebError {
    Success,
    InternalError { d: String },
    InvalidLogin,
    InvalidRequest,
}

impl WebError {
    /// The numeric wire code of each outcome.
    pub open spec fn code_spec(self) -> u8 {
        match self {
            WebError::Success => 0,
            WebError::InternalError { .. } => 100,
            WebError::InvalidLogin => 101,
            WebError::InvalidRequest => 102,
        }
    }

    /// The numeric wire code of each outcome.
    pub fn code(&self) -> (r: u8)
        ensures
            r == self.code_spec(),
    {
        match self {
            WebError::Success => 0,
            WebError::InternalError { .. } => 100,
            WebError::InvalidLogin => 101,
            WebError::InvalidRequest => 102,
        }
    }

    /// The response-level kind of a store failure: invalid input is the
    /// caller's fault, anything else is internal.
    pub fn from_store_error(e: &StoreError) -> (r: WebError)
        ensures
            (*e == StoreError::Validation || *e == StoreError::Decode) ==> r is InvalidRequest,
            (*e == StoreError::Io || *e == StoreError::Database) ==> r is InternalError,
    {
        match e {
            StoreError::Validation => WebError::InvalidRequest,
            StoreError::Decode => WebError::InvalidRequest,
            StoreError::Io => (WebError::InternalError { d: "io".to_owned() }),
            StoreError::Database => (WebError::InternalError { d: "database".to_owned() }),
        }
    }
}

} // verus!
