//! Error taxonomy of the routing metadata store.
//!
//! Every error carries the offending key or bytes, so a caller can diagnose
//! a failure without re-deriving the store state.

use vstd::prelude::*;

verus! {

/// Spec-level mirror of [`Error`], used in contracts.
pub enum ErrorV {
    /// A key read back from the store does not parse under the key grammar.
    MalformedKey { key: Seq<u8> },
    /// Stored bytes under a global key fail to decode.
    InvalidCatalogValue { value: Seq<u8> },
    /// Stored bytes under a route key fail to decode.
    DecodeTableRoute { value: Seq<u8> },
    /// A route was expected (the table id resolved) but is absent.
    TableRouteNotFound { key: Seq<u8> },
}

/// Errors of the routing metadata store.
///
/// `MalformedKey`, `InvalidCatalogValue` and `DecodeTableRoute` signal
/// corrupt stored data and are never retryable; `TableRouteNotFound` signals
/// a metadata inconsistency (a table with catalog metadata but no route),
/// which is distinct from "the table does not exist".
#[derive(Debug)]
pub enum Error {
    MalformedKey { key: Vec<u8> },
    InvalidCatalogValue { value: Vec<u8> },
    DecodeTableRoute { value: Vec<u8> },
    TableRouteNotFound { key: Vec<u8> },
}

impl View for Error {
    type V = ErrorV;

    open spec fn view(&self) -> ErrorV {
        match self {
            Error::MalformedKey { key } => ErrorV::MalformedKey { key: key@ },
            Error::InvalidCatalogValue { value } => ErrorV::InvalidCatalogValue { value: value@ },
            Error::DecodeTableRoute { value } => ErrorV::DecodeTableRoute { value: value@ },
            Error::TableRouteNotFound { key } => ErrorV::TableRouteNotFound { key: key@ },
        }
    }
}

} // verus!
