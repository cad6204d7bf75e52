//! Rewriting of WebAssembly canister modules for the Internet Computer:
//! execution-cost instrumentation, resource limiting and metadata handling,
//! over an in-memory model of a module.

use vstd::prelude::*;

pub mod builder;
pub mod check_endpoints;
pub mod counting;
pub mod cycles;
pub mod info;
pub mod instrumentation;
pub mod ir;
pub mod limit_resource;
pub mod machine;
pub mod metadata;
pub mod module;
pub mod redirect;
pub mod replies;
pub mod search;
pub mod shrink;
pub mod strings;
pub mod tracing;
pub mod utils;

verus! {

/// What can go wrong outside the passes themselves, each with its message.
#[derive(Clone, Debug, PartialEq, Eq)]
pub enum Error {
    /// Reading or writing failed.
    IO(String),
    /// The bytes are not a WebAssembly module.
    WasmParse(String),
    /// The metadata has no such entry.
    MetadataNotFound(String),
}

/// The message of an error.
pub open spec fn error_message(e: Error) -> Seq<char> {
    match e {
        Error::IO(_) => "Failed on IO."@,
        Error::WasmParse(detail) => "Could not parse the data as WASM module. "@ + detail@,
        Error::MetadataNotFound(message) => message@,
    }
}

impl Error {
    /// The message of the error.
    pub fn message(&self) -> (text: String)
        ensures
            text@ == error_message(*self),
    {
        match self {
            Error::IO(_) => "Failed on IO.".to_owned(),
            Error::WasmParse(detail) => crate::strings::concat(
                "Could not parse the data as WASM module. ",
                detail.as_str(),
            ),
            Error::MetadataNotFound(message) => message.clone(),
        }
    }
}

} // verus!
