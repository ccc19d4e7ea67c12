//! The uniform error taxonomy: every failure is a typed value carrying a
//! human-readable message.
use vstd::prelude::*;

verus! {

/// Why an operation failed.
#[derive(Debug)]
pub enum DataError {
    /// The format identifier is not one of the supported set.
    UnsupportedFormat(String),
    /// The underlying parser or serializer rejected the text; its message is kept.
    FormatError(String),
    /// Text encoding failed while finalizing tabular output.
    EncodingError(String),
    /// The schema handed to validation could not be compiled.
    SchemaCompileError(String),
    /// The query text could not be compiled.
    QueryCompileError(String),
    /// The query failed while running.
    QueryRuntimeError(String),
    /// The token is malformed.
    TokenError(String),
}

impl DataError {
    /// The human-readable message carried by any variant.
    pub fn message(&self) -> (r: &String)
        ensures
            match self {
                DataError::UnsupportedFormat(m) => r@ == m@,
                DataError::FormatError(m) => r@ == m@,
                DataError::EncodingError(m) => r@ == m@,
                DataError::SchemaCompileError(m) => r@ == m@,
                DataError::QueryCompileError(m) => r@ == m@,
                DataError::QueryRuntimeError(m) => r@ == m@,
                DataError::TokenError(m) => r@ == m@,
            },
    {
        match self {
            DataError::UnsupportedFormat(m) => m,
            DataError::FormatError(m) => m,
            DataError::EncodingError(m) => m,
            DataError::SchemaCompileError(m) => m,
            DataError::QueryCompileError(m) => m,
            DataError::QueryRuntimeError(m) => m,
            DataError::TokenError(m) => m,
        }
    }
}

} // verus!
