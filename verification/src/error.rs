//! The default error handler a world advertises to its consumers.
//!
//! The handler is an ordinary resource: a one-byte value stored under a
//! reserved type key.  Consumers read it through the cell and fall back to
//! the panicking handler when no such resource was inserted.

use vstd::prelude::*;

verus! {

/// The reserved type key under which the default error handler is stored.
pub const DEFAULT_ERROR_HANDLER_KEY: crate::component::TypeKey = 0xe44e;

/// How a consumer should react to an error it cannot handle itself.
#[derive(Debug, Clone, Copy, PartialEq, Eq, Structural)]
pub enum ErrorHandler {
    /// Abort loudly; the default.
    Panic,
    /// Report and continue.
    Warn,
    /// Continue silently.
    Ignore,
}

/// The handler encoded by `byte`; unknown bytes fall back to the default.
pub open spec fn spec_error_handler_of_byte(byte: u8) -> ErrorHandler {
    if byte == 1 {
        ErrorHandler::Warn
    } else if byte == 2 {
        ErrorHandler::Ignore
    } else {
        ErrorHandler::Panic
    }
}

/// The handler encoded by a stored resource value: its first byte decides;
/// an empty value means the default.
pub open spec fn spec_error_handler_of(bytes: Seq<u8>) -> ErrorHandler {
    if bytes.len() == 0 {
        ErrorHandler::Panic
    } else {
        spec_error_handler_of_byte(bytes[0])
    }
}

impl ErrorHandler {
    /// The byte this handler is stored as.
    pub fn to_byte(&self) -> (r: u8)
        ensures
            spec_error_handler_of_byte(r) == *self,
    {
        match self {
            ErrorHandler::Panic => 0,
            ErrorHandler::Warn => 1,
            ErrorHandler::Ignore => 2,
        }
    }

    /// The handler stored as `byte`; unknown bytes fall back to the
    /// default.
    pub fn from_byte(byte: u8) -> (r: ErrorHandler)
        ensures
            r == spec_error_handler_of_byte(byte),
    {
        if byte == 1 {
            ErrorHandler::Warn
        } else if byte == 2 {
            ErrorHandler::Ignore
        } else {
            ErrorHandler::Panic
        }
    }
}

} // verus!
