//! Errors of the header-framed serial transport.

use vstd::prelude::*;

verus! {

/// Point to Point Protocol Errors
#[derive(Debug, Clone, Copy, PartialEq, Eq, Structural)]
pub enum Error {
    /// Error encoding byte stream
    EncodeError,
    /// Error decoding byte stream
    DecodeError,
    /// Error queuing decoded value
    QueueError,
}

} // verus!
