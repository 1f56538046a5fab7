//! Header-framed serial transport: `[sync][length][payload][2-byte CRC]`.
//!
//! The CRC bytes are reserved in the format but never validated; they are
//! carried as placeholders.

pub mod error;
pub mod reader;
pub mod rx;
pub mod tx;

use vstd::prelude::*;

verus! {

/// Start-of-frame marker of the header framing.
pub const SYNC: u8 = 0xAA;

/// Placeholder written where a CRC would go; never checked.
pub const CRC_PLACEHOLDER: u8 = 0xFF;

} // verus!
