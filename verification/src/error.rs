//! What can go wrong while a box is read or written.

use vstd::prelude::*;

verus! {

/// The ways in which reading or writing a box fails. Each failure ends the
/// call in progress; nothing is retried and no partial value is handed out.
#[derive(Debug, Clone, Copy, PartialEq, Eq, Structural)]
pub enum Error {
    /// The bytes end before the format is through with them.
    TruncatedStream,
    /// The stream that the bytes of a box were handed to did not take them.
    /// A vector takes every byte: this is for what writes them further.
    IoWriteError,
    /// The declared size of a box is smaller than what its fields occupy.
    SizeMismatch,
    /// The flags do not fit the 24 bits that the wire gives them.
    FlagsOverflow,
}

} // verus!
