use vstd::prelude::*;

verus! {

/// Why a stream operation failed.
#[derive(Clone, Copy, Debug, PartialEq, Eq, Structural)]
pub enum IoError {
    /// The stream ended before the requested bytes were available.
    UnexpectedEof,
    /// A seek asked for a position before the start of the stream or past
    /// the largest representable position.
    InvalidSeek,
    /// A second byte was pushed back before the first was read again.
    PushbackFull,
    /// The handle was never opened here, or has been closed.
    StaleHandle,
}

/// Where a seek offset is measured from. Offsets are signed for every
/// origin, as in C's `fseek`.
#[derive(Clone, Copy, Debug, PartialEq, Eq, Structural)]
pub enum SeekFrom {
    Start(i64),
    Current(i64),
    End(i64),
}

} // verus!
