use vstd::prelude::*;

verus! {

/// The closed set of failures a parse can raise. Every error is terminal for
/// the operation that raised it: there is no partial-success mode.
#[derive(Clone, Copy, Debug, PartialEq, Eq, Structural)]
pub enum TiffError {
    /// The two-byte order marker is neither "II" nor "MM".
    InvalidMarker,
    /// The 16-bit magic number after the order marker is not 42.
    BadMagic,
    /// A typed accessor was called on an entry whose type code disagrees.
    TypeMismatch { expected: u16, actual: u16 },
    /// The source ended before the requested bytes could be read.
    ShortRead,
    /// A seek target lies beyond the end of the source.
    SeekFailure,
    /// An ASCII field does not hold valid UTF-8.
    Utf8Decode,
    /// A next-directory offset pointed back into the chain already walked.
    CyclicChain,
}

} // verus!
