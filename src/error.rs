use vstd::prelude::*;

verus! {

/// Every way in which building a network or loading a dataset can fail.
#[derive(Debug, Clone, Copy, PartialEq, Eq, Structural)]
pub enum Error {
    /// A declared matrix dimension is zero, or the matrix cannot be held.
    Allocation,
    /// A sampling interval whose lower end lies above its upper end.
    InvalidRange,
    /// A stream could not be opened or read.
    Io,
    /// A stream is not valid gzip data.
    Decompression,
    /// The magic number names no known layout, or a stream has the wrong layout.
    Format,
    /// The header is cut short, or the payload length differs from the declared dimensions.
    TruncatedData,
    /// The label and image streams declare different record counts.
    LengthMismatch,
}

} // verus!
