use vstd::prelude::*;

verus! {

/// Every way in which building, encoding or decoding can fail.
#[derive(Clone, Copy, Debug, PartialEq, Eq, Structural)]
pub enum Error {
    /// Key material or its tag is larger than the container holds.
    CapacityExceeded,
    /// A key could not be encoded into an envelope.
    EncodingFailed,
    /// An envelope does not hold a well-formed key.
    DecodingFailed,
    /// The input ended before a mandatory field.
    Truncated,
    /// A length is out of bounds, a nested value does not decode, or bytes are left over.
    InvalidData,
}

} // verus!
