//! What decoding a signature or a key can fail with.

use vstd::prelude::*;

verus! {

/// Why bytes were not accepted as a signature or as a key.
#[derive(Debug, Clone, Copy, PartialEq, Eq, Structural)]
pub enum CodecError {
    /// The bytes are not as many as a signature of the algorithm has.
    SignatureLength,
    /// The bytes are not a key of the algorithm.
    KeyFormat,
}

} // verus!
