//! Errors of the encoder and of the key-size check.

use vstd::prelude::*;

verus! {

/// Why a blob or a set of output names could not be produced.
#[derive(Debug, Clone, Copy, PartialEq, Eq, Structural)]
pub enum BlobError {
    /// The requested key size is neither 1024 nor 2048 bits.
    UnsupportedKeySize,
    /// The modulus, the exponent or the bit length does not fit in its field of the blob.
    EncodingOverflow,
}

} // verus!
