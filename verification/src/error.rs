use vstd::prelude::*;

verus! {

/// The failure kinds the packet layer reports.  Every error is terminal for
/// the single operation that raised it: the protocol performs no retries.
#[derive(Clone, Copy, Debug, PartialEq, Eq, Structural)]
pub enum ErrorKind {
    /// An onion must traverse at least one hop.
    InvalidRoute,
    /// A scalar or point was invalid, or a primitive operation failed.
    CryptoError,
    /// A malformed field was met while decoding.
    CorruptedData,
    /// Decryption or decoding failed while peeling a layer: the packet is
    /// corrupt, or the peeling key does not match the outermost layer.
    InvalidPayload,
}

} // verus!
