use vstd::prelude::*;

verus! {

/// The failures that the ledger surfaces to its callers.
#[derive(Debug, Clone, Copy, PartialEq, Eq, Structural)]
pub enum BlockchainError {
    /// The persistence layer could not open, read, write or flush.
    Storage,
    /// A value could not be encoded or decoded.
    Serialization,
    /// Stored hash bytes are not valid text.
    Encoding,
    /// Every nonce was tried without meeting the difficulty target.
    MiningExhausted,
    /// The head pointer is absent from a store expected to be initialised.
    MissingHead,
    /// A stored block's bytes do not decode into a block.
    DecodeCorruption,
    /// The head block already has the largest height that can be represented.
    HeightOverflow,
}

} // verus!
