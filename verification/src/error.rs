//! Why a proposal is turned down.

use vstd::prelude::*;

verus! {

/// The reasons for which a proposal fails its first examination.
#[derive(Clone, Copy, Debug, PartialEq, Eq, Structural)]
pub enum ErrorKind {
    /// The block does not have the shape of a block of this chain.
    ProposalNotForChainX,
    /// The block does not build on the session's parent.
    WrongParentHash,
    /// The block's number does not follow the parent's.
    WrongNumber,
    /// The block's timestamp lies too far ahead of the local clock.
    TimestampInFuture,
    /// The block's extrinsics are larger than a block may hold.
    ProposalTooLarge,
}

} // verus!
