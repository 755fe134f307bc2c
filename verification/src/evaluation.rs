//! The first examination of a proposal: shape, parent, number, timestamp
//! and size. It needs no state but the session's parent.

use vstd::prelude::*;
use vstd::pervasive::unreached;
use crate::error::ErrorKind;
use crate::types::{same_bytes, BlockNumber, Timestamp, H256};

verus! {

/// The most bytes that the extrinsics of one block may take.
pub const MAX_TRANSACTIONS_SIZE: usize = 4 * 1024 * 1024;

/// Seconds by which a block's timestamp may run ahead of the local clock.
pub const MAX_TIMESTAMP_DRIFT: Timestamp = 60;

/// What the proposer reads of a block's header.
#[derive(Clone, Copy, Debug)]
pub struct Header {
    pub parent_hash: H256,
    pub number: BlockNumber,
}

/// What an extrinsic asks the chain to do, as far as the proposer cares.
#[derive(Clone, Debug)]
pub enum Call {
    /// The inherent that sets the block's timestamp.
    SetTimestamp(Timestamp),
    /// The inherent that names, by index, the validators noted offline.
    NoteOffline(Vec<u32>),
    /// Anything else.
    Other,
}

/// One extrinsic of a block.
#[derive(Clone, Debug)]
pub struct Extrinsic {
    /// Whether an account has signed it. Inherents are unsigned.
    pub signed: bool,
    pub function: Call,
    /// The bytes that it takes on the wire.
    pub encoded_size: usize,
}

/// A block as it is proposed.
#[derive(Clone, Debug)]
pub struct Block {
    pub header: Header,
    pub extrinsics: Vec<Extrinsic>,
}

/// A block of this chain begins with its two inherents: the timestamp, then
/// the validators noted offline.
pub open spec fn well_structured(block: Block) -> bool {
    &&& block.extrinsics@.len() >= 2
    &&& !block.extrinsics@[0].signed
    &&& block.extrinsics@[0].function is SetTimestamp
    &&& !block.extrinsics@[1].signed
    &&& block.extrinsics@[1].function is NoteOffline
}

/// The timestamp that a well-structured block sets.
pub open spec fn timestamp_of(block: Block) -> Timestamp {
    match block.extrinsics@[0].function {
        Call::SetTimestamp(moment) => moment,
        _ => 0,
    }
}

/// The indices that a well-structured block notes offline.
pub open spec fn noted_offline_of(block: Block) -> Seq<u32> {
    match block.extrinsics@[1].function {
        Call::NoteOffline(indices) => indices@,
        _ => Seq::empty(),
    }
}

/// The bytes that a run of extrinsics takes on the wire.
pub open spec fn total_size(extrinsics: Seq<Extrinsic>) -> int
    decreases extrinsics.len(),
{
    if extrinsics.len() == 0 {
        0
    } else {
        total_size(extrinsics.drop_last()) + extrinsics.last().encoded_size
    }
}

/// The first fault found in a proposal, if it has one. The checks come in a
/// fixed order: shape, parent hash, number, timestamp, size.
pub open spec fn initial_fault(
    block: Block,
    now: Timestamp,
    parent_hash: H256,
    parent_number: BlockNumber,
) -> Option<ErrorKind> {
    if !well_structured(block) {
        Some(ErrorKind::ProposalNotForChainX)
    } else if block.header.parent_hash@ != parent_hash@ {
        Some(ErrorKind::WrongParentHash)
    } else if block.header.number != parent_number + 1 {
        Some(ErrorKind::WrongNumber)
    } else if timestamp_of(block) > now + MAX_TIMESTAMP_DRIFT {
        Some(ErrorKind::TimestampInFuture)
    } else if total_size(block.extrinsics@) > MAX_TRANSACTIONS_SIZE {
        Some(ErrorKind::ProposalTooLarge)
    } else {
        None
    }
}

/// A longer run of extrinsics is no smaller than its beginning.
pub proof fn lemma_total_size_grows(extrinsics: Seq<Extrinsic>, n: int)
    requires
        0 <= n <= extrinsics.len(),
    ensures
        0 <= total_size(extrinsics.take(n)) <= total_size(extrinsics),
    decreases extrinsics.len() - n,
{
    if n == extrinsics.len() {
        assert(extrinsics.take(n) =~= extrinsics);
        lemma_total_size_nonnegative(extrinsics);
    } else {
        lemma_total_size_grows(extrinsics, n + 1);
        assert(extrinsics.take(n + 1).drop_last() =~= extrinsics.take(n));
        lemma_total_size_nonnegative(extrinsics.take(n));
    }
}

proof fn lemma_total_size_nonnegative(extrinsics: Seq<Extrinsic>)
    ensures
        0 <= total_size(extrinsics),
    decreases extrinsics.len(),
{
    if extrinsics.len() > 0 {
        lemma_total_size_nonnegative(extrinsics.drop_last());
    }
}

/// A block that has the shape of a block of this chain.
#[derive(Debug)]
pub struct CheckedBlock {
    block: Block,
}

impl View for CheckedBlock {
    type V = Block;

    closed spec fn view(&self) -> Block {
        self.block
    }
}

impl CheckedBlock {
    #[verifier::type_invariant]
    spec fn shaped(self) -> bool {
        well_structured(self.block)
    }

    /// Takes a block whose first two extrinsics are the inherents; `None`
    /// for any other.
    pub fn new(block: Block) -> (r: Option<CheckedBlock>)
        ensures
            r is Some <==> well_structured(block),
            r is Some ==> r.unwrap()@ == block,
    {
        if has_inherents(&block) {
            Some(CheckedBlock { block })
        } else {
            None
        }
    }

    /// The timestamp that the block sets.
    pub fn timestamp(&self) -> (r: Timestamp)
        ensures
            well_structured(self@),
            r == timestamp_of(self@),
    {
        proof {
            use_type_invariant(self);
        }
        match &self.block.extrinsics[0].function {
            Call::SetTimestamp(moment) => *moment,
            _ => unreached(),
        }
    }

    /// The indices of the validators that the block notes offline.
    pub fn noted_offline(&self) -> (r: &Vec<u32>)
        ensures
            well_structured(self@),
            r@ == noted_offline_of(self@),
    {
        proof {
            use_type_invariant(self);
        }
        match &self.block.extrinsics[1].function {
            Call::NoteOffline(indices) => indices,
            _ => unreached(),
        }
    }

    /// The block itself.
    pub fn block(&self) -> (r: &Block)
        ensures
            well_structured(self@),
            *r == self@,
    {
        proof {
            use_type_invariant(self);
        }
        &self.block
    }

    /// Gives the block back.
    pub fn into_inner(self) -> (r: Block)
        ensures
            well_structured(self@),
            r == self@,
    {
        proof {
            use_type_invariant(&self);
        }
        self.block
    }
}

/// Whether the block begins with its two inherents.
fn has_inherents(block: &Block) -> (r: bool)
    ensures
        r == well_structured(*block),
{
    if block.extrinsics.len() < 2 {
        return false;
    }
    let first = &block.extrinsics[0];
    let second = &block.extrinsics[1];
    let sets_timestamp = match &first.function {
        Call::SetTimestamp(_) => true,
        _ => false,
    };
    let notes_offline = match &second.function {
        Call::NoteOffline(_) => true,
        _ => false,
    };
    !first.signed && sets_timestamp && !second.signed && notes_offline
}

/// Whether the extrinsics take more bytes than a block may hold.
fn exceeds_size_limit(extrinsics: &Vec<Extrinsic>) -> (r: bool)
    ensures
        r == (total_size(extrinsics@) > MAX_TRANSACTIONS_SIZE),
{
    let mut total: usize = 0;
    let mut i: usize = 0;
    while i < extrinsics.len()
        invariant
            i <= extrinsics.len(),
            total == total_size(extrinsics@.take(i as int)),
            total <= MAX_TRANSACTIONS_SIZE,
        decreases extrinsics.len() - i,
    {
        let size = extrinsics[i].encoded_size;
        proof {
            assert(extrinsics@.take(i + 1).drop_last() =~= extrinsics@.take(i as int));
            lemma_total_size_grows(extrinsics@, i + 1);
        }
        if size > MAX_TRANSACTIONS_SIZE - total {
            return true;
        }
        total += size;
        i += 1;
    }
    assert(extrinsics@.take(i as int) =~= extrinsics@);
    false
}

/// Examines a proposal against the session's parent and the local clock.
/// The block comes back checked, or the first fault found is named. A
/// timestamp ahead of the clock by no more than the allowed drift is no
/// fault: it only delays the vote.
pub fn evaluate_initial(
    proposal: Block,
    now: Timestamp,
    parent_hash: &H256,
    parent_number: BlockNumber,
) -> (r: Result<CheckedBlock, ErrorKind>)
    ensures
        match r {
            Ok(checked) => initial_fault(proposal, now, *parent_hash, parent_number) is None
                && checked@ == proposal,
            Err(fault) => initial_fault(proposal, now, *parent_hash, parent_number) == Some(
                fault,
            ),
        },
{
    let checked = match CheckedBlock::new(proposal) {
        Some(checked) => checked,
        None => {
            return Err(ErrorKind::ProposalNotForChainX);
        },
    };
    if !same_bytes(&checked.block().header.parent_hash, parent_hash) {
        return Err(ErrorKind::WrongParentHash);
    }
    if parent_number == u64::MAX || checked.block().header.number != parent_number + 1 {
        return Err(ErrorKind::WrongNumber);
    }
    let timestamp = checked.timestamp();
    if timestamp > MAX_TIMESTAMP_DRIFT && timestamp - MAX_TIMESTAMP_DRIFT > now {
        return Err(ErrorKind::TimestampInFuture);
    }
    if exceeds_size_limit(&checked.block().extrinsics) {
        return Err(ErrorKind::ProposalTooLarge);
    }
    Ok(checked)
}

} // verus!
