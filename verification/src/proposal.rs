//! Building one block.
//!
//! A proposal attempt waits until its timing lets it go, then assembles a
//! block: the inherent data first, then pending transactions in the pool's
//! order for as long as they fit. The block builder is the caller's. The
//! assembly names the transaction to offer next, takes the builder's answer,
//! and keeps the books.

use vstd::prelude::*;
use crate::error::ErrorKind;
use crate::evaluation::{evaluate_initial, initial_fault, Block, CheckedBlock, MAX_TRANSACTIONS_SIZE};
use crate::offline_tracker::OfflineTracker;
use crate::pool::PendingTransaction;
use crate::timing::{ProposalTiming, Readiness};
use crate::types::{AccountId, BlockNumber, Instant, Timestamp, H256, MICROS_PER_SECOND};

verus! {

/// Seconds after which a session that makes no progress stops reporting
/// validators as offline.
pub const MAX_VOTE_OFFLINE_SECONDS: u64 = 60;

/// What every block carries whatever its transactions are.
#[derive(Clone, Debug)]
pub struct InherentData {
    /// The block's timestamp.
    pub timestamp: Timestamp,
    /// The indices of the validators that the proposer reports offline.
    pub offline_indices: Vec<u32>,
}

/// What the assembly asks of the block builder next.
#[derive(Clone, Copy, Debug, PartialEq, Eq, Structural)]
pub enum ProposeStep {
    /// Offer the pending transaction at this position.
    Push(usize),
    /// Offer no more: bake the block.
    Bake,
}

/// The bytes of the transactions that the builder took. `verdicts[i]` is its
/// answer to `pending[i]`.
pub open spec fn accepted_size(pending: Seq<PendingTransaction>, verdicts: Seq<bool>) -> int
    decreases verdicts.len(),
{
    if verdicts.len() == 0 {
        0
    } else {
        accepted_size(pending, verdicts.drop_last()) + if verdicts.last() {
            pending[verdicts.len() - 1].encoded_size as int
        } else {
            0
        }
    }
}

/// The positions of the transactions that the builder took, in rising order.
pub open spec fn accepted_positions(verdicts: Seq<bool>) -> Seq<usize>
    decreases verdicts.len(),
{
    if verdicts.len() == 0 {
        Seq::empty()
    } else if verdicts.last() {
        accepted_positions(verdicts.drop_last()).push((verdicts.len() - 1) as usize)
    } else {
        accepted_positions(verdicts.drop_last())
    }
}

/// The hashes of the transactions that the builder turned down, in the
/// pool's order.
pub open spec fn rejected_hashes(pending: Seq<PendingTransaction>, verdicts: Seq<bool>) -> Seq<
    H256,
>
    decreases verdicts.len(),
{
    if verdicts.len() == 0 {
        Seq::empty()
    } else if verdicts.last() {
        rejected_hashes(pending, verdicts.drop_last())
    } else {
        rejected_hashes(pending, verdicts.drop_last()).push(pending[verdicts.len() - 1].hash)
    }
}

/// What is asked of the builder after it has given `verdicts`: the next
/// pending transaction if there is one and it still fits, else to bake. A
/// transaction that does not fit ends the assembly: none behind it is
/// offered.
pub open spec fn step_after(pending: Seq<PendingTransaction>, verdicts: Seq<bool>) -> ProposeStep {
    if verdicts.len() < pending.len() && accepted_size(pending, verdicts)
        + pending[verdicts.len() as int].encoded_size <= MAX_TRANSACTIONS_SIZE {
        ProposeStep::Push(verdicts.len() as usize)
    } else {
        ProposeStep::Bake
    }
}

/// Every answer in `verdicts` was given to a transaction that was on offer:
/// it was the next in the pool's order and it still fit.
pub open spec fn offered_in_turn(pending: Seq<PendingTransaction>, verdicts: Seq<bool>) -> bool {
    forall|i: int|
        0 <= i < verdicts.len() ==> step_after(pending, #[trigger] verdicts.take(i)) is Push
}

/// The assembly of one block.
#[derive(Debug)]
pub struct BlockAssembly {
    inherent_data: InherentData,
    pending: Vec<PendingTransaction>,
    verdicts: Vec<bool>,
    pending_size: usize,
    included: Vec<usize>,
    unqueue_invalid: Vec<H256>,
}

impl BlockAssembly {
    #[verifier::type_invariant]
    spec fn coherent(self) -> bool {
        &&& self.verdicts@.len() <= self.pending@.len()
        &&& offered_in_turn(self.pending@, self.verdicts@)
        &&& self.pending_size == accepted_size(self.pending@, self.verdicts@)
        &&& self.pending_size <= MAX_TRANSACTIONS_SIZE
        &&& self.included@ == accepted_positions(self.verdicts@)
        &&& self.unqueue_invalid@ == rejected_hashes(self.pending@, self.verdicts@)
    }

    /// The pending transactions, in the pool's order.
    pub closed spec fn pending(&self) -> Seq<PendingTransaction> {
        self.pending@
    }

    /// The builder's answers so far: one for each transaction offered.
    pub closed spec fn verdicts(&self) -> Seq<bool> {
        self.verdicts@
    }

    /// The inherent data of the block.
    pub closed spec fn inherent(&self) -> InherentData {
        self.inherent_data
    }

    /// An assembly that has offered nothing yet.
    pub fn new(inherent_data: InherentData, pending: Vec<PendingTransaction>) -> (r: Self)
        ensures
            r.inherent() == inherent_data,
            r.pending() == pending@,
            r.verdicts() == Seq::<bool>::empty(),
    {
        BlockAssembly {
            inherent_data,
            pending,
            verdicts: Vec::new(),
            pending_size: 0,
            included: Vec::new(),
            unqueue_invalid: Vec::new(),
        }
    }

    /// What to ask of the builder next.
    pub fn next(&self) -> (r: ProposeStep)
        ensures
            r == step_after(self.pending(), self.verdicts()),
            offered_in_turn(self.pending(), self.verdicts()),
    {
        proof {
            use_type_invariant(self);
        }
        let at = self.verdicts.len();
        if at < self.pending.len() && self.pending[at].encoded_size <= MAX_TRANSACTIONS_SIZE
            - self.pending_size {
            ProposeStep::Push(at)
        } else {
            ProposeStep::Bake
        }
    }

    /// Takes the builder's answer to the transaction that was offered. An
    /// assembly that has nothing on offer stays as it is.
    pub fn pushed(self, accepted: bool) -> (r: Self)
        ensures
            r.inherent() == self.inherent(),
            r.pending() == self.pending(),
            r.verdicts() == (match step_after(self.pending(), self.verdicts()) {
                ProposeStep::Push(_) => self.verdicts().push(accepted),
                ProposeStep::Bake => self.verdicts(),
            }),
    {
        proof {
            use_type_invariant(&self);
        }
        let at = match self.next() {
            ProposeStep::Push(at) => at,
            ProposeStep::Bake => {
                return self;
            },
        };
        let ghost was = self;
        assert(was.verdicts@.len() == was.verdicts.len());
        let BlockAssembly {
            inherent_data,
            pending,
            mut verdicts,
            mut pending_size,
            mut included,
            mut unqueue_invalid,
        } = self;
        let ghost before = verdicts@;
        verdicts.push(accepted);
        assert(verdicts@.drop_last() =~= before);
        assert forall|i: int| 0 <= i < verdicts@.len() implies step_after(
            pending@,
            #[trigger] verdicts@.take(i),
        ) is Push by {
            if i < before.len() {
                assert(verdicts@.take(i) =~= before.take(i));
            } else {
                assert(verdicts@.take(i) =~= before);
            }
        }
        if accepted {
            pending_size = pending_size + pending[at].encoded_size;
            included.push(at);
        } else {
            unqueue_invalid.push(pending[at].hash);
        }
        BlockAssembly { inherent_data, pending, verdicts, pending_size, included, unqueue_invalid }
    }

    /// The inherent data with which the builder is opened.
    pub fn inherent_data(&self) -> (r: &InherentData)
        ensures
            *r == self.inherent(),
    {
        &self.inherent_data
    }

    /// The bytes of the transactions taken so far. They never exceed what a
    /// block may hold.
    pub fn pending_size(&self) -> (r: usize)
        ensures
            r == accepted_size(self.pending(), self.verdicts()),
            r <= MAX_TRANSACTIONS_SIZE,
            offered_in_turn(self.pending(), self.verdicts()),
    {
        proof {
            use_type_invariant(self);
        }
        self.pending_size
    }

    /// The positions, in the pending list, of the transactions taken so far.
    pub fn included(&self) -> (r: &Vec<usize>)
        ensures
            r@ == accepted_positions(self.verdicts()),
    {
        proof {
            use_type_invariant(self);
        }
        &self.included
    }

    /// The hashes of the transactions that the builder turned down: the
    /// pool is to drop them.
    pub fn unqueue_invalid(&self) -> (r: &Vec<H256>)
        ensures
            r@ == rejected_hashes(self.pending(), self.verdicts()),
    {
        proof {
            use_type_invariant(self);
        }
        &self.unqueue_invalid
    }
}

/// An attempt to propose a block on the session's parent.
#[derive(Clone, Debug)]
pub struct CreateProposal {
    pub parent_hash: H256,
    pub parent_number: BlockNumber,
    pub timing: ProposalTiming,
    pub validators: Vec<AccountId>,
}

impl CreateProposal {
    /// The offline validators that a block made at `now` reports: those
    /// that the tracker reports, unless the session has gone on for more
    /// than `MAX_VOTE_OFFLINE_SECONDS`. After that nobody is reported.
    pub open spec fn offline_indices_at(&self, tracker: OfflineTracker, now: Instant) -> Seq<u32> {
        if self.timing.dynamic_inclusion.elapsed(now) > MAX_VOTE_OFFLINE_SECONDS
            * MICROS_PER_SECOND {
            Seq::empty()
        } else {
            tracker.offline_indices(self.validators@)
        }
    }

    /// Whether to propose now: the answer of the attempt's timing.
    pub fn poll(&mut self, now: Instant, included: usize) -> (r: Readiness)
        ensures
            r == old(self).timing.poll_answer(now, included),
            final(self).timing == old(self).timing.after_poll(now, included),
            final(self).parent_hash == old(self).parent_hash,
            final(self).parent_number == old(self).parent_number,
            final(self).validators == old(self).validators,
    {
        self.timing.poll(now, included)
    }

    /// Begins the assembly of a block at `now`: fixes the inherent data and
    /// takes the pending transactions in the pool's order.
    pub fn propose_with(
        &self,
        tracker: &OfflineTracker,
        timestamp: Timestamp,
        now: Instant,
        pending: Vec<PendingTransaction>,
    ) -> (r: BlockAssembly)
        requires
            self.validators.len() <= u32::MAX,
        ensures
            r.inherent().timestamp == timestamp,
            r.inherent().offline_indices@ == self.offline_indices_at(*tracker, now),
            r.pending() == pending@,
            r.verdicts() == Seq::<bool>::empty(),
    {
        let start = self.timing.dynamic_inclusion.started_at();
        let elapsed_since_start = if now >= start {
            now - start
        } else {
            0
        };
        let offline_indices = if elapsed_since_start > MAX_VOTE_OFFLINE_SECONDS
            * MICROS_PER_SECOND {
            Vec::new()
        } else {
            tracker.reports(self.validators.as_slice())
        };
        BlockAssembly::new(InherentData { timestamp, offline_indices }, pending)
    }

    /// Examines the block that the builder baked as any proposal is
    /// examined, against the timestamp that it was given.
    pub fn conclude(&self, baked: Block, timestamp: Timestamp) -> (r: Result<
        CheckedBlock,
        ErrorKind,
    >)
        ensures
            match r {
                Ok(checked) => initial_fault(baked, timestamp, self.parent_hash, self.parent_number)
                    is None && checked@ == baked,
                Err(fault) => initial_fault(baked, timestamp, self.parent_hash, self.parent_number)
                    == Some(fault),
            },
    {
        evaluate_initial(baked, timestamp, &self.parent_hash, self.parent_number)
    }
}

/// Whatever the builder answers, the transactions taken never hold more
/// bytes than a block may hold: each was offered only while the bytes
/// taken before it and its own stayed within the limit.
pub proof fn lemma_taken_within_limit(pending: Seq<PendingTransaction>, verdicts: Seq<bool>)
    requires
        offered_in_turn(pending, verdicts),
    ensures
        0 <= accepted_size(pending, verdicts) <= MAX_TRANSACTIONS_SIZE,
{
    lemma_accepted_size_nonnegative(pending, verdicts);
    if verdicts.len() > 0 {
        let before = verdicts.take(verdicts.len() - 1);
        assert(before =~= verdicts.drop_last());
        assert(step_after(pending, before) is Push);
        lemma_accepted_size_nonnegative(pending, before);
    }
}

/// Once a transaction did not fit, nothing more is offered, whatever comes
/// behind it in the pool.
pub proof fn lemma_bake_is_final(
    pending: Seq<PendingTransaction>,
    verdicts: Seq<bool>,
    more: Seq<bool>,
)
    requires
        step_after(pending, verdicts) is Bake,
        offered_in_turn(pending, verdicts + more),
    ensures
        more.len() == 0,
{
    if more.len() > 0 {
        let all = verdicts + more;
        assert(all.take(verdicts.len() as int) =~= verdicts);
        assert(step_after(pending, all.take(verdicts.len() as int)) is Push);
    }
}

/// The bytes taken are a sum of sizes: never below zero.
pub proof fn lemma_accepted_size_nonnegative(pending: Seq<PendingTransaction>, verdicts: Seq<bool>)
    ensures
        0 <= accepted_size(pending, verdicts),
    decreases verdicts.len(),
{
    if verdicts.len() > 0 {
        lemma_accepted_size_nonnegative(pending, verdicts.drop_last());
    }
}

} // verus!
