//! The proposer of one session: everything that is decided on one parent
//! block.

use vstd::prelude::*;
use vstd::arithmetic::div_mod::{lemma_mod_add_multiples_vanish, lemma_mod_bound};
use vstd::slice::slice_to_vec;
use crate::crypto::{
    big_endian, blake2_256, blake2_256_of, ed25519_public_key, public_key_of, seed_modulo,
};
use crate::dynamic_inclusion::DynamicInclusion;
use crate::error::ErrorKind;
use crate::evaluation::{evaluate_initial, initial_fault, noted_offline_of, timestamp_of, Block};
use crate::misbehavior::{batch_item, collect_reports, reports_of, sign_reports, Misbehavior};
use crate::offline_tracker::OfflineTracker;
use crate::pool::{greatest_pending, greatest_pending_index, PendingTransaction};
use crate::proposal::CreateProposal;
use crate::timing::ProposalTiming;
use crate::types::{
    AccountId, AuthorityId, BlockNumber, Instant, Nonce, Timestamp, H256, MICROS_PER_SECOND,
};

verus! {

/// The primary of a round among `len` authorities: the random seed, read as
/// a number, picks the primary of round 0, and the turn passes to the next
/// authority with each round.
pub open spec fn primary_index_of(seed: Seq<u8>, round_number: nat, len: nat) -> nat
    recommends
        len > 0,
{
    ((big_endian(seed) % len) + round_number) % len
}

/// The primary's index lies within the list of authorities.
pub proof fn lemma_primary_index_in_range(seed: Seq<u8>, round_number: nat, len: nat)
    requires
        len > 0,
    ensures
        primary_index_of(seed, round_number, len) < len,
{
    lemma_mod_bound(((big_endian(seed) % len) + round_number) as int, len as int);
}

/// After as many rounds as there are authorities the turn is back where it
/// was.
pub proof fn lemma_primary_index_periodic(seed: Seq<u8>, round_number: nat, len: nat)
    requires
        len > 0,
    ensures
        primary_index_of(seed, round_number + len, len) == primary_index_of(
            seed,
            round_number,
            len,
        ),
{
    lemma_mod_add_multiples_vanish(((big_endian(seed) % len) + round_number) as int, len as int);
}

/// With each round the turn passes to the next authority, and from the last
/// to the first.
pub proof fn lemma_primary_index_advances(seed: Seq<u8>, round_number: nat, len: nat)
    requires
        len > 0,
    ensures
        primary_index_of(seed, round_number + 1, len) == (if primary_index_of(
            seed,
            round_number,
            len,
        ) + 1 == len {
            0
        } else {
            primary_index_of(seed, round_number, len) + 1
        }),
{
    let a = ((big_endian(seed) % len) + round_number) as int;
    let n = len as int;
    assert((a + 1) % n == if a % n + 1 == n {
        0
    } else {
        a % n + 1
    }) by (nonlinear_arith)
        requires
            n > 0,
            a >= 0,
    ;
}

/// What a session is made of.
#[derive(Clone, Debug)]
pub struct Session {
    /// The secret key with which the local validator signs.
    pub local_key: [u8; 32],
    /// The block on which the session builds.
    pub parent_hash: H256,
    /// That block's number.
    pub parent_number: BlockNumber,
    /// The hashed seed that orders the primaries.
    pub random_seed: H256,
    /// The validators, in the chain's order.
    pub validators: Vec<AccountId>,
    /// The waiting policy.
    pub dynamic_inclusion: DynamicInclusion,
}

/// How a proposal is dealt with.
#[derive(Clone, Copy, Debug, PartialEq, Eq)]
pub enum Evaluation {
    /// The proposal failed its first examination: vote no at once.
    Invalid(ErrorKind),
    /// The proposal calls validators offline that the local tracker does
    /// not judge so: cast no vote at all.
    Abstain,
    /// Ask the runtime client whether the block is valid. A yes is cast no
    /// earlier than `vote_after`, a no at once.
    Consult { vote_after: Option<Instant> },
}

/// The instant at which a timestamp that lies ahead of the local clock has
/// become current, as far as the clock can show it; `None` for a timestamp
/// that is not ahead.
pub open spec fn timestamp_delay(proposed: Timestamp, current: Timestamp, now: Instant) -> Option<
    Instant,
> {
    if proposed > current {
        if now + (proposed - current) * MICROS_PER_SECOND <= u64::MAX {
            Some((now + (proposed - current) * MICROS_PER_SECOND) as u64)
        } else {
            Some(u64::MAX)
        }
    } else {
        None
    }
}

/// The later of two delays, where `None` is no delay at all.
pub open spec fn later_of(a: Option<Instant>, b: Option<Instant>) -> Option<Instant> {
    match (a, b) {
        (Some(x), Some(y)) => if x >= y {
            Some(x)
        } else {
            Some(y)
        },
        (Some(x), None) => Some(x),
        (None, other) => other,
    }
}

/// How the session deals with a proposal that arrives at `now`, when the
/// clock shows `current_timestamp` and `included` candidates are
/// includable.
pub open spec fn evaluation_of(
    session: Session,
    tracker: OfflineTracker,
    proposal: Block,
    current_timestamp: Timestamp,
    now: Instant,
    included: usize,
) -> Evaluation {
    match initial_fault(proposal, current_timestamp, session.parent_hash, session.parent_number) {
        Some(fault) => Evaluation::Invalid(fault),
        None => if !tracker.consistent(session.validators@, noted_offline_of(proposal)) {
            Evaluation::Abstain
        } else {
            Evaluation::Consult {
                vote_after: later_of(
                    timestamp_delay(timestamp_of(proposal), current_timestamp, now),
                    session.dynamic_inclusion.acceptable_at(now, included),
                ),
            }
        },
    }
}

impl Evaluation {
    /// The vote that is cast at `now`, if one is: `client_valid` is the
    /// runtime client's answer, and `includable` says whether enough
    /// candidates have become includable. A no is cast at once. A yes waits
    /// for the delay and for the candidates.
    pub open spec fn vote_at(self, client_valid: bool, now: Instant, includable: bool) -> Option<
        bool,
    > {
        match self {
            Evaluation::Invalid(_) => Some(false),
            Evaluation::Abstain => None,
            Evaluation::Consult { vote_after } => if !client_valid {
                Some(false)
            } else if includable && (vote_after is None || now >= vote_after.unwrap()) {
                Some(true)
            } else {
                None
            },
        }
    }

    /// Whether the runtime client is to be asked about the block.
    pub fn consults_client(&self) -> (r: bool)
        ensures
            r == (*self is Consult),
    {
        match self {
            Evaluation::Consult { vote_after: _ } => true,
            _ => false,
        }
    }

    /// The vote to cast at `now`, or `None` while none is cast.
    pub fn vote(&self, client_valid: bool, now: Instant, includable: bool) -> (r: Option<bool>)
        ensures
            r == self.vote_at(client_valid, now, includable),
    {
        match self {
            Evaluation::Invalid(_) => Some(false),
            Evaluation::Abstain => None,
            Evaluation::Consult { vote_after } => {
                if !client_valid {
                    Some(false)
                } else {
                    let waited = match vote_after {
                        Some(instant) => now >= *instant,
                        None => true,
                    };
                    if includable && waited {
                        Some(true)
                    } else {
                        None
                    }
                }
            },
        }
    }
}

/// No yes is ever cast for a proposal that fails its first examination:
/// whatever the client says and however long one waits, the vote is no.
pub proof fn lemma_faulty_proposal_is_refused(
    session: Session,
    tracker: OfflineTracker,
    proposal: Block,
    current_timestamp: Timestamp,
    now: Instant,
    included: usize,
    client_valid: bool,
    at: Instant,
    includable: bool,
)
    requires
        initial_fault(proposal, current_timestamp, session.parent_hash, session.parent_number)
            is Some,
    ensures
        evaluation_of(session, tracker, proposal, current_timestamp, now, included).vote_at(
            client_valid,
            at,
            includable,
        ) == Some(false),
{
}

/// A yes is cast only for a proposal that passed its first examination,
/// that agrees with the local tracker and that the client found valid, and
/// not before the candidates are includable, the proposal's timestamp has
/// become current and the waiting policy lets a block go.
pub proof fn lemma_yes_waits_for_delays(
    session: Session,
    tracker: OfflineTracker,
    proposal: Block,
    current_timestamp: Timestamp,
    now: Instant,
    included: usize,
    client_valid: bool,
    at: Instant,
    includable: bool,
)
    requires
        evaluation_of(session, tracker, proposal, current_timestamp, now, included).vote_at(
            client_valid,
            at,
            includable,
        ) == Some(true),
    ensures
        initial_fault(proposal, current_timestamp, session.parent_hash, session.parent_number)
            is None,
        tracker.consistent(session.validators@, noted_offline_of(proposal)),
        client_valid,
        includable,
        timestamp_delay(timestamp_of(proposal), current_timestamp, now) is Some ==> at
            >= timestamp_delay(timestamp_of(proposal), current_timestamp, now).unwrap(),
        session.dynamic_inclusion.acceptable_at(now, included) is Some ==> at
            >= session.dynamic_inclusion.acceptable_at(now, included).unwrap(),
{
}

/// What a batch of reports must be, for a sender whose transaction index
/// stands at `current_index`: one signed extrinsic for each observation that
/// is reported, with indices that rise by one from `current_index + 1`; or
/// nothing at all where the indices run out.
pub open spec fn batch_of(
    session: Session,
    batch: Option<Vec<Vec<u8>>>,
    current_index: Nonce,
    observed: Seq<(AuthorityId, Misbehavior)>,
) -> bool {
    let reports = reports_of(session.parent_hash, session.parent_number, observed);
    &&& batch is None <==> current_index + reports.len() > u64::MAX
    &&& batch is Some ==> batch.unwrap().len() == reports.len()
    &&& batch is Some ==> forall|k: int|
        0 <= k < reports.len() ==> (#[trigger] batch.unwrap()[k])@ == batch_item(
            session.local_key@,
            current_index,
            reports,
            k,
        )
}

/// The proposer of one session.
#[derive(Debug)]
pub struct Proposer {
    session: Session,
}

impl View for Proposer {
    type V = Session;

    closed spec fn view(&self) -> Session {
        self.session
    }
}

impl Proposer {
    /// A proposer for a session that is given whole.
    pub fn new(session: Session) -> (r: Proposer)
        ensures
            r@ == session,
    {
        Proposer { session }
    }

    /// Begins the session on a parent block at `now`. The seed that the
    /// runtime supplies is hashed with BLAKE2-256 into the session's random
    /// seed, and the tracker takes up the validators. The session hopes for
    /// `initial` includable candidates and accepts an empty block
    /// `allow_empty` microseconds after `now`.
    pub fn init(
        parent_hash: H256,
        parent_number: BlockNumber,
        runtime_seed: &[u8],
        validators: Vec<AccountId>,
        local_key: [u8; 32],
        offline: &mut OfflineTracker,
        now: Instant,
        initial: usize,
        allow_empty: u64,
    ) -> (r: Proposer)
        ensures
            r@.local_key == local_key,
            r@.parent_hash == parent_hash,
            r@.parent_number == parent_number,
            r@.random_seed@ == blake2_256(runtime_seed@),
            r@.validators == validators,
            r@.dynamic_inclusion.start == now,
            initial == 0 ==> r@.dynamic_inclusion.full_delay == 0 && r@.dynamic_inclusion.step
                == 0,
            initial != 0 ==> r@.dynamic_inclusion.full_delay == allow_empty
                && r@.dynamic_inclusion.step == allow_empty as int / initial as int,
            old(offline).new_block_noted(*final(offline), validators@),
    {
        let random_seed = blake2_256_of(runtime_seed);
        offline.note_new_block(validators.as_slice());
        let dynamic_inclusion = DynamicInclusion::new(initial, now, allow_empty);
        Proposer {
            session: Session {
                local_key,
                parent_hash,
                parent_number,
                random_seed,
                validators,
                dynamic_inclusion,
            },
        }
    }

    /// The session.
    pub fn session(&self) -> (r: &Session)
        ensures
            *r == self@,
    {
        &self.session
    }

    /// The account of the local validator: the public key of its signing
    /// key.
    pub fn local_id(&self) -> (r: AccountId)
        ensures
            r@ == ed25519_public_key(self@.local_key@),
    {
        public_key_of(&self.session.local_key)
    }

    /// The index, among `len` authorities, of the primary of a round.
    pub fn primary_index(&self, round_number: usize, len: usize) -> (r: usize)
        requires
            len > 0,
        ensures
            r == primary_index_of(self@.random_seed@, round_number as nat, len as nat),
            r < len,
    {
        let offset = seed_modulo(&self.session.random_seed, len as u64);
        let turn = (offset as u128 + round_number as u128) % (len as u128);
        turn as usize
    }

    /// The primary of a round among the authorities.
    pub fn round_proposer(&self, round_number: usize, authorities: &[AuthorityId]) -> (r:
        AuthorityId)
        requires
            authorities.len() > 0,
        ensures
            r == authorities@[primary_index_of(
                self@.random_seed@,
                round_number as nat,
                authorities@.len(),
            ) as int],
    {
        let offset = self.primary_index(round_number, authorities.len());
        authorities[offset]
    }

    /// Begins an attempt to propose at `now`, with `initial_included`
    /// includable candidates.
    pub fn propose(&self, now: Instant, initial_included: usize) -> (r: CreateProposal)
        ensures
            r.parent_hash == self@.parent_hash,
            r.parent_number == self@.parent_number,
            r.validators@ == self@.validators@,
            r.timing.dynamic_inclusion == self@.dynamic_inclusion,
            r.timing.last_included == initial_included,
            r.timing.enough_candidates == (match self@.dynamic_inclusion.acceptable_at(
                now,
                initial_included,
            ) {
                Some(instant) => instant,
                None => now,
            }),
    {
        CreateProposal {
            parent_hash: self.session.parent_hash,
            parent_number: self.session.parent_number,
            timing: ProposalTiming::new(self.session.dynamic_inclusion, now, initial_included),
            validators: slice_to_vec(self.session.validators.as_slice()),
        }
    }

    /// Decides how to deal with a proposal that arrives at `now`, when the
    /// clock shows `current_timestamp` and `included` candidates are
    /// includable. A proposal that fails its first examination is refused
    /// at once. One that disagrees with the tracker about who is offline
    /// gets no vote. For any other the client is to be asked, and a yes
    /// waits for the later of two instants: that at which the proposal's
    /// timestamp is current, and that which the waiting policy names.
    pub fn evaluate(
        &self,
        tracker: &OfflineTracker,
        unchecked_proposal: Block,
        current_timestamp: Timestamp,
        now: Instant,
        included: usize,
    ) -> (r: Evaluation)
        ensures
            r == evaluation_of(
                self@,
                *tracker,
                unchecked_proposal,
                current_timestamp,
                now,
                included,
            ),
    {
        let proposal = match evaluate_initial(
            unchecked_proposal,
            current_timestamp,
            &self.session.parent_hash,
            self.session.parent_number,
        ) {
            Ok(proposal) => proposal,
            Err(fault) => {
                return Evaluation::Invalid(fault);
            },
        };
        let proposed_timestamp = proposal.timestamp();
        let timestamp_delay = if proposed_timestamp > current_timestamp {
            let ahead = proposed_timestamp - current_timestamp;
            let instant = match ahead.checked_mul(MICROS_PER_SECOND) {
                Some(micros) => match now.checked_add(micros) {
                    Some(instant) => instant,
                    None => u64::MAX,
                },
                None => u64::MAX,
            };
            Some(instant)
        } else {
            None
        };
        let count_delay = self.session.dynamic_inclusion.acceptable_in(now, included);
        let vote_after = match (timestamp_delay, count_delay) {
            (Some(x), Some(y)) => if x >= y {
                Some(x)
            } else {
                Some(y)
            },
            (Some(x), None) => Some(x),
            (None, other) => other,
        };
        let offline = proposal.noted_offline();
        if !tracker.check_consistency(self.session.validators.as_slice(), offline.as_slice()) {
            return Evaluation::Abstain;
        }
        Evaluation::Consult { vote_after }
    }

    /// Makes the extrinsics that report a batch of observed misbehaviour,
    /// for a local account whose transaction index stands at
    /// `current_index`.
    pub fn report_extrinsics(
        &self,
        current_index: Nonce,
        misbehavior: &[(AuthorityId, Misbehavior)],
    ) -> (r: Option<Vec<Vec<u8>>>)
        ensures
            batch_of(self@, r, current_index, misbehavior@),
    {
        let reports = collect_reports(
            &self.session.parent_hash,
            self.session.parent_number,
            misbehavior,
        );
        sign_reports(&self.session.local_key, current_index, reports.as_slice())
    }

    /// Makes the extrinsics that report a batch of observed misbehaviour.
    /// The local account's transaction index is the greatest among its
    /// pending transactions. Only if it has none pending is `account_index`
    /// called for the index that the runtime holds. Where that gives no
    /// index the batch is given up.
    pub fn import_misbehavior<F: FnOnce() -> Option<Nonce>>(
        &self,
        pending: &[PendingTransaction],
        account_index: F,
        misbehavior: &[(AuthorityId, Misbehavior)],
    ) -> (r: Option<Vec<Vec<u8>>>)
        requires
            account_index.requires(()),
        ensures
            match greatest_pending(pending@, ed25519_public_key(self@.local_key@)) {
                Some(current_index) => batch_of(self@, r, current_index, misbehavior@),
                None => exists|answer: Option<Nonce>|
                    account_index.ensures((), answer) && match answer {
                        Some(current_index) => batch_of(self@, r, current_index, misbehavior@),
                        None => r is None,
                    },
            },
    {
        let local_id = self.local_id();
        let current_index = match greatest_pending_index(pending, &local_id) {
            Some(index) => index,
            None => {
                let answer = account_index();
                match answer {
                    Some(index) => index,
                    None => {
                        return None;
                    },
                }
            },
        };
        self.report_extrinsics(current_index, misbehavior)
    }

    /// Notes the end of a round at `now`. The round's primary counts as
    /// online if a block was proposed, or if the local validator would
    /// itself have had to wait in its place, with `included` includable
    /// candidates. Else it earns a strike. Says whether it counted as
    /// online.
    pub fn on_round_end(
        &self,
        tracker: &mut OfflineTracker,
        round_number: usize,
        was_proposed: bool,
        now: Instant,
        included: usize,
    ) -> (consider_online: bool)
        requires
            self@.validators@.len() > 0,
        ensures
            consider_online == (was_proposed || self@.dynamic_inclusion.acceptable_at(
                now,
                included,
            ) is Some),
            old(tracker).round_end_noted(
                *final(tracker),
                self@.validators@[primary_index_of(
                    self@.random_seed@,
                    round_number as nat,
                    self@.validators@.len(),
                ) as int]@,
                consider_online,
            ),
            was_proposed ==> !final(tracker).is_offline(
                self@.validators@[primary_index_of(
                    self@.random_seed@,
                    round_number as nat,
                    self@.validators@.len(),
                ) as int]@,
            ),
    {
        let primary_validator = self.session.validators[self.primary_index(
            round_number,
            self.session.validators.len(),
        )];
        let consider_online = was_proposed || self.session.dynamic_inclusion.acceptable_in(
            now,
            included,
        ).is_some();
        tracker.note_round_end(primary_validator, consider_online);
        consider_online
    }
}

} // verus!
