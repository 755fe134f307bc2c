use chainx_consensus::dynamic_inclusion::DynamicInclusion;
use chainx_consensus::error::ErrorKind;
use chainx_consensus::evaluation::{Block, Call, Extrinsic, Header, MAX_TRANSACTIONS_SIZE};
use chainx_consensus::offline_tracker::OfflineTracker;
use chainx_consensus::pool::{greatest_pending_index, PendingTransaction};
use chainx_consensus::proposal::{
    BlockAssembly, CreateProposal, InherentData, ProposeStep, MAX_VOTE_OFFLINE_SECONDS,
};
use chainx_consensus::timing::{ProposalTiming, Readiness};
use chainx_consensus::types::AccountId;

const SECOND: u64 = 1_000_000;
const KIB: usize = 1024;

fn id(n: u8) -> AccountId {
    [n; 32]
}

fn pending(n: u8, encoded_size: usize) -> PendingTransaction {
    PendingTransaction { sender: Some(id(n)), index: n as u64, encoded_size, hash: [n; 32] }
}

fn attempt(start: u64, allow_empty: u64, validators: u8) -> CreateProposal {
    let policy = DynamicInclusion::new(1, start, allow_empty);
    CreateProposal {
        parent_hash: [7; 32],
        parent_number: 10,
        timing: ProposalTiming::new(policy, start, 0),
        validators: (0..validators).map(id).collect(),
    }
}

fn run(mut assembly: BlockAssembly, accepts: &dyn Fn(usize) -> bool) -> (BlockAssembly, Vec<usize>) {
    let mut offered: Vec<usize> = Vec::new();
    loop {
        match assembly.next() {
            ProposeStep::Push(at) => {
                offered.push(at);
                assembly = assembly.pushed(accepts(at));
            }
            ProposeStep::Bake => return (assembly, offered),
        }
    }
}

fn empty_inherent() -> InherentData {
    InherentData { timestamp: 0, offline_indices: Vec::new() }
}

#[test]
fn an_empty_pool_gives_a_block_of_inherents_only() {
    let mut attempt = attempt(0, 6 * SECOND, 4);
    let tracker = OfflineTracker::new(0);
    assert_eq!(attempt.poll(0, 0), Readiness::Pending(6 * SECOND));
    assert_eq!(attempt.poll(6 * SECOND - 1, 0), Readiness::Pending(6 * SECOND));
    assert_eq!(attempt.poll(6 * SECOND, 0), Readiness::Ready);
    let assembly = attempt.propose_with(&tracker, 1234, 6 * SECOND, Vec::new());
    assert_eq!(assembly.inherent_data().timestamp, 1234);
    assert!(assembly.inherent_data().offline_indices.is_empty());
    assert_eq!(assembly.next(), ProposeStep::Bake);
    assert!(assembly.included().is_empty());
    assert!(assembly.unqueue_invalid().is_empty());
    assert_eq!(assembly.pending_size(), 0);
}

#[test]
fn transactions_are_taken_until_one_does_not_fit() {
    let transactions: Vec<PendingTransaction> = (0..10).map(|n| pending(n, 500 * KIB)).collect();
    let (assembly, offered) = run(BlockAssembly::new(empty_inherent(), transactions), &|_| true);
    assert_eq!(offered, vec![0, 1, 2, 3, 4, 5, 6, 7]);
    assert_eq!(assembly.included(), &vec![0usize, 1, 2, 3, 4, 5, 6, 7]);
    assert_eq!(assembly.pending_size(), 8 * 500 * KIB);
    assert!(assembly.pending_size() <= MAX_TRANSACTIONS_SIZE);
    assert!(assembly.unqueue_invalid().is_empty());
    assert_eq!(assembly.next(), ProposeStep::Bake);
}

#[test]
fn nothing_is_offered_behind_one_that_does_not_fit() {
    let transactions =
        vec![pending(0, 3 * KIB * KIB), pending(1, 2 * KIB * KIB), pending(2, 1), pending(3, 1)];
    let (assembly, offered) = run(BlockAssembly::new(empty_inherent(), transactions), &|_| true);
    assert_eq!(offered, vec![0]);
    assert_eq!(assembly.included(), &vec![0usize]);
    assert_eq!(assembly.pending_size(), 3 * KIB * KIB);
}

#[test]
fn a_transaction_may_fill_the_block_to_the_byte() {
    let transactions =
        vec![pending(0, MAX_TRANSACTIONS_SIZE - 1), pending(1, 1), pending(2, 0), pending(3, 1)];
    let (assembly, offered) = run(BlockAssembly::new(empty_inherent(), transactions), &|_| true);
    assert_eq!(offered, vec![0, 1, 2]);
    assert_eq!(assembly.pending_size(), MAX_TRANSACTIONS_SIZE);
    let (assembly, offered) = run(
        BlockAssembly::new(empty_inherent(), vec![pending(0, MAX_TRANSACTIONS_SIZE + 1)]),
        &|_| true,
    );
    assert!(offered.is_empty());
    assert_eq!(assembly.pending_size(), 0);
    let (assembly, offered) = run(
        BlockAssembly::new(empty_inherent(), vec![pending(0, 5), pending(1, usize::MAX)]),
        &|_| true,
    );
    assert_eq!(offered, vec![0]);
    assert_eq!(assembly.pending_size(), 5);
}

#[test]
fn rejected_transactions_are_evicted_and_take_no_room() {
    let transactions: Vec<PendingTransaction> = (0..10).map(|n| pending(n, 500 * KIB)).collect();
    let (assembly, offered) =
        run(BlockAssembly::new(empty_inherent(), transactions), &|at| at % 3 != 1);
    assert_eq!(offered, vec![0, 1, 2, 3, 4, 5, 6, 7, 8, 9]);
    assert_eq!(assembly.included(), &vec![0usize, 2, 3, 5, 6, 8, 9]);
    assert_eq!(assembly.unqueue_invalid(), &vec![[1u8; 32], [4u8; 32], [7u8; 32]]);
    assert_eq!(assembly.pending_size(), 7 * 500 * KIB);
}

#[test]
fn an_answer_without_an_offer_changes_nothing() {
    let assembly = BlockAssembly::new(empty_inherent(), vec![pending(0, MAX_TRANSACTIONS_SIZE + 1)]);
    let assembly = assembly.pushed(true);
    assert!(assembly.included().is_empty());
    assert!(assembly.unqueue_invalid().is_empty());
    assert_eq!(assembly.pending_size(), 0);
    assert_eq!(assembly.next(), ProposeStep::Bake);
}

#[test]
fn offline_validators_are_reported_in_the_inherent_data() {
    let attempt = attempt(100, 6 * SECOND, 6);
    let mut tracker = OfflineTracker::new(0);
    tracker.note_round_end(id(4), false);
    tracker.note_round_end(id(1), false);
    let assembly = attempt.propose_with(&tracker, 55, 100 + 3 * SECOND, vec![pending(0, 1)]);
    assert_eq!(assembly.inherent_data().timestamp, 55);
    assert_eq!(assembly.inherent_data().offline_indices, vec![1u32, 4u32]);
    assert_eq!(assembly.next(), ProposeStep::Push(0));
}

#[test]
fn a_stalled_session_reports_nobody() {
    assert_eq!(MAX_VOTE_OFFLINE_SECONDS, 60);
    let attempt = attempt(100, 6 * SECOND, 6);
    let mut tracker = OfflineTracker::new(0);
    tracker.note_round_end(id(4), false);
    let at_limit = attempt.propose_with(&tracker, 55, 100 + 60 * SECOND, Vec::new());
    assert_eq!(at_limit.inherent_data().offline_indices, vec![4u32]);
    let beyond = attempt.propose_with(&tracker, 55, 101 + 60 * SECOND, Vec::new());
    assert!(beyond.inherent_data().offline_indices.is_empty());
    let before_start = attempt.propose_with(&tracker, 55, 0, Vec::new());
    assert_eq!(before_start.inherent_data().offline_indices, vec![4u32]);
}

#[test]
fn the_baked_block_is_examined_like_any_proposal() {
    let attempt = attempt(0, 6 * SECOND, 2);
    let baked = |number: u64| Block {
        header: Header { parent_hash: [7; 32], number },
        extrinsics: vec![
            Extrinsic { signed: false, function: Call::SetTimestamp(500), encoded_size: 9 },
            Extrinsic { signed: false, function: Call::NoteOffline(vec![]), encoded_size: 2 },
        ],
    };
    let checked = attempt.conclude(baked(11), 500).unwrap();
    assert_eq!(checked.timestamp(), 500);
    assert_eq!(attempt.conclude(baked(12), 500).err(), Some(ErrorKind::WrongNumber));
}

#[test]
fn the_greatest_pending_index_of_an_account_is_found() {
    let none: Option<AccountId> = None;
    let transactions = vec![
        PendingTransaction { sender: Some(id(1)), index: 5, encoded_size: 1, hash: [0; 32] },
        PendingTransaction { sender: Some(id(2)), index: 90, encoded_size: 1, hash: [1; 32] },
        PendingTransaction { sender: none, index: 99, encoded_size: 1, hash: [2; 32] },
        PendingTransaction { sender: Some(id(1)), index: 7, encoded_size: 1, hash: [3; 32] },
        PendingTransaction { sender: Some(id(1)), index: 6, encoded_size: 1, hash: [4; 32] },
    ];
    assert_eq!(greatest_pending_index(&transactions, &id(1)), Some(7));
    assert_eq!(greatest_pending_index(&transactions, &id(2)), Some(90));
    assert_eq!(greatest_pending_index(&transactions, &id(3)), None);
    assert_eq!(greatest_pending_index(&[], &id(1)), None);
}
