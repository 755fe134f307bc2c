use chainx_consensus::offline_tracker::{Observed, OfflineTracker};
use chainx_consensus::types::AccountId;

fn id(n: u8) -> AccountId {
    [n; 32]
}

fn ids(count: u8) -> Vec<AccountId> {
    (0..count).map(id).collect()
}

#[test]
fn new_tracker_knows_nobody() {
    let tracker = OfflineTracker::new(2);
    assert_eq!(tracker.tick(), 0);
    assert_eq!(tracker.threshold(), 2);
    assert_eq!(tracker.observed(&id(1)), None);
    assert!(tracker.is_online(&id(1)));
    assert_eq!(tracker.reports(&ids(4)), Vec::<u32>::new());
}

#[test]
fn strikes_cross_the_threshold() {
    let mut tracker = OfflineTracker::new(2);
    tracker.note_round_end(id(7), false);
    assert_eq!(tracker.observed(&id(7)), Some(Observed { last_online: 0, strikes: 1 }));
    assert!(tracker.is_online(&id(7)));
    tracker.note_round_end(id(7), false);
    assert_eq!(tracker.observed(&id(7)), Some(Observed { last_online: 0, strikes: 2 }));
    assert!(tracker.is_online(&id(7)));
    tracker.note_round_end(id(7), false);
    assert_eq!(tracker.observed(&id(7)), Some(Observed { last_online: 0, strikes: 3 }));
    assert!(!tracker.is_online(&id(7)));
    assert_eq!(tracker.tick(), 3);
}

#[test]
fn a_proposal_clears_the_strikes() {
    let mut tracker = OfflineTracker::new(0);
    tracker.note_round_end(id(7), false);
    assert!(!tracker.is_online(&id(7)));
    tracker.note_round_end(id(7), true);
    assert!(tracker.is_online(&id(7)));
    assert_eq!(tracker.observed(&id(7)), Some(Observed { last_online: 2, strikes: 0 }));
}

#[test]
fn round_end_touches_only_the_primary() {
    let mut tracker = OfflineTracker::new(0);
    tracker.note_new_block(&ids(3));
    tracker.note_round_end(id(1), false);
    assert_eq!(tracker.observed(&id(0)), Some(Observed { last_online: 0, strikes: 0 }));
    assert_eq!(tracker.observed(&id(1)), Some(Observed { last_online: 0, strikes: 1 }));
    assert_eq!(tracker.observed(&id(2)), Some(Observed { last_online: 0, strikes: 0 }));
    assert_eq!(tracker.reports(&ids(3)), vec![1u32]);
}

#[test]
fn new_block_keeps_known_adds_new_and_prunes_the_rest() {
    let mut tracker = OfflineTracker::new(0);
    tracker.note_round_end(id(1), false);
    tracker.note_round_end(id(2), false);
    tracker.note_round_end(id(2), false);
    let next: Vec<AccountId> = vec![id(2), id(3), id(2)];
    tracker.note_new_block(&next);
    assert_eq!(tracker.observed(&id(1)), None);
    assert_eq!(tracker.observed(&id(2)), Some(Observed { last_online: 1, strikes: 2 }));
    assert_eq!(tracker.observed(&id(3)), Some(Observed { last_online: 3, strikes: 0 }));
    assert_eq!(tracker.tick(), 3);
    assert_eq!(tracker.threshold(), 0);
    assert!(tracker.is_online(&id(1)));
}

#[test]
fn reports_list_offline_indices_in_rising_order() {
    let mut tracker = OfflineTracker::new(0);
    tracker.note_round_end(id(5), false);
    tracker.note_round_end(id(1), false);
    assert_eq!(tracker.reports(&ids(8)), vec![1u32, 5u32]);
    let twice: Vec<AccountId> = vec![id(5), id(0), id(5)];
    assert_eq!(tracker.reports(&twice), vec![0u32, 2u32]);
    assert_eq!(tracker.reports(&[]), Vec::<u32>::new());
}

#[test]
fn consistency_accepts_claims_within_local_belief() {
    let mut tracker = OfflineTracker::new(0);
    tracker.note_round_end(id(1), false);
    tracker.note_round_end(id(3), false);
    let validators = ids(6);
    assert!(tracker.check_consistency(&validators, &[]));
    assert!(tracker.check_consistency(&validators, &[1]));
    assert!(tracker.check_consistency(&validators, &[3, 1]));
    assert!(tracker.check_consistency(&validators, &[1, 1]));
}

#[test]
fn consistency_refuses_claims_beyond_local_belief() {
    let mut tracker = OfflineTracker::new(0);
    tracker.note_round_end(id(1), false);
    let validators = ids(6);
    assert!(!tracker.check_consistency(&validators, &[2]));
    assert!(!tracker.check_consistency(&validators, &[1, 2]));
    assert!(!tracker.check_consistency(&validators, &[6]));
    assert!(!tracker.check_consistency(&validators, &[u32::MAX]));
    assert!(!tracker.check_consistency(&[], &[0]));
}

#[test]
fn consistency_is_monotone_in_the_claim() {
    let mut tracker = OfflineTracker::new(0);
    tracker.note_round_end(id(1), false);
    tracker.note_round_end(id(3), false);
    tracker.note_round_end(id(4), false);
    let validators = ids(6);
    let claim: [u32; 3] = [4, 1, 3];
    assert!(tracker.check_consistency(&validators, &claim));
    for mask in 0u32..8 {
        let part: Vec<u32> =
            (0..3).filter(|bit| mask & (1u32 << bit) != 0).map(|bit| claim[bit]).collect();
        assert!(tracker.check_consistency(&validators, &part));
    }
}

#[test]
fn own_reports_are_consistent() {
    let mut tracker = OfflineTracker::new(1);
    tracker.note_round_end(id(2), false);
    tracker.note_round_end(id(2), false);
    tracker.note_round_end(id(0), false);
    let validators = ids(4);
    let reports = tracker.reports(&validators);
    assert_eq!(reports, vec![2u32]);
    assert!(tracker.check_consistency(&validators, &reports));
}

#[test]
fn strikes_stop_at_their_greatest_value() {
    let mut tracker = OfflineTracker::new(u32::MAX);
    tracker.note_round_end(id(9), false);
    assert!(tracker.is_online(&id(9)));
    let tracker = OfflineTracker::new(u32::MAX - 1);
    assert!(tracker.is_online(&id(9)));
}
