use chainx_consensus::dynamic_inclusion::DynamicInclusion;
use chainx_consensus::timing::{poll_delay, ProposalTiming, Readiness, ATTEMPT_PROPOSE_EVERY};

const SECOND: u64 = 1_000_000;

#[test]
fn empty_block_is_acceptable_after_the_full_delay() {
    let start: u64 = 10 * SECOND;
    let policy = DynamicInclusion::new(4, start, 6 * SECOND);
    assert_eq!(policy.started_at(), start);
    assert_eq!(policy.full_delay, 6 * SECOND);
    assert_eq!(policy.step, 1_500_000);
    assert_eq!(policy.acceptable_in(start, 0), Some(16 * SECOND));
    assert_eq!(policy.acceptable_in(16 * SECOND - 1, 0), Some(16 * SECOND));
    assert_eq!(policy.acceptable_in(16 * SECOND, 0), None);
    assert_eq!(policy.acceptable_in(99 * SECOND, 0), None);
}

#[test]
fn each_candidate_takes_a_step_off_the_wait() {
    let policy = DynamicInclusion::new(4, 0, 6 * SECOND);
    assert_eq!(policy.acceptable_in(0, 1), Some(4_500_000));
    assert_eq!(policy.acceptable_in(0, 2), Some(3_000_000));
    assert_eq!(policy.acceptable_in(0, 3), Some(1_500_000));
    assert_eq!(policy.acceptable_in(0, 4), None);
    assert_eq!(policy.acceptable_in(0, 5), None);
    assert_eq!(policy.acceptable_in(3_000_000, 2), None);
    assert_eq!(policy.acceptable_in(2_999_999, 2), Some(3_000_000));
}

#[test]
fn the_step_is_rounded_down() {
    let policy = DynamicInclusion::new(3, 0, 10);
    assert_eq!(policy.step, 3);
    assert_eq!(policy.acceptable_in(0, 3), Some(1));
    assert_eq!(policy.acceptable_in(0, 4), None);
}

#[test]
fn a_session_that_hopes_for_none_never_waits() {
    let policy = DynamicInclusion::new(0, 5, 6 * SECOND);
    assert_eq!(policy.full_delay, 0);
    assert_eq!(policy.step, 0);
    assert_eq!(policy.acceptable_in(5, 0), None);
    assert_eq!(policy.acceptable_in(0, 0), None);
}

#[test]
fn a_clock_before_the_start_counts_as_the_start() {
    let policy = DynamicInclusion::new(2, 100, 50);
    assert_eq!(policy.acceptable_in(0, 0), Some(150));
    assert_eq!(policy.acceptable_in(0, 2), None);
}

#[test]
fn instants_beyond_the_clock_are_cut_off() {
    let policy = DynamicInclusion::new(1, u64::MAX - 5, 100);
    assert_eq!(policy.acceptable_in(u64::MAX - 5, 0), Some(u64::MAX));
    let policy = DynamicInclusion { start: 0, full_delay: u64::MAX, step: u64::MAX };
    assert_eq!(policy.acceptable_in(0, 2), None);
    assert_eq!(policy.acceptable_in(0, usize::MAX), None);
}

#[test]
fn acceptance_is_monotone_in_time_and_count() {
    let policy = DynamicInclusion::new(5, 1_000, 10_000);
    for included in 0usize..8 {
        let mut accepted = false;
        let mut last: Option<u64> = None;
        for now in (0u64..14_000).step_by(250) {
            let answer = policy.acceptable_in(now, included);
            if accepted {
                assert_eq!(answer, None);
            }
            accepted = answer.is_none();
            last = answer.or(last);
            let more = policy.acceptable_in(now, included + 1);
            match (answer, more) {
                (None, later) => assert_eq!(later, None),
                (Some(a), Some(b)) => assert!(b <= a),
                (Some(_), None) => {}
            }
        }
        assert!(accepted);
        assert!(last.is_none() || last.unwrap() <= 11_000);
    }
}

#[test]
fn a_delay_fires_at_its_deadline() {
    assert_eq!(poll_delay(10, 9), Readiness::Pending(10));
    assert_eq!(poll_delay(10, 10), Readiness::Ready);
    assert_eq!(poll_delay(10, 11), Readiness::Ready);
    assert_eq!(ATTEMPT_PROPOSE_EVERY, 100);
}

#[test]
fn timing_starts_with_the_named_instant_or_now() {
    let policy = DynamicInclusion::new(2, 0, 6 * SECOND);
    let timing = ProposalTiming::new(policy, SECOND, 0);
    assert_eq!(timing.enough_candidates, 6 * SECOND);
    assert_eq!(timing.last_included, 0);
    let timing = ProposalTiming::new(policy, SECOND, 2);
    assert_eq!(timing.enough_candidates, SECOND);
    assert_eq!(timing.last_included, 2);
}

#[test]
fn poll_with_unchanged_count_polls_the_delay() {
    let policy = DynamicInclusion::new(2, 0, 6 * SECOND);
    let mut timing = ProposalTiming::new(policy, 0, 0);
    assert_eq!(timing.poll(SECOND, 0), Readiness::Pending(6 * SECOND));
    assert_eq!(timing.poll(6 * SECOND - 1, 0), Readiness::Pending(6 * SECOND));
    assert_eq!(timing.poll(6 * SECOND, 0), Readiness::Ready);
    assert_eq!(timing.enough_candidates, 6 * SECOND);
    assert_eq!(timing.last_included, 0);
}

#[test]
fn poll_with_changed_count_resets_the_delay() {
    let policy = DynamicInclusion::new(2, 0, 6 * SECOND);
    let mut timing = ProposalTiming::new(policy, 0, 0);
    assert_eq!(timing.poll(SECOND, 1), Readiness::Pending(3 * SECOND));
    assert_eq!(timing.enough_candidates, 3 * SECOND);
    assert_eq!(timing.last_included, 1);
    assert_eq!(timing.poll(3 * SECOND, 1), Readiness::Ready);
}

#[test]
fn poll_with_enough_candidates_is_ready_at_once() {
    let policy = DynamicInclusion::new(2, 0, 6 * SECOND);
    let mut timing = ProposalTiming::new(policy, 0, 0);
    assert_eq!(timing.poll(1, 2), Readiness::Ready);
    assert_eq!(timing.enough_candidates, 6 * SECOND);
    assert_eq!(timing.last_included, 0);
}
