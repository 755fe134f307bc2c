//! The readiness signal of a proposal attempt.
//!
//! The caller wakes up at a fixed interval and owns a one-shot delay. At each
//! wake-up it hands over the clock and the count of includable candidates;
//! the timing says whether to propose now, and to which instant the delay is
//! set if not.

use vstd::prelude::*;
use crate::dynamic_inclusion::DynamicInclusion;
use crate::types::Instant;

verus! {

/// Milliseconds between two wake-ups of a proposal attempt.
pub const ATTEMPT_PROPOSE_EVERY: u64 = 100;

/// The answer of a poll.
#[derive(Clone, Copy, Debug, PartialEq, Eq, Structural)]
pub enum Readiness {
    /// Propose now.
    Ready,
    /// Not yet: the one-shot delay fires at this instant.
    Pending(Instant),
}

/// What a one-shot delay set to `deadline` answers at `now`.
pub open spec fn delay_at(deadline: Instant, now: Instant) -> Readiness {
    if now >= deadline {
        Readiness::Ready
    } else {
        Readiness::Pending(deadline)
    }
}

/// Polls a one-shot delay set to `deadline`.
pub fn poll_delay(deadline: Instant, now: Instant) -> (r: Readiness)
    ensures
        r == delay_at(deadline, now),
{
    if now >= deadline {
        Readiness::Ready
    } else {
        Readiness::Pending(deadline)
    }
}

/// The timing of one proposal attempt.
#[derive(Clone, Copy, Debug)]
pub struct ProposalTiming {
    /// The session's waiting policy.
    pub dynamic_inclusion: DynamicInclusion,
    /// The instant to which the one-shot delay is set.
    pub enough_candidates: Instant,
    /// The count of includable candidates at the last change.
    pub last_included: usize,
}

impl ProposalTiming {
    /// The timing of an attempt that begins at `now` with `initial_included`
    /// includable candidates: the delay is set to the instant that the
    /// policy names, or to `now` if it names none.
    pub fn new(dynamic_inclusion: DynamicInclusion, now: Instant, initial_included: usize) -> (r:
        Self)
        ensures
            r.dynamic_inclusion == dynamic_inclusion,
            r.last_included == initial_included,
            r.enough_candidates == (match dynamic_inclusion.acceptable_at(now, initial_included) {
                Some(instant) => instant,
                None => now,
            }),
    {
        let enough_candidates = match dynamic_inclusion.acceptable_in(now, initial_included) {
            Some(instant) => instant,
            None => now,
        };
        ProposalTiming { dynamic_inclusion, enough_candidates, last_included: initial_included }
    }

    /// The timing after a poll at `now` with `included` candidates.
    pub open spec fn after_poll(&self, now: Instant, included: usize) -> ProposalTiming {
        if included == self.last_included {
            *self
        } else {
            match self.dynamic_inclusion.acceptable_at(now, included) {
                Some(instant) => ProposalTiming {
                    dynamic_inclusion: self.dynamic_inclusion,
                    enough_candidates: instant,
                    last_included: included,
                },
                None => *self,
            }
        }
    }

    /// What a poll at `now` with `included` candidates answers.
    pub open spec fn poll_answer(&self, now: Instant, included: usize) -> Readiness {
        if included == self.last_included {
            delay_at(self.enough_candidates, now)
        } else {
            match self.dynamic_inclusion.acceptable_at(now, included) {
                Some(instant) => delay_at(instant, now),
                None => Readiness::Ready,
            }
        }
    }

    /// Whether it is time to attempt a proposal. While the count of
    /// includable candidates stands, the delay alone decides. When it has
    /// changed, the policy is asked again: it either lets the proposal go at
    /// once or names the instant to which the delay is set anew.
    pub fn poll(&mut self, now: Instant, included: usize) -> (r: Readiness)
        ensures
            *final(self) == old(self).after_poll(now, included),
            r == old(self).poll_answer(now, included),
    {
        if included == self.last_included {
            return poll_delay(self.enough_candidates, now);
        }
        match self.dynamic_inclusion.acceptable_in(now, included) {
            Some(instant) => {
                self.last_included = included;
                self.enough_candidates = instant;
                poll_delay(instant, now)
            },
            None => Readiness::Ready,
        }
    }
}

/// A poll that answers `Ready` after the count has changed does so only when
/// the policy finds the block acceptable at that instant, unless the named
/// instant lies beyond what the clock can show.
pub proof fn lemma_ready_after_change_is_acceptable(
    timing: ProposalTiming,
    now: Instant,
    included: usize,
)
    requires
        included != timing.last_included,
        timing.poll_answer(now, included) == Readiness::Ready,
        timing.dynamic_inclusion.start + timing.dynamic_inclusion.valid_after(included)
            <= u64::MAX,
    ensures
        timing.dynamic_inclusion.acceptable_at(now, included) is None,
{
}

/// Whoever is told to wait and polls again at the named instant or later,
/// with the count unchanged, is let go: readiness comes with time alone.
pub proof fn lemma_pending_ends_at_deadline(
    timing: ProposalTiming,
    now: Instant,
    included: usize,
    deadline: Instant,
    later: Instant,
)
    requires
        timing.poll_answer(now, included) == Readiness::Pending(deadline),
        later >= deadline,
    ensures
        timing.after_poll(now, included).poll_answer(later, included) == Readiness::Ready,
{
}

} // verus!
