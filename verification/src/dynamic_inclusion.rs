//! When an emptier block becomes acceptable.
//!
//! A session would like `initial` includable candidates in its block. The
//! fewer it has, the longer it waits before proposing: with none it waits
//! the whole `allow_empty` delay, and each candidate takes an equal share
//! off that delay.

use vstd::prelude::*;
use crate::types::Instant;

verus! {

/// The waiting policy of one session: a line that falls from the full delay,
/// with no candidate, by one step for each includable candidate.
#[derive(Clone, Copy, Debug)]
pub struct DynamicInclusion {
    /// When the session began.
    pub start: Instant,
    /// Microseconds to wait, from `start`, with no candidate at all.
    pub full_delay: u64,
    /// Microseconds that each includable candidate takes off the wait.
    pub step: u64,
}

impl DynamicInclusion {
    /// Microseconds after `start` from which a block with `included`
    /// candidates is acceptable.
    pub open spec fn valid_after(&self, included: usize) -> int {
        if self.step * included >= self.full_delay {
            0
        } else {
            self.full_delay - self.step * included
        }
    }

    /// Microseconds that have passed since `start`; none if the clock shows
    /// an earlier instant.
    pub open spec fn elapsed(&self, now: Instant) -> int {
        if now >= self.start {
            now - self.start
        } else {
            0
        }
    }

    /// The instant from which a block with `included` candidates is
    /// acceptable, as far as the clock can show it.
    pub open spec fn deadline(&self, included: usize) -> Instant {
        if self.start + self.valid_after(included) <= u64::MAX {
            (self.start + self.valid_after(included)) as u64
        } else {
            u64::MAX
        }
    }

    /// `None` when a block with `included` candidates is acceptable at
    /// `now`, else the instant to wait for.
    pub open spec fn acceptable_at(&self, now: Instant, included: usize) -> Option<Instant> {
        if self.elapsed(now) >= self.valid_after(included) {
            None
        } else {
            Some(self.deadline(included))
        }
    }

    /// The policy of a session that began at `start`, hopes for `initial`
    /// candidates and accepts an empty block `allow_empty` microseconds
    /// later. A session that hopes for none never waits.
    pub fn new(initial: usize, start: Instant, allow_empty: u64) -> (r: Self)
        ensures
            r.start == start,
            initial == 0 ==> r.full_delay == 0 && r.step == 0,
            initial != 0 ==> r.full_delay == allow_empty && r.step == allow_empty as int
                / initial as int,
    {
        if initial != 0 {
            DynamicInclusion { start, full_delay: allow_empty, step: allow_empty / (initial as u64) }
        } else {
            DynamicInclusion { start, full_delay: 0, step: 0 }
        }
    }

    /// When the session began.
    pub fn started_at(&self) -> (r: Instant)
        ensures
            r == self.start,
    {
        self.start
    }

    /// Whether a block with `included` candidates may be proposed at `now`:
    /// `None` if it may, else the instant at which to ask again.
    pub fn acceptable_in(&self, now: Instant, included: usize) -> (r: Option<Instant>)
        ensures
            r == self.acceptable_at(now, included),
    {
        let elapsed = if now >= self.start {
            now - self.start
        } else {
            0
        };
        let valid_after = match self.step.checked_mul(included as u64) {
            Some(cut) => if cut >= self.full_delay {
                0
            } else {
                self.full_delay - cut
            },
            None => 0,
        };
        if elapsed >= valid_after {
            None
        } else {
            match self.start.checked_add(valid_after) {
                Some(instant) => Some(instant),
                None => Some(u64::MAX),
            }
        }
    }
}

/// More candidates never mean a longer wait.
pub proof fn lemma_valid_after_falls(policy: DynamicInclusion, fewer: usize, more: usize)
    requires
        fewer <= more,
    ensures
        0 <= policy.valid_after(more) <= policy.valid_after(fewer),
        policy.deadline(more) <= policy.deadline(fewer),
{
    assert(policy.step * fewer <= policy.step * more) by (nonlinear_arith)
        requires
            fewer <= more,
            policy.step >= 0,
    ;
}

/// Once a block is acceptable it stays so, as time goes on and the count of
/// candidates does not fall.
pub proof fn lemma_acceptable_stays(
    policy: DynamicInclusion,
    earlier: Instant,
    later: Instant,
    fewer: usize,
    more: usize,
)
    requires
        earlier <= later,
        fewer <= more,
        policy.acceptable_at(earlier, fewer) is None,
    ensures
        policy.acceptable_at(later, more) is None,
{
    lemma_valid_after_falls(policy, fewer, more);
}

/// A higher count of candidates never postpones the proposal: where the
/// lower count need not wait, the higher need not either, and where both
/// wait, the higher count's instant is no later.
pub proof fn lemma_more_included_no_later(
    policy: DynamicInclusion,
    now: Instant,
    fewer: usize,
    more: usize,
)
    requires
        fewer <= more,
    ensures
        policy.acceptable_at(now, fewer) is None ==> policy.acceptable_at(now, more) is None,
        policy.acceptable_at(now, fewer) is Some && policy.acceptable_at(now, more) is Some
            ==> policy.acceptable_at(now, more).unwrap() <= policy.acceptable_at(
            now,
            fewer,
        ).unwrap(),
{
    lemma_valid_after_falls(policy, fewer, more);
}

/// Whoever waits for the instant that was named finds the block acceptable
/// then, unless the clock cannot show that instant.
pub proof fn lemma_deadline_is_enough(policy: DynamicInclusion, now: Instant, included: usize)
    requires
        policy.acceptable_at(now, included) is Some,
        policy.start + policy.valid_after(included) <= u64::MAX,
    ensures
        now < policy.deadline(included),
        policy.acceptable_at(policy.deadline(included), included) is None,
{
}

} // verus!
