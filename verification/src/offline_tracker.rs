//! The liveness book: which validators are judged offline.
//!
//! Every round has a primary. When a round ends without a proposal the
//! primary earns a strike; a proposal clears its strikes. A validator with
//! more strikes than the tracker's threshold is judged offline.

use vstd::prelude::*;
use crate::types::{same_bytes, AccountId};

verus! {

/// What the tracker remembers of one validator.
#[derive(Clone, Copy, Debug, PartialEq, Eq, Structural)]
pub struct Observed {
    /// The tick at which the validator was last seen online.
    pub last_online: u64,
    /// Rounds in a row that the validator let pass as primary.
    pub strikes: u32,
}

/// One line of the book.
#[derive(Clone, Copy, Debug)]
pub struct Entry {
    pub id: AccountId,
    pub observed: Observed,
}

/// Whether line `i` of `entries` belongs to `id`.
pub open spec fn line_of(entries: Seq<Entry>, id: Seq<u8>, i: int) -> bool {
    0 <= i < entries.len() && entries[i].id@ == id
}

/// Whether `id` has a line in `entries`.
pub open spec fn has_line(entries: Seq<Entry>, id: Seq<u8>) -> bool {
    exists|i: int| line_of(entries, id, i)
}

/// No validator has two lines.
pub open spec fn distinct_ids(entries: Seq<Entry>) -> bool {
    forall|i: int, j: int| 0 <= i < j < entries.len() ==> entries[i].id@ != entries[j].id@
}

/// The book as a map from validator to record.
pub open spec fn book_of(entries: Seq<Entry>) -> Map<Seq<u8>, Observed> {
    Map::new(
        |id: Seq<u8>| has_line(entries, id),
        |id: Seq<u8>| entries[choose|i: int| line_of(entries, id, i)].observed,
    )
}

/// The record of a validator that the tracker has not met before `tick`.
pub open spec fn fresh_record(tick: u64) -> Observed {
    Observed { last_online: tick, strikes: 0 }
}

/// The tick that follows `tick`; the counter stops at its greatest value.
pub open spec fn next_tick(tick: u64) -> u64 {
    if tick < u64::MAX {
        (tick + 1) as u64
    } else {
        tick
    }
}

/// A record after its validator's round as primary has ended at `tick`.
pub open spec fn record_after_round(before: Observed, tick: u64, was_online: bool) -> Observed {
    if was_online {
        Observed { last_online: tick, strikes: 0 }
    } else {
        Observed {
            last_online: before.last_online,
            strikes: if before.strikes < u32::MAX {
                (before.strikes + 1) as u32
            } else {
                before.strikes
            },
        }
    }
}

/// Whether some validator of the list has this id.
pub open spec fn listed(validators: Seq<AccountId>, id: Seq<u8>) -> bool {
    exists|i: int| 0 <= i < validators.len() && (#[trigger] validators[i])@ == id
}

proof fn lemma_book_line(entries: Seq<Entry>, i: int)
    requires
        distinct_ids(entries),
        0 <= i < entries.len(),
    ensures
        book_of(entries).contains_key(entries[i].id@),
        book_of(entries)[entries[i].id@] == entries[i].observed,
{
    let id = entries[i].id@;
    assert(line_of(entries, id, i));
    let j = choose|j: int| line_of(entries, id, j);
    assert(line_of(entries, id, j));
    assert(j == i) by {
        if j < i {
            assert(entries[j].id@ != entries[i].id@);
        } else if i < j {
            assert(entries[i].id@ != entries[j].id@);
        }
    }
}

proof fn lemma_book_absent(entries: Seq<Entry>, id: Seq<u8>)
    requires
        forall|i: int| 0 <= i < entries.len() ==> entries[i].id@ != id,
    ensures
        !book_of(entries).contains_key(id),
{
    assert forall|i: int| !line_of(entries, id, i) by {}
}

/// The line of `id` in `entries`, if it has one.
fn find_line(entries: &Vec<Entry>, id: &AccountId) -> (r: Option<usize>)
    ensures
        match r {
            Some(i) => line_of(entries@, id@, i as int),
            None => forall|i: int| 0 <= i < entries.len() ==> entries@[i].id@ != id@,
        },
{
    let mut i: usize = 0;
    while i < entries.len()
        invariant
            i <= entries.len(),
            forall|k: int| 0 <= k < i ==> entries@[k].id@ != id@,
        decreases entries.len() - i,
    {
        if same_bytes(&entries[i].id, id) {
            return Some(i);
        }
        i += 1;
    }
    None
}

/// The liveness book of the validators.
pub struct OfflineTracker {
    entries: Vec<Entry>,
    tick: u64,
    threshold: u32,
}

impl View for OfflineTracker {
    type V = Map<Seq<u8>, Observed>;

    closed spec fn view(&self) -> Map<Seq<u8>, Observed> {
        book_of(self.entries@)
    }
}

impl OfflineTracker {
    #[verifier::type_invariant]
    spec fn well_formed(self) -> bool {
        distinct_ids(self.entries@)
    }

    /// Round ends noted so far.
    pub closed spec fn spec_tick(&self) -> u64 {
        self.tick
    }

    /// Strikes that a validator may have and still count as online.
    pub closed spec fn spec_threshold(&self) -> u32 {
        self.threshold
    }

    /// A validator is judged offline when the book knows it and its strikes
    /// have crossed the threshold.
    pub open spec fn is_offline(&self, id: Seq<u8>) -> bool {
        self@.contains_key(id) && self@[id].strikes > self.spec_threshold()
    }

    /// The record that a round end leaves for `id`.
    pub open spec fn observed_after(&self, id: Seq<u8>, was_online: bool) -> Observed {
        let before = if self@.contains_key(id) {
            self@[id]
        } else {
            fresh_record(self.spec_tick())
        };
        record_after_round(before, next_tick(self.spec_tick()), was_online)
    }

    /// The book after a new block: one record for each listed validator, the
    /// old one where there was one, and none for anybody else.
    pub open spec fn book_after_new_block(&self, validators: Seq<AccountId>) -> Map<
        Seq<u8>,
        Observed,
    > {
        Map::new(
            |id: Seq<u8>| listed(validators, id),
            |id: Seq<u8>|
                if self@.contains_key(id) {
                    self@[id]
                } else {
                    fresh_record(self.spec_tick())
                },
        )
    }

    /// `after` is this tracker once it has taken up the validators of a
    /// new block.
    pub open spec fn new_block_noted(&self, after: OfflineTracker, validators: Seq<AccountId>) -> bool {
        &&& after@ == self.book_after_new_block(validators)
        &&& after.spec_tick() == self.spec_tick()
        &&& after.spec_threshold() == self.spec_threshold()
    }

    /// `after` is this tracker once it has noted the end of a round whose
    /// primary was `validator`.
    pub open spec fn round_end_noted(
        &self,
        after: OfflineTracker,
        validator: Seq<u8>,
        was_online: bool,
    ) -> bool {
        &&& after@ == self@.insert(validator, self.observed_after(validator, was_online))
        &&& after.spec_tick() == next_tick(self.spec_tick())
        &&& after.spec_threshold() == self.spec_threshold()
    }

    /// The indices of `validators`, in rising order, whose validator is
    /// judged offline.
    pub open spec fn offline_indices(&self, validators: Seq<AccountId>) -> Seq<u32>
        decreases validators.len(),
    {
        if validators.len() == 0 {
            Seq::empty()
        } else {
            let front = self.offline_indices(validators.drop_last());
            if self.is_offline(validators.last()@) {
                front.push((validators.len() - 1) as u32)
            } else {
                front
            }
        }
    }

    /// Every claimed index names a listed validator that is judged offline.
    pub open spec fn consistent(&self, validators: Seq<AccountId>, claimed: Seq<u32>) -> bool {
        forall|k: int|
            0 <= k < claimed.len() ==> (#[trigger] claimed[k]) < validators.len()
                && self.is_offline(validators[claimed[k] as int]@)
    }

    /// An empty book. A validator is judged offline once its strikes exceed
    /// `threshold`.
    pub fn new(threshold: u32) -> (t: Self)
        ensures
            t@ == Map::<Seq<u8>, Observed>::empty(),
            t.spec_tick() == 0,
            t.spec_threshold() == threshold,
    {
        let t = OfflineTracker { entries: Vec::new(), tick: 0, threshold };
        assert(t@ =~= Map::<Seq<u8>, Observed>::empty());
        t
    }

    /// Round ends noted so far.
    pub fn tick(&self) -> (r: u64)
        ensures
            r == self.spec_tick(),
    {
        self.tick
    }

    /// Strikes that a validator may have and still count as online.
    pub fn threshold(&self) -> (r: u32)
        ensures
            r == self.spec_threshold(),
    {
        self.threshold
    }

    /// The record kept for a validator.
    pub fn observed(&self, validator: &AccountId) -> (r: Option<Observed>)
        ensures
            r == (if self@.contains_key(validator@) {
                Some(self@[validator@])
            } else {
                None
            }),
    {
        proof {
            use_type_invariant(self);
        }
        match find_line(&self.entries, validator) {
            Some(i) => {
                proof {
                    lemma_book_line(self.entries@, i as int);
                }
                Some(self.entries[i].observed)
            },
            None => {
                proof {
                    lemma_book_absent(self.entries@, validator@);
                }
                None
            },
        }
    }

    /// Whether the validator counts as online. One that the book does not
    /// know does.
    pub fn is_online(&self, validator: &AccountId) -> (r: bool)
        ensures
            r == !self.is_offline(validator@),
    {
        match self.observed(validator) {
            Some(seen) => seen.strikes <= self.threshold,
            None => true,
        }
    }

    /// Takes up the validator set of a new parent block. Every listed
    /// validator has a record afterwards: the one it had, or a fresh one.
    /// Validators that are no longer listed are forgotten.
    pub fn note_new_block(&mut self, validators: &[AccountId])
        ensures
            old(self).new_block_noted(*final(self), validators@),
    {
        proof {
            use_type_invariant(&*self);
        }
        let mut kept: Vec<Entry> = Vec::new();
        let mut i: usize = 0;
        while i < validators.len()
            invariant
                i <= validators.len(),
                distinct_ids(self.entries@),
                distinct_ids(kept@),
                *self == *old(self),
                forall|k: int|
                    0 <= k < kept.len() ==> listed(validators@.take(i as int), #[trigger] kept@[k].id@),
                forall|k: int| 0 <= k < i ==> has_line(kept@, (#[trigger] validators@[k])@),
                forall|k: int|
                    0 <= k < kept.len() ==> (#[trigger] kept@[k]).observed == (if self@.contains_key(
                        kept@[k].id@,
                    ) {
                        self@[kept@[k].id@]
                    } else {
                        fresh_record(self.spec_tick())
                    }),
            decreases validators.len() - i,
        {
            let id = validators[i];
            let ghost before = kept@;
            match find_line(&kept, &id) {
                Some(j) => {
                    assert(line_of(kept@, validators@[i as int]@, j as int));
                },
                None => {
                    let observed = match find_line(&self.entries, &id) {
                        Some(j) => {
                            proof {
                                lemma_book_line(self.entries@, j as int);
                            }
                            self.entries[j].observed
                        },
                        None => {
                            proof {
                                lemma_book_absent(self.entries@, id@);
                            }
                            Observed { last_online: self.tick, strikes: 0 }
                        },
                    };
                    kept.push(Entry { id, observed });
                    assert(line_of(kept@, validators@[i as int]@, kept.len() - 1));
                },
            }
            proof {
                assert forall|k: int| 0 <= k < kept.len() implies listed(
                    validators@.take(i + 1),
                    #[trigger] kept@[k].id@,
                ) by {
                    if k < before.len() {
                        let w = choose|w: int|
                            0 <= w < validators@.take(i as int).len() && (
                            #[trigger] validators@.take(i as int)[w])@ == before[k].id@;
                        assert(validators@.take(i + 1)[w]@ == kept@[k].id@);
                    } else {
                        assert(validators@.take(i + 1)[i as int]@ == kept@[k].id@);
                    }
                }
                assert forall|k: int| 0 <= k < i + 1 implies has_line(
                    kept@,
                    (#[trigger] validators@[k])@,
                ) by {
                    if k < i {
                        let j = choose|j: int| line_of(before, validators@[k]@, j);
                        assert(line_of(kept@, validators@[k]@, j));
                    }
                }
            }
            i += 1;
        }
        proof {
            assert(validators@.take(i as int) =~= validators@);
            let goal = old(self).book_after_new_block(validators@);
            assert forall|id: Seq<u8>| book_of(kept@).contains_key(id) <==> goal.contains_key(
                id,
            ) by {
                if book_of(kept@).contains_key(id) {
                    let j = choose|j: int| line_of(kept@, id, j);
                    assert(listed(validators@, kept@[j].id@));
                }
                if goal.contains_key(id) {
                    let k = choose|k: int|
                        0 <= k < validators@.len() && (#[trigger] validators@[k])@ == id;
                    let j = choose|j: int| line_of(kept@, validators@[k]@, j);
                    assert(line_of(kept@, id, j));
                }
            }
            assert forall|id: Seq<u8>| book_of(kept@).contains_key(id) implies book_of(kept@)[id]
                == goal[id] by {
                let j = choose|j: int| line_of(kept@, id, j);
                lemma_book_line(kept@, j);
            }
            assert(book_of(kept@) =~= goal);
        }
        self.entries = kept;
    }

    /// Notes the end of a round whose primary was `validator`. Only that
    /// validator's record changes: a primary that was online has its strikes
    /// cleared, one that was not earns a strike.
    pub fn note_round_end(&mut self, validator: AccountId, was_online: bool)
        ensures
            old(self).round_end_noted(*final(self), validator@, was_online),
            was_online ==> !final(self).is_offline(validator@),
    {
        proof {
            use_type_invariant(&*self);
        }
        let tick = if self.tick < u64::MAX {
            self.tick + 1
        } else {
            self.tick
        };
        let found = find_line(&self.entries, &validator);
        let before = match found {
            Some(i) => {
                proof {
                    lemma_book_line(self.entries@, i as int);
                }
                self.entries[i].observed
            },
            None => {
                proof {
                    lemma_book_absent(self.entries@, validator@);
                }
                Observed { last_online: self.tick, strikes: 0 }
            },
        };
        let after = if was_online {
            Observed { last_online: tick, strikes: 0 }
        } else {
            Observed {
                last_online: before.last_online,
                strikes: if before.strikes < u32::MAX {
                    before.strikes + 1
                } else {
                    before.strikes
                },
            }
        };
        assert(after == old(self).observed_after(validator@, was_online));
        let mut lines: Vec<Entry> = Vec::new();
        let mut i: usize = 0;
        while i < self.entries.len()
            invariant
                i <= self.entries.len(),
                *self == *old(self),
                lines.len() == i,
                forall|k: int|
                    0 <= k < i ==> (#[trigger] lines@[k]).id@ == self.entries@[k].id@
                        && lines@[k].observed == (if found == Some(k as usize) {
                        after
                    } else {
                        self.entries@[k].observed
                    }),
            decreases self.entries.len() - i,
        {
            let line = self.entries[i];
            if found == Some(i) {
                lines.push(Entry { id: line.id, observed: after });
            } else {
                lines.push(line);
            }
            i += 1;
        }
        if found.is_none() {
            lines.push(Entry { id: validator, observed: after });
        }
        proof {
            let was = self.entries@;
            let goal = old(self)@.insert(validator@, after);
            assert(distinct_ids(lines@)) by {
                assert forall|a: int, b: int| 0 <= a < b < lines.len() implies lines@[a].id@
                    != lines@[b].id@ by {
                    if b < was.len() {
                        assert(was[a].id@ != was[b].id@);
                    }
                }
            }
            assert forall|id: Seq<u8>| book_of(lines@).contains_key(id) <==> goal.contains_key(
                id,
            ) by {
                if book_of(lines@).contains_key(id) {
                    let j = choose|j: int| line_of(lines@, id, j);
                    if j < was.len() {
                        assert(line_of(was, id, j));
                    }
                }
                if goal.contains_key(id) {
                    if id == validator@ {
                        match found {
                            Some(w) => {
                                assert(line_of(lines@, id, w as int));
                            },
                            None => {
                                assert(line_of(lines@, id, lines.len() - 1));
                            },
                        }
                    } else {
                        let j = choose|j: int| line_of(was, id, j);
                        assert(line_of(lines@, id, j));
                    }
                }
            }
            assert forall|id: Seq<u8>| book_of(lines@).contains_key(id) implies book_of(lines@)[id]
                == goal[id] by {
                let j = choose|j: int| line_of(lines@, id, j);
                lemma_book_line(lines@, j);
                if j < was.len() {
                    lemma_book_line(was, j);
                }
            }
            assert(book_of(lines@) =~= goal);
        }
        self.entries = lines;
        self.tick = tick;
    }

    /// The indices, within `validators`, of those judged offline, in rising
    /// order.
    pub fn reports(&self, validators: &[AccountId]) -> (r: Vec<u32>)
        requires
            validators.len() <= u32::MAX,
        ensures
            r@ == self.offline_indices(validators@),
    {
        let mut out: Vec<u32> = Vec::new();
        let mut i: usize = 0;
        while i < validators.len()
            invariant
                i <= validators.len() <= u32::MAX,
                out@ == self.offline_indices(validators@.take(i as int)),
            decreases validators.len() - i,
        {
            proof {
                let upto = validators@.take(i + 1);
                assert(upto.drop_last() =~= validators@.take(i as int));
                assert(upto.last() == validators@[i as int]);
            }
            if !self.is_online(&validators[i]) {
                out.push(i as u32);
            }
            i += 1;
        }
        assert(validators@.take(i as int) =~= validators@);
        out
    }

    /// Whether every claimed index names a validator of the list that this
    /// tracker judges offline too. Validators that the tracker judges
    /// offline and the claim leaves out are no objection.
    pub fn check_consistency(&self, validators: &[AccountId], claimed_offline: &[u32]) -> (r:
        bool)
        ensures
            r == self.consistent(validators@, claimed_offline@),
    {
        let mut k: usize = 0;
        while k < claimed_offline.len()
            invariant
                k <= claimed_offline.len(),
                forall|j: int|
                    0 <= j < k ==> (#[trigger] claimed_offline@[j]) < validators.len()
                        && self.is_offline(validators@[claimed_offline@[j] as int]@),
            decreases claimed_offline.len() - k,
        {
            let index = claimed_offline[k] as usize;
            if index >= validators.len() {
                return false;
            }
            if self.is_online(&validators[index]) {
                return false;
            }
            k += 1;
        }
        true
    }
}

/// A tracker that accepts a claim accepts every claim that names only
/// indices of the first.
pub proof fn lemma_consistency_monotone(
    tracker: OfflineTracker,
    validators: Seq<AccountId>,
    claimed: Seq<u32>,
    fewer: Seq<u32>,
)
    requires
        tracker.consistent(validators, claimed),
        forall|k: int| 0 <= k < fewer.len() ==> claimed.contains(#[trigger] fewer[k]),
    ensures
        tracker.consistent(validators, fewer),
{
    assert forall|k: int| 0 <= k < fewer.len() implies (#[trigger] fewer[k]) < validators.len()
        && tracker.is_offline(validators[fewer[k] as int]@) by {
        assert(claimed.contains(fewer[k]));
        let j = choose|j: int| 0 <= j < claimed.len() && claimed[j] == fewer[k];
        assert(claimed[j] < validators.len());
    }
}

/// What the tracker reports for a list: the indices come in rising order,
/// and an index is among them exactly when its validator is judged offline.
pub proof fn lemma_offline_indices(tracker: OfflineTracker, validators: Seq<AccountId>)
    requires
        validators.len() <= u32::MAX,
    ensures
        forall|i: int|
            0 <= i < validators.len() ==> (tracker.offline_indices(validators).contains(i as u32)
                <==> tracker.is_offline((#[trigger] validators[i])@)),
        forall|k: int|
            0 <= k < tracker.offline_indices(validators).len() ==> (
            #[trigger] tracker.offline_indices(validators)[k]) < validators.len(),
        forall|a: int, b: int|
            0 <= a < b < tracker.offline_indices(validators).len() ==> tracker.offline_indices(
                validators,
            )[a] < tracker.offline_indices(validators)[b],
    decreases validators.len(),
{
    if validators.len() > 0 {
        let front_list = validators.drop_last();
        let front = tracker.offline_indices(front_list);
        let all = tracker.offline_indices(validators);
        let last = (validators.len() - 1) as u32;
        lemma_offline_indices(tracker, front_list);
        assert forall|i: int| 0 <= i < validators.len() implies (all.contains(i as u32)
            <==> tracker.is_offline((#[trigger] validators[i])@)) by {
            if i < front_list.len() {
                assert(front_list[i] == validators[i]);
                if front.contains(i as u32) {
                    let k = choose|k: int| 0 <= k < front.len() && front[k] == i as u32;
                    assert(all[k] == i as u32);
                }
                if all.contains(i as u32) {
                    let k = choose|k: int| 0 <= k < all.len() && all[k] == i as u32;
                    if k < front.len() {
                        assert(front[k] == i as u32);
                    }
                }
            } else {
                if tracker.is_offline(validators.last()@) {
                    assert(all[all.len() - 1] == last);
                }
                if all.contains(i as u32) {
                    let k = choose|k: int| 0 <= k < all.len() && all[k] == i as u32;
                    if k < front.len() {
                        assert(front[k] < front_list.len());
                    }
                }
            }
        }
        assert forall|k: int| 0 <= k < all.len() implies (#[trigger] all[k]) < validators.len() by {
            if k < front.len() {
                assert(front[k] < front_list.len());
            }
        }
        assert forall|a: int, b: int| 0 <= a < b < all.len() implies all[a] < all[b] by {
            if b < front.len() {
                assert(front[a] < front[b]);
            } else {
                assert(front[a] < front_list.len());
            }
        }
    }
}

/// A claim made of the tracker's own reports is one that it accepts.
pub proof fn lemma_reports_are_consistent(tracker: OfflineTracker, validators: Seq<AccountId>)
    requires
        validators.len() <= u32::MAX,
    ensures
        tracker.consistent(validators, tracker.offline_indices(validators)),
{
    let claimed = tracker.offline_indices(validators);
    lemma_offline_indices(tracker, validators);
    assert forall|k: int| 0 <= k < claimed.len() implies (#[trigger] claimed[k])
        < validators.len() && tracker.is_offline(validators[claimed[k] as int]@) by {
        let i = claimed[k] as int;
        assert(claimed.contains(i as u32));
    }
}

} // verus!
