use vstd::prelude::*;

use crate::error::ReputationError;
use crate::identity::Identity;

verus! {

/// The largest score an identity can hold.
pub const MAX_SCORE: u32 = 100;

/// The score that `scores` holds for `id`: the stored value, or 0 where none is stored.
pub open spec fn score_in(scores: Map<Seq<u8>, nat>, id: Seq<u8>) -> nat {
    if scores.contains_key(id) {
        scores[id]
    } else {
        0
    }
}

/// Every stored score lies in `0..=100`.
pub open spec fn scores_bounded(scores: Map<Seq<u8>, nat>) -> bool {
    forall|id: Seq<u8>| #[trigger] scores.contains_key(id) ==> scores[id] <= MAX_SCORE
}

/// `after` holds the same score as `before` for every identity but `id`.
pub open spec fn unchanged_except(
    before: Map<Seq<u8>, nat>,
    after: Map<Seq<u8>, nat>,
    id: Seq<u8>,
) -> bool {
    forall|other: Seq<u8>| other != id ==> #[trigger] score_in(after, other) == score_in(before, other)
}

/// The scores that a list of persisted records describes; where an identity
/// occurs twice, the later record wins.
pub open spec fn records_view(records: Seq<(Identity, u32)>) -> Map<Seq<u8>, nat>
    decreases records.len(),
{
    if records.len() == 0 {
        Map::empty()
    } else {
        records_view(records.drop_last()).insert(
            records.last().0@,
            records.last().1 as nat,
        )
    }
}

struct ScoreEntry {
    identity: Identity,
    score: u32,
}

/// The mapping from identity to score. An identity without an entry has score 0.
pub struct ScoreLedger {
    entries: Vec<ScoreEntry>,
    scores: Ghost<Map<Seq<u8>, nat>>,
}

impl View for ScoreLedger {
    type V = Map<Seq<u8>, nat>;

    closed spec fn view(&self) -> Map<Seq<u8>, nat> {
        self.scores@
    }
}

impl ScoreLedger {
    /// Identities are stored once each, every stored score lies in `0..=100`,
    /// and the entries hold exactly the scores of the view.
    pub closed spec fn wf(&self) -> bool {
        let e = self.entries@;
        let m = self.scores@;
        &&& forall|i: int, j: int|
            0 <= i < j < e.len() ==> e[i].identity@ != e[j].identity@
        &&& forall|i: int|
            0 <= i < e.len() ==> #[trigger] m.contains_key(e[i].identity@) && m[e[i].identity@]
                == e[i].score as nat && e[i].score <= MAX_SCORE
        &&& forall|id: Seq<u8>|
            #[trigger] m.contains_key(id) ==> exists|i: int|
                0 <= i < e.len() && e[i].identity@ == id
    }

    pub fn new() -> (r: ScoreLedger)
        ensures
            r.wf(),
            r@ == Map::<Seq<u8>, nat>::empty(),
    {
        ScoreLedger { entries: Vec::new(), scores: Ghost(Map::empty()) }
    }

    /// Rebuilds the ledger that persisted records describe; `OutOfBounds` where a
    /// record holds a score above 100.
    pub fn restore(records: &Vec<(Identity, u32)>) -> (r: Result<ScoreLedger, ReputationError>)
        ensures
            r is Ok <==> forall|i: int| 0 <= i < records@.len() ==> #[trigger] records@[i].1 <= MAX_SCORE,
            r is Ok ==> r->Ok_0.wf() && r->Ok_0@ == records_view(records@),
            r is Err ==> r == Err::<ScoreLedger, _>(ReputationError::OutOfBounds),
    {
        let mut ledger = ScoreLedger::new();
        let mut i: usize = 0;
        while i < records.len()
            invariant
                i <= records@.len(),
                ledger.wf(),
                ledger@ == records_view(records@.subrange(0, i as int)),
                forall|j: int| 0 <= j < i ==> #[trigger] records@[j].1 <= MAX_SCORE,
            decreases records@.len() - i,
        {
            let record = &records[i];
            if record.1 > MAX_SCORE {
                return Err(ReputationError::OutOfBounds);
            }
            ledger.store(&record.0, record.1);
            proof {
                let next = records@.subrange(0, i + 1);
                assert(next.drop_last() =~= records@.subrange(0, i as int));
                assert(next.last() == records@[i as int]);
            }
            i = i + 1;
        }
        assert(records@.subrange(0, records@.len() as int) =~= records@);
        Ok(ledger)
    }

    /// In a well-formed ledger every stored score lies in `0..=100`.
    pub proof fn lemma_bounded(&self)
        requires
            self.wf(),
        ensures
            scores_bounded(self@),
    {
        assert forall|id: Seq<u8>| #[trigger] self@.contains_key(id) implies self@[id]
            <= MAX_SCORE by {
            let i = choose|i: int| 0 <= i < self.entries@.len() && self.entries@[i].identity@ == id;
            assert(self.scores@.contains_key(self.entries@[i].identity@));
        }
    }

    fn find(&self, id: &Identity) -> (r: Option<usize>)
        requires
            self.wf(),
        ensures
            match r {
                Some(i) => i < self.entries@.len() && self.entries@[i as int].identity@ == id@,
                None => !self@.contains_key(id@),
            },
    {
        let mut i: usize = 0;
        while i < self.entries.len()
            invariant
                i <= self.entries@.len(),
                forall|j: int| 0 <= j < i ==> self.entries@[j].identity@ != id@,
            decreases self.entries@.len() - i,
        {
            if self.entries[i].identity.same(id) {
                return Some(i);
            }
            i = i + 1;
        }
        None
    }

    /// The score of `id`, 0 where none was stored.
    pub fn get_score(&self, id: &Identity) -> (r: u32)
        requires
            self.wf(),
        ensures
            r as nat == score_in(self@, id@),
            r <= MAX_SCORE,
    {
        match self.find(id) {
            Some(i) => {
                assert(self.scores@.contains_key(self.entries@[i as int].identity@));
                self.entries[i].score
            },
            None => 0,
        }
    }

    /// Stores `score` for `id`, in place of what it held.
    fn store(&mut self, id: &Identity, score: u32)
        requires
            old(self).wf(),
            score <= MAX_SCORE,
        ensures
            final(self).wf(),
            final(self)@ == old(self)@.insert(id@, score as nat),
    {
        let ghost m = self.scores@.insert(id@, score as nat);
        match self.find(id) {
            Some(i) => {
                let entry = ScoreEntry { identity: id.clone(), score };
                self.entries.set(i, entry);
                proof {
                    let e = self.entries@;
                    assert forall|j: int| 0 <= j < e.len() implies #[trigger] e[j].identity@
                        == old(self).entries@[j].identity@ by {
                        if j != i {
                            assert(old(self).entries@[j] == e[j]);
                        }
                    }
                    assert forall|j: int| 0 <= j < e.len() implies #[trigger] m.contains_key(
                        e[j].identity@,
                    ) && m[e[j].identity@] == e[j].score as nat && e[j].score <= MAX_SCORE by {
                        if j != i {
                            assert(old(self).entries@[j] == e[j]);
                            assert(old(self).scores@.contains_key(
                                old(self).entries@[j].identity@,
                            ));
                        }
                    }
                    assert forall|k: Seq<u8>| #[trigger] m.contains_key(k) implies exists|j: int|
                        0 <= j < e.len() && e[j].identity@ == k by {
                        if k != id@ {
                            let j = choose|j: int|
                                0 <= j < old(self).entries@.len()
                                    && old(self).entries@[j].identity@ == k;
                            assert(e[j].identity@ == k);
                        } else {
                            assert(e[i as int].identity@ == k);
                        }
                    }
                }
                self.scores = Ghost(m);
                assert(self.wf());
            },
            None => {
                let entry = ScoreEntry { identity: id.clone(), score };
                self.entries.push(entry);
                proof {
                    let e = self.entries@;
                    let n = old(self).entries@.len();
                    assert(e[n as int].identity@ == id@);
                    assert forall|j: int| 0 <= j < n implies #[trigger] e[j] == old(
                        self,
                    ).entries@[j] && e[j].identity@ != id@ by {
                        assert(old(self).scores@.contains_key(old(self).entries@[j].identity@));
                    }
                    assert forall|a: int, b: int| 0 <= a < b < e.len() implies e[a].identity@
                        != e[b].identity@ by {
                        if b < n {
                            assert(e[a] == old(self).entries@[a]);
                            assert(e[b] == old(self).entries@[b]);
                        }
                    }
                    assert forall|j: int| 0 <= j < e.len() implies #[trigger] m.contains_key(
                        e[j].identity@,
                    ) && m[e[j].identity@] == e[j].score as nat && e[j].score <= MAX_SCORE by {
                        if j < n {
                            assert(old(self).scores@.contains_key(
                                old(self).entries@[j].identity@,
                            ));
                        }
                    }
                    assert forall|k: Seq<u8>| #[trigger] m.contains_key(k) implies exists|j: int|
                        0 <= j < e.len() && e[j].identity@ == k by {
                        if k != id@ {
                            let j = choose|j: int|
                                0 <= j < old(self).entries@.len()
                                    && old(self).entries@[j].identity@ == k;
                            assert(e[j].identity@ == k);
                        } else {
                            assert(e[n as int].identity@ == k);
                        }
                    }
                }
                self.scores = Ghost(m);
                assert(self.wf());
            },
        }
    }

    /// Overwrites the score of `id` with `score`, which must lie in `0..=100`.
    pub fn set_score(&mut self, id: &Identity, score: u32) -> (r: Result<(), ReputationError>)
        requires
            old(self).wf(),
        ensures
            final(self).wf(),
            scores_bounded(final(self)@),
            unchanged_except(old(self)@, final(self)@, id@),
            r is Err ==> final(self)@ == old(self)@,
            score <= MAX_SCORE ==> r is Ok && final(self)@ == old(self)@.insert(id@, score as nat),
            score > MAX_SCORE ==> r == Err::<(), _>(ReputationError::OutOfBounds) && final(self)@
                == old(self)@,
    {
        if score > MAX_SCORE {
            proof {
                self.lemma_bounded();
            }
            return Err(ReputationError::OutOfBounds);
        }
        self.store(id, score);
        proof {
            self.lemma_bounded();
        }
        Ok(())
    }

    /// Adds `delta` to the score of `id`; fails with `Overflow`, changing nothing,
    /// where the sum would exceed 100.
    pub fn increase_score(&mut self, id: &Identity, delta: u32) -> (r: Result<
        (),
        ReputationError,
    >)
        requires
            old(self).wf(),
        ensures
            final(self).wf(),
            scores_bounded(final(self)@),
            unchanged_except(old(self)@, final(self)@, id@),
            r is Err ==> final(self)@ == old(self)@,
            score_in(old(self)@, id@) + delta <= MAX_SCORE ==> r is Ok && final(self)@ == old(
                self,
            )@.insert(id@, (score_in(old(self)@, id@) + delta) as nat),
            score_in(old(self)@, id@) + delta > MAX_SCORE ==> r == Err::<(), _>(
                ReputationError::Overflow,
            ) && final(self)@ == old(self)@,
    {
        let current = self.get_score(id);
        if delta > MAX_SCORE - current {
            proof {
                self.lemma_bounded();
            }
            return Err(ReputationError::Overflow);
        }
        self.store(id, current + delta);
        proof {
            self.lemma_bounded();
        }
        Ok(())
    }

    /// Subtracts `delta` from the score of `id`; fails with `Underflow`, changing
    /// nothing, where the difference would be negative.
    pub fn decrease_score(&mut self, id: &Identity, delta: u32) -> (r: Result<
        (),
        ReputationError,
    >)
        requires
            old(self).wf(),
        ensures
            final(self).wf(),
            scores_bounded(final(self)@),
            unchanged_except(old(self)@, final(self)@, id@),
            r is Err ==> final(self)@ == old(self)@,
            delta <= score_in(old(self)@, id@) ==> r is Ok && final(self)@ == old(self)@.insert(
                id@,
                (score_in(old(self)@, id@) - delta) as nat,
            ),
            delta > score_in(old(self)@, id@) ==> r == Err::<(), _>(ReputationError::Underflow)
                && final(self)@ == old(self)@,
    {
        let current = self.get_score(id);
        if delta > current {
            proof {
                self.lemma_bounded();
            }
            return Err(ReputationError::Underflow);
        }
        self.store(id, current - delta);
        proof {
            self.lemma_bounded();
        }
        Ok(())
    }
}

} // verus!
