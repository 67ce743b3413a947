//! The persistence store: targets, mutants and outcomes.
//!
//! The store keeps its rows in memory in the order in which they were
//! added. A target is known by the hash of its text, a mutant by its
//! target, offset, texts and slug, an outcome by its mutant.

use crate::text::{bytes_eq, str_eq};
use crate::types::errors::StoreError;
use crate::types::mutants::{mutant_views, Mutant, MutantView};
use crate::types::outcomes::{Outcome, OutcomeView, Status};
use crate::types::targets::{Target, TargetView};
use vstd::prelude::*;
use vstd::utf8::*;

verus! {

/// The position of the first entry of `keys` that equals `key`, or -1.
pub open spec fn position_of<K>(keys: Seq<K>, key: K) -> int
    decreases keys.len(),
{
    if keys.len() == 0 {
        -1
    } else if position_of(keys.drop_last(), key) >= 0 {
        position_of(keys.drop_last(), key)
    } else if keys.last() == key {
        keys.len() - 1
    } else {
        -1
    }
}

/// What the position of a key is: where the key first occurs.
pub proof fn lemma_position_of<K>(keys: Seq<K>, key: K)
    ensures
        -1 <= position_of(keys, key) < keys.len(),
        position_of(keys, key) >= 0 ==> keys[position_of(keys, key)] == key,
        forall|j: int| 0 <= j < keys.len() && keys[j] == key ==> 0 <= position_of(keys, key) <= j,
    decreases keys.len(),
{
    if keys.len() > 0 {
        lemma_position_of(keys.drop_last(), key);
        assert forall|j: int| 0 <= j < keys.len() && keys[j] == key implies 0 <= position_of(
            keys,
            key,
        ) <= j by {
            if j < keys.len() - 1 {
                assert(keys.drop_last()[j] == key);
            }
        }
    }
}

/// The hashes of the targets.
pub open spec fn hashes_of(targets: Seq<TargetView>) -> Seq<Seq<u8>> {
    targets.map_values(|t: TargetView| t.file_hash)
}

/// The ids of the targets.
pub open spec fn target_ids(targets: Seq<TargetView>) -> Seq<i64> {
    targets.map_values(|t: TargetView| t.id)
}

/// What tells a mutant from every other: its target, offset, texts and slug.
pub open spec fn key_of(m: MutantView) -> (i64, u32, Seq<u8>, Seq<u8>, Seq<char>) {
    (m.target_id, m.byte_offset, m.old_text, m.new_text, m.mutation_slug)
}

/// The keys of the mutants.
pub open spec fn mutant_keys(mutants: Seq<MutantView>) -> Seq<
    (i64, u32, Seq<u8>, Seq<u8>, Seq<char>),
> {
    mutants.map_values(|m: MutantView| key_of(m))
}

/// The ids of the mutants.
pub open spec fn mutant_ids(mutants: Seq<MutantView>) -> Seq<i64> {
    mutants.map_values(|m: MutantView| m.id)
}

/// The mutants that the outcomes are for.
pub open spec fn outcome_keys(outcomes: Seq<OutcomeView>) -> Seq<i64> {
    outcomes.map_values(|o: OutcomeView| o.mutant_id)
}

/// The views of a list of targets.
pub open spec fn target_views(targets: Seq<Target>) -> Seq<TargetView> {
    targets.map_values(|t: Target| t@)
}

/// The views of a list of outcomes.
pub open spec fn outcome_views(outcomes: Seq<Outcome>) -> Seq<OutcomeView> {
    outcomes.map_values(|o: Outcome| o@)
}

/// The rows of the store.
pub struct StoreView {
    pub targets: Seq<TargetView>,
    pub mutants: Seq<MutantView>,
    pub outcomes: Seq<OutcomeView>,
    /// The id that the next new target gets.
    pub next_target_id: i64,
    /// The id that the next new mutant gets.
    pub next_mutant_id: i64,
}

impl StoreView {
    /// No two targets have the same hash or id, no two mutants the same
    /// key or id, and no mutant has two outcomes. Ids are positive
    /// and below the next id.
    pub open spec fn well_formed(self) -> bool {
        &&& hashes_of(self.targets).no_duplicates()
        &&& target_ids(self.targets).no_duplicates()
        &&& mutant_keys(self.mutants).no_duplicates()
        &&& mutant_ids(self.mutants).no_duplicates()
        &&& outcome_keys(self.outcomes).no_duplicates()
        &&& 1 <= self.next_target_id
        &&& 1 <= self.next_mutant_id
        &&& forall|i: int|
            0 <= i < self.targets.len() ==> 1 <= (#[trigger] self.targets[i]).id
                < self.next_target_id
        &&& forall|i: int|
            0 <= i < self.mutants.len() ==> 1 <= (#[trigger] self.mutants[i]).id
                < self.next_mutant_id
    }

    /// The outcome of a mutant.
    pub open spec fn outcome_of(self, mutant_id: i64) -> Option<OutcomeView> {
        let at = position_of(outcome_keys(self.outcomes), mutant_id);
        if at >= 0 {
            Some(self.outcomes[at])
        } else {
            None
        }
    }

    /// The target with an id.
    pub open spec fn target(self, id: i64) -> Option<TargetView> {
        let at = position_of(target_ids(self.targets), id);
        if at >= 0 {
            Some(self.targets[at])
        } else {
            None
        }
    }

    /// The mutant with an id.
    pub open spec fn mutant(self, id: i64) -> Option<MutantView> {
        let at = position_of(mutant_ids(self.mutants), id);
        if at >= 0 {
            Some(self.mutants[at])
        } else {
            None
        }
    }

    /// The store after a target was added, and the id of the target. A
    /// target whose hash the store has keeps its row and its id and takes
    /// the new path; another target gets a new row and the next id.
    pub open spec fn with_target(self, t: TargetView) -> (StoreView, i64) {
        let at = position_of(hashes_of(self.targets), t.file_hash);
        if at >= 0 {
            (
                StoreView {
                    targets: self.targets.update(
                        at,
                        TargetView { path: t.path, ..self.targets[at] },
                    ),
                    ..self
                },
                self.targets[at].id,
            )
        } else {
            (
                StoreView {
                    targets: self.targets.push(TargetView { id: self.next_target_id, ..t }),
                    next_target_id: (self.next_target_id + 1) as i64,
                    ..self
                },
                self.next_target_id,
            )
        }
    }

    /// The store after a mutant was added, and the id of the mutant if
    /// it is new. A mutant whose key the store has changes nothing.
    pub open spec fn with_mutant(self, m: MutantView) -> (StoreView, Option<i64>) {
        if position_of(mutant_keys(self.mutants), key_of(m)) >= 0 {
            (self, None)
        } else {
            (
                StoreView {
                    mutants: self.mutants.push(MutantView { id: self.next_mutant_id, ..m }),
                    next_mutant_id: (self.next_mutant_id + 1) as i64,
                    ..self
                },
                Some(self.next_mutant_id),
            )
        }
    }

    /// The store after an outcome was added: it takes the place of the
    /// outcome that its mutant had, or is a new row.
    pub open spec fn with_outcome(self, o: OutcomeView) -> StoreView {
        let at = position_of(outcome_keys(self.outcomes), o.mutant_id);
        if at >= 0 {
            StoreView { outcomes: self.outcomes.update(at, o), ..self }
        } else {
            StoreView { outcomes: self.outcomes.push(o), ..self }
        }
    }

    /// The mutant has no outcome yet.
    pub open spec fn is_untested(self, m: MutantView) -> bool {
        self.outcome_of(m.id) is None
    }

    /// The mutant's outcome is a timeout, so that it is tested again.
    pub open spec fn is_timed_out(self, m: MutantView) -> bool {
        self.outcome_of(m.id) matches Some(o) && o.status == Status::Timeout
    }

    /// Among the first `n` mutants, those of the target, in their order.
    pub open spec fn mutants_of_upto(self, target_id: i64, n: nat) -> Seq<MutantView>
        decreases n,
    {
        if n == 0 {
            Seq::empty()
        } else if self.mutants[n - 1].target_id == target_id {
            self.mutants_of_upto(target_id, (n - 1) as nat).push(self.mutants[n - 1])
        } else {
            self.mutants_of_upto(target_id, (n - 1) as nat)
        }
    }

    /// The mutants of a target, in the order in which they were added.
    pub open spec fn mutants_of(self, target_id: i64) -> Seq<MutantView> {
        self.mutants_of_upto(target_id, self.mutants.len())
    }

    /// Among the first `n` mutants, those without an outcome.
    pub open spec fn untested_upto(self, n: nat) -> Seq<MutantView>
        decreases n,
    {
        if n == 0 {
            Seq::empty()
        } else if self.is_untested(self.mutants[n - 1]) {
            self.untested_upto((n - 1) as nat).push(self.mutants[n - 1])
        } else {
            self.untested_upto((n - 1) as nat)
        }
    }

    /// Among the first `n` mutants, those whose outcome is a timeout.
    pub open spec fn timed_out_upto(self, n: nat) -> Seq<MutantView>
        decreases n,
    {
        if n == 0 {
            Seq::empty()
        } else if self.is_timed_out(self.mutants[n - 1]) {
            self.timed_out_upto((n - 1) as nat).push(self.mutants[n - 1])
        } else {
            self.timed_out_upto((n - 1) as nat)
        }
    }

    /// Among the first `n` outcomes, those of mutants of the target.
    pub open spec fn outcomes_of_upto(self, target_id: i64, n: nat) -> Seq<OutcomeView>
        decreases n,
    {
        if n == 0 {
            Seq::empty()
        } else if self.mutant(self.outcomes[n - 1].mutant_id) matches Some(m) && m.target_id
            == target_id {
            self.outcomes_of_upto(target_id, (n - 1) as nat).push(self.outcomes[n - 1])
        } else {
            self.outcomes_of_upto(target_id, (n - 1) as nat)
        }
    }

    /// Among the first `n` targets, those with another id.
    pub open spec fn targets_except_upto(self, id: i64, n: nat) -> Seq<TargetView>
        decreases n,
    {
        if n == 0 {
            Seq::empty()
        } else if self.targets[n - 1].id != id {
            self.targets_except_upto(id, (n - 1) as nat).push(self.targets[n - 1])
        } else {
            self.targets_except_upto(id, (n - 1) as nat)
        }
    }

    /// Among the first `n` mutants, those of other targets.
    pub open spec fn mutants_except_upto(self, target_id: i64, n: nat) -> Seq<MutantView>
        decreases n,
    {
        if n == 0 {
            Seq::empty()
        } else if self.mutants[n - 1].target_id != target_id {
            self.mutants_except_upto(target_id, (n - 1) as nat).push(self.mutants[n - 1])
        } else {
            self.mutants_except_upto(target_id, (n - 1) as nat)
        }
    }

    /// The outcome is for a mutant of the target.
    pub open spec fn concerns(self, o: OutcomeView, target_id: i64) -> bool {
        self.mutant(o.mutant_id) matches Some(m) && m.target_id == target_id
    }

    /// Among the first `n` outcomes, those that are not for a mutant of
    /// the target.
    pub open spec fn outcomes_except_upto(self, target_id: i64, n: nat) -> Seq<OutcomeView>
        decreases n,
    {
        if n == 0 {
            Seq::empty()
        } else if !self.concerns(self.outcomes[n - 1], target_id) {
            self.outcomes_except_upto(target_id, (n - 1) as nat).push(self.outcomes[n - 1])
        } else {
            self.outcomes_except_upto(target_id, (n - 1) as nat)
        }
    }

    /// The store without a target: the target is gone, and with it its
    /// mutants and their outcomes. Every other row stays, in its order.
    pub open spec fn without_target(self, id: i64) -> StoreView {
        StoreView {
            targets: self.targets_except_upto(id, self.targets.len()),
            mutants: self.mutants_except_upto(id, self.mutants.len()),
            outcomes: self.outcomes_except_upto(id, self.outcomes.len()),
            ..self
        }
    }

    /// How many of the first `n` mutants of the list have no outcome, and
    /// how many have a timeout.
    pub open spec fn counts_upto(self, mutants: Seq<MutantView>, n: nat) -> (nat, nat)
        decreases n,
    {
        if n == 0 {
            (0, 0)
        } else {
            let (untested, retest) = self.counts_upto(mutants, (n - 1) as nat);
            if self.is_untested(mutants[n - 1]) {
                (untested + 1, retest)
            } else if self.is_timed_out(mutants[n - 1]) {
                (untested, retest + 1)
            } else {
                (untested, retest)
            }
        }
    }
}

/// The rows can be the rows of a store: no two targets have the same hash
/// or id, no two mutants the same key or id, no mutant has two outcomes,
/// and every id is positive and less than the greatest `i64`.
pub open spec fn can_be_rows(
    targets: Seq<TargetView>,
    mutants: Seq<MutantView>,
    outcomes: Seq<OutcomeView>,
) -> bool {
    &&& hashes_of(targets).no_duplicates()
    &&& target_ids(targets).no_duplicates()
    &&& mutant_keys(mutants).no_duplicates()
    &&& mutant_ids(mutants).no_duplicates()
    &&& outcome_keys(outcomes).no_duplicates()
    &&& forall|i: int| 0 <= i < targets.len() ==> 1 <= (#[trigger] targets[i]).id < i64::MAX
    &&& forall|i: int| 0 <= i < mutants.len() ==> 1 <= (#[trigger] mutants[i]).id < i64::MAX
}

/// The store.
pub struct MutonStore {
    targets: Vec<Target>,
    mutants: Vec<Mutant>,
    outcomes: Vec<Outcome>,
    next_target_id: i64,
    next_mutant_id: i64,
}

impl View for MutonStore {
    type V = StoreView;

    closed spec fn view(&self) -> StoreView {
        StoreView {
            targets: target_views(self.targets@),
            mutants: mutant_views(self.mutants@),
            outcomes: outcome_views(self.outcomes@),
            next_target_id: self.next_target_id,
            next_mutant_id: self.next_mutant_id,
        }
    }
}

impl MutonStore {
    /// A store without rows. The first target and the first mutant get
    /// the id 1.
    pub fn new() -> (r: MutonStore)
        ensures
            r@.well_formed(),
            r@.targets.len() == 0,
            r@.mutants.len() == 0,
            r@.outcomes.len() == 0,
            r@.next_target_id == 1,
            r@.next_mutant_id == 1,
    {
        MutonStore {
            targets: Vec::new(),
            mutants: Vec::new(),
            outcomes: Vec::new(),
            next_target_id: 1,
            next_mutant_id: 1,
        }
    }

    /// A store with the given rows, as they were saved from a store
    /// before. Rows that cannot be the rows of a store are refused. The
    /// next target and the next mutant get ids above every id in use.
    pub fn from_rows(targets: Vec<Target>, mutants: Vec<Mutant>, outcomes: Vec<Outcome>) -> (r:
        Result<MutonStore, StoreError>)
        ensures
            match r {
                Ok(store) => store@.well_formed() && store@.targets == target_views(targets@)
                    && store@.mutants == mutant_views(mutants@) && store@.outcomes
                    == outcome_views(outcomes@) && can_be_rows(
                    store@.targets,
                    store@.mutants,
                    store@.outcomes,
                ),
                Err(e) => !can_be_rows(
                    target_views(targets@),
                    mutant_views(mutants@),
                    outcome_views(outcomes@),
                ),
            },
    {
        let ghost all_targets = target_views(targets@);
        let ghost all_mutants = mutant_views(mutants@);
        let ghost all_outcomes = outcome_views(outcomes@);
        let mut store = MutonStore::new();
        let mut k: usize = 0;
        assert(store@.targets =~= all_targets.subrange(0, 0));
        while k < targets.len()
            invariant
                k <= targets@.len(),
                all_targets == target_views(targets@),
                store@.well_formed(),
                store@.targets == all_targets.subrange(0, k as int),
                store@.mutants.len() == 0,
                store@.outcomes.len() == 0,
                store@.next_mutant_id == 1,
                forall|i: int| 0 <= i < k ==> (#[trigger] all_targets[i]).id < i64::MAX,
            decreases targets@.len() - k,
        {
            let ghost before = store@;
            let row = targets[k].duplicate();
            assert(all_targets[k as int] == row@);
            proof {
                lemma_position_of(hashes_of(before.targets), row@.file_hash);
                lemma_position_of(target_ids(before.targets), row.id);
            }
            let known = store.find_target_by_hash(&row.file_hash).is_some() || store.find_target(
                row.id,
            ).is_some();
            if known || row.id < 1 || row.id == i64::MAX {
                proof {
                    if position_of(hashes_of(before.targets), row@.file_hash) >= 0 {
                        let j = position_of(hashes_of(before.targets), row@.file_hash);
                        assert(hashes_of(all_targets)[j] == before.targets[j].file_hash);
                        assert(hashes_of(all_targets)[k as int] == row@.file_hash);
                    } else if position_of(target_ids(before.targets), row.id) >= 0 {
                        let j = position_of(target_ids(before.targets), row.id);
                        assert(target_ids(all_targets)[j] == before.targets[j].id);
                        assert(target_ids(all_targets)[k as int] == row.id);
                    }
                }
                return Err(
                    StoreError::InvalidTarget("the saved targets are not distinct".to_owned()),
                );
            }
            if row.id >= store.next_target_id {
                store.next_target_id = row.id + 1;
            }
            store.targets.push(row);
            proof {
                let pushed = before.targets.push(all_targets[k as int]);
                assert(store@.targets =~= pushed);
                assert(pushed =~= all_targets.subrange(0, k + 1));
                assert(hashes_of(pushed) =~= hashes_of(before.targets).push(
                    all_targets[k as int].file_hash,
                ));
                assert(target_ids(pushed) =~= target_ids(before.targets).push(
                    all_targets[k as int].id,
                ));
                lemma_push_keeps_distinct(
                    hashes_of(before.targets),
                    all_targets[k as int].file_hash,
                );
                lemma_push_keeps_distinct(target_ids(before.targets), all_targets[k as int].id);
                assert forall|i: int| 0 <= i < pushed.len() implies 1 <= (#[trigger] pushed[i]).id
                    < store@.next_target_id by {
                    if i < before.targets.len() {
                        assert(pushed[i] == before.targets[i]);
                    }
                }
            }
            k += 1;
        }
        assert(all_targets.subrange(0, targets@.len() as int) =~= all_targets);
        let mut k: usize = 0;
        assert(store@.mutants =~= all_mutants.subrange(0, 0));
        while k < mutants.len()
            invariant
                k <= mutants@.len(),
                all_mutants == mutant_views(mutants@),
                all_targets == target_views(targets@),
                store@.well_formed(),
                store@.targets == all_targets,
                store@.mutants == all_mutants.subrange(0, k as int),
                store@.outcomes.len() == 0,
                forall|i: int|
                    0 <= i < all_targets.len() ==> (#[trigger] all_targets[i]).id < i64::MAX,
                forall|i: int| 0 <= i < k ==> (#[trigger] all_mutants[i]).id < i64::MAX,
            decreases mutants@.len() - k,
        {
            let ghost before = store@;
            let row = mutants[k].duplicate();
            assert(all_mutants[k as int] == row@);
            proof {
                lemma_position_of(mutant_keys(before.mutants), key_of(row@));
                lemma_position_of(mutant_ids(before.mutants), row.id);
            }
            let known = store.find_mutant_by_key(&row).is_some() || store.find_mutant(
                row.id,
            ).is_some();
            if known || row.id < 1 || row.id == i64::MAX {
                proof {
                    if position_of(mutant_keys(before.mutants), key_of(row@)) >= 0 {
                        let j = position_of(mutant_keys(before.mutants), key_of(row@));
                        assert(mutant_keys(all_mutants)[j] == key_of(before.mutants[j]));
                        assert(mutant_keys(all_mutants)[k as int] == key_of(row@));
                    } else if position_of(mutant_ids(before.mutants), row.id) >= 0 {
                        let j = position_of(mutant_ids(before.mutants), row.id);
                        assert(mutant_ids(all_mutants)[j] == before.mutants[j].id);
                        assert(mutant_ids(all_mutants)[k as int] == row.id);
                    }
                }
                return Err(
                    StoreError::InvalidTarget("the saved mutants are not distinct".to_owned()),
                );
            }
            if row.id >= store.next_mutant_id {
                store.next_mutant_id = row.id + 1;
            }
            store.mutants.push(row);
            proof {
                let pushed = before.mutants.push(all_mutants[k as int]);
                assert(store@.mutants =~= pushed);
                assert(pushed =~= all_mutants.subrange(0, k + 1));
                assert(mutant_keys(pushed) =~= mutant_keys(before.mutants).push(
                    key_of(all_mutants[k as int]),
                ));
                assert(mutant_ids(pushed) =~= mutant_ids(before.mutants).push(
                    all_mutants[k as int].id,
                ));
                lemma_push_keeps_distinct(
                    mutant_keys(before.mutants),
                    key_of(all_mutants[k as int]),
                );
                lemma_push_keeps_distinct(mutant_ids(before.mutants), all_mutants[k as int].id);
                assert forall|i: int| 0 <= i < pushed.len() implies 1 <= (#[trigger] pushed[i]).id
                    < store@.next_mutant_id by {
                    if i < before.mutants.len() {
                        assert(pushed[i] == before.mutants[i]);
                    }
                }
            }
            k += 1;
        }
        assert(all_mutants.subrange(0, mutants@.len() as int) =~= all_mutants);
        let mut k: usize = 0;
        assert(store@.outcomes =~= all_outcomes.subrange(0, 0));
        while k < outcomes.len()
            invariant
                k <= outcomes@.len(),
                all_outcomes == outcome_views(outcomes@),
                all_mutants == mutant_views(mutants@),
                all_targets == target_views(targets@),
                store@.well_formed(),
                store@.targets == all_targets,
                store@.mutants == all_mutants,
                store@.outcomes == all_outcomes.subrange(0, k as int),
                forall|i: int|
                    0 <= i < all_targets.len() ==> (#[trigger] all_targets[i]).id < i64::MAX,
                forall|i: int|
                    0 <= i < all_mutants.len() ==> (#[trigger] all_mutants[i]).id < i64::MAX,
            decreases outcomes@.len() - k,
        {
            let ghost before = store@;
            let row = outcomes[k].duplicate();
            assert(all_outcomes[k as int] == row@);
            proof {
                lemma_position_of(outcome_keys(before.outcomes), row.mutant_id);
            }
            if store.find_outcome(row.mutant_id).is_some() {
                proof {
                    let j = position_of(outcome_keys(before.outcomes), row.mutant_id);
                    assert(outcome_keys(all_outcomes)[j] == before.outcomes[j].mutant_id);
                    assert(outcome_keys(all_outcomes)[k as int] == row.mutant_id);
                }
                return Err(
                    StoreError::InvalidTarget("the saved outcomes are not distinct".to_owned()),
                );
            }
            store.outcomes.push(row);
            proof {
                let pushed = before.outcomes.push(all_outcomes[k as int]);
                assert(store@.outcomes =~= pushed);
                assert(pushed =~= all_outcomes.subrange(0, k + 1));
                assert(outcome_keys(pushed) =~= outcome_keys(before.outcomes).push(
                    all_outcomes[k as int].mutant_id,
                ));
                lemma_push_keeps_distinct(
                    outcome_keys(before.outcomes),
                    all_outcomes[k as int].mutant_id,
                );
            }
            k += 1;
        }
        assert(all_outcomes.subrange(0, outcomes@.len() as int) =~= all_outcomes);
        Ok(store)
    }

    /// Every mutant, in the order in which the mutants were added.
    pub fn get_all_mutants(&self) -> (r: Vec<Mutant>)
        ensures
            mutant_views(r@) == self@.mutants,
    {
        let mut out: Vec<Mutant> = Vec::new();
        let mut k: usize = 0;
        while k < self.mutants.len()
            invariant
                k <= self.mutants@.len(),
                mutant_views(out@) == self@.mutants.subrange(0, k as int),
            decreases self.mutants@.len() - k,
        {
            let ghost earlier = mutant_views(out@);
            assert(self@.mutants[k as int] == self.mutants@[k as int]@);
            out.push(self.mutants[k].duplicate());
            assert(mutant_views(out@) =~= earlier.push(self.mutants@[k as int]@));
            assert(mutant_views(out@) =~= self@.mutants.subrange(0, k + 1));
            k += 1;
        }
        assert(self@.mutants.subrange(0, self.mutants@.len() as int) =~= self@.mutants);
        out
    }

    /// Every outcome, in the order in which the outcomes were first added.
    pub fn get_all_outcomes(&self) -> (r: Vec<Outcome>)
        ensures
            outcome_views(r@) == self@.outcomes,
    {
        let mut out: Vec<Outcome> = Vec::new();
        let mut k: usize = 0;
        while k < self.outcomes.len()
            invariant
                k <= self.outcomes@.len(),
                outcome_views(out@) == self@.outcomes.subrange(0, k as int),
            decreases self.outcomes@.len() - k,
        {
            let ghost earlier = outcome_views(out@);
            assert(self@.outcomes[k as int] == self.outcomes@[k as int]@);
            out.push(self.outcomes[k].duplicate());
            assert(outcome_views(out@) =~= earlier.push(self.outcomes@[k as int]@));
            assert(outcome_views(out@) =~= self@.outcomes.subrange(0, k + 1));
            k += 1;
        }
        assert(self@.outcomes.subrange(0, self.outcomes@.len() as int) =~= self@.outcomes);
        out
    }

    /// Where the target with the hash stands.
    fn find_target_by_hash(&self, hash: &crate::types::hash::Hash) -> (r: Option<usize>)
        ensures
            match r {
                Some(at) => at == position_of(hashes_of(self@.targets), hash@) && at
                    < self.targets@.len(),
                None => position_of(hashes_of(self@.targets), hash@) == -1,
            },
    {
        let ghost keys = hashes_of(self@.targets);
        let mut k: usize = 0;
        while k < self.targets.len()
            invariant
                k <= self.targets@.len(),
                keys == hashes_of(self@.targets),
                keys.len() == self.targets@.len(),
                forall|j: int| 0 <= j < k ==> keys[j] != hash@,
            decreases self.targets@.len() - k,
        {
            assert(keys[k as int] == self.targets@[k as int].file_hash@);
            if self.targets[k].file_hash.same_as(hash) {
                proof {
                    lemma_position_of(keys, hash@);
                }
                return Some(k);
            }
            k += 1;
        }
        proof {
            lemma_position_of(keys, hash@);
        }
        None
    }

    /// Where the target with the id stands.
    fn find_target(&self, id: i64) -> (r: Option<usize>)
        ensures
            match r {
                Some(at) => at == position_of(target_ids(self@.targets), id) && at
                    < self.targets@.len(),
                None => position_of(target_ids(self@.targets), id) == -1,
            },
    {
        let ghost keys = target_ids(self@.targets);
        let mut k: usize = 0;
        while k < self.targets.len()
            invariant
                k <= self.targets@.len(),
                keys == target_ids(self@.targets),
                keys.len() == self.targets@.len(),
                forall|j: int| 0 <= j < k ==> keys[j] != id,
            decreases self.targets@.len() - k,
        {
            assert(keys[k as int] == self.targets@[k as int].id);
            if self.targets[k].id == id {
                proof {
                    lemma_position_of(keys, id);
                }
                return Some(k);
            }
            k += 1;
        }
        proof {
            lemma_position_of(keys, id);
        }
        None
    }

    /// Where the mutant with the id stands.
    fn find_mutant(&self, id: i64) -> (r: Option<usize>)
        ensures
            match r {
                Some(at) => at == position_of(mutant_ids(self@.mutants), id) && at
                    < self.mutants@.len(),
                None => position_of(mutant_ids(self@.mutants), id) == -1,
            },
    {
        let ghost keys = mutant_ids(self@.mutants);
        let mut k: usize = 0;
        while k < self.mutants.len()
            invariant
                k <= self.mutants@.len(),
                keys == mutant_ids(self@.mutants),
                keys.len() == self.mutants@.len(),
                forall|j: int| 0 <= j < k ==> keys[j] != id,
            decreases self.mutants@.len() - k,
        {
            assert(keys[k as int] == self.mutants@[k as int].id);
            if self.mutants[k].id == id {
                proof {
                    lemma_position_of(keys, id);
                }
                return Some(k);
            }
            k += 1;
        }
        proof {
            lemma_position_of(keys, id);
        }
        None
    }

    /// Where the mutant with the same key stands.
    fn find_mutant_by_key(&self, m: &Mutant) -> (r: Option<usize>)
        ensures
            match r {
                Some(at) => at == position_of(mutant_keys(self@.mutants), key_of(m@)) && at
                    < self.mutants@.len(),
                None => position_of(mutant_keys(self@.mutants), key_of(m@)) == -1,
            },
    {
        let ghost keys = mutant_keys(self@.mutants);
        let mut k: usize = 0;
        while k < self.mutants.len()
            invariant
                k <= self.mutants@.len(),
                keys == mutant_keys(self@.mutants),
                keys.len() == self.mutants@.len(),
                forall|j: int| 0 <= j < k ==> keys[j] != key_of(m@),
            decreases self.mutants@.len() - k,
        {
            assert(keys[k as int] == key_of(self.mutants@[k as int]@));
            let row = &self.mutants[k];
            if row.target_id == m.target_id && row.byte_offset == m.byte_offset && bytes_eq(
                row.old_text.as_str().as_bytes(),
                m.old_text.as_str().as_bytes(),
            ) && bytes_eq(row.new_text.as_str().as_bytes(), m.new_text.as_str().as_bytes())
                && str_eq(row.mutation_slug.as_str(), m.mutation_slug.as_str()) {
                proof {
                    lemma_position_of(keys, key_of(m@));
                }
                return Some(k);
            }
            k += 1;
        }
        proof {
            lemma_position_of(keys, key_of(m@));
        }
        None
    }

    /// Where the outcome of the mutant stands.
    fn find_outcome(&self, mutant_id: i64) -> (r: Option<usize>)
        ensures
            match r {
                Some(at) => at == position_of(outcome_keys(self@.outcomes), mutant_id) && at
                    < self.outcomes@.len(),
                None => position_of(outcome_keys(self@.outcomes), mutant_id) == -1,
            },
    {
        let ghost keys = outcome_keys(self@.outcomes);
        let mut k: usize = 0;
        while k < self.outcomes.len()
            invariant
                k <= self.outcomes@.len(),
                keys == outcome_keys(self@.outcomes),
                keys.len() == self.outcomes@.len(),
                forall|j: int| 0 <= j < k ==> keys[j] != mutant_id,
            decreases self.outcomes@.len() - k,
        {
            assert(keys[k as int] == self.outcomes@[k as int].mutant_id);
            if self.outcomes[k].mutant_id == mutant_id {
                proof {
                    lemma_position_of(keys, mutant_id);
                }
                return Some(k);
            }
            k += 1;
        }
        proof {
            lemma_position_of(keys, mutant_id);
        }
        None
    }

    /// Adds a target, or finds it by its hash: see
    /// [`StoreView::with_target`]. The id that the given target carries is
    /// not looked at. A store that has given out every id is full.
    pub fn add_target(&mut self, target: Target) -> (r: Result<i64, StoreError>)
        requires
            old(self)@.well_formed(),
        ensures
            final(self)@.well_formed(),
            match r {
                Ok(id) => (final(self)@, id) == old(self)@.with_target(target@),
                Err(e) => final(self)@ == old(self)@ && position_of(
                    hashes_of(old(self)@.targets),
                    target@.file_hash,
                ) == -1 && old(self)@.next_target_id == i64::MAX,
            },
    {
        let ghost before = self@;
        proof {
            lemma_position_of(hashes_of(before.targets), target@.file_hash);
        }
        match self.find_target_by_hash(&target.file_hash) {
            Some(at) => {
                let id = self.targets[at].id;
                let row = Target {
                    id,
                    path: target.path,
                    file_hash: self.targets[at].file_hash,
                    text: self.targets[at].text.clone(),
                    language: self.targets[at].language,
                };
                self.targets.set(at, row);
                proof {
                    let updated = before.targets.update(
                        at as int,
                        TargetView { path: target@.path, ..before.targets[at as int] },
                    );
                    assert(self@.targets =~= updated);
                    assert(hashes_of(updated) =~= hashes_of(before.targets));
                    assert(target_ids(updated) =~= target_ids(before.targets));
                    assert forall|i: int| 0 <= i < updated.len() implies 1 <= (
                    #[trigger] updated[i]).id < before.next_target_id by {
                        assert(updated[i].id == before.targets[i].id);
                    }
                }
                Ok(id)
            },
            None => {
                if self.next_target_id == i64::MAX {
                    return Err(StoreError::DatabaseError("no target id is left".to_owned()));
                }
                let id = self.next_target_id;
                let row = Target {
                    id,
                    path: target.path,
                    file_hash: target.file_hash,
                    text: target.text,
                    language: target.language,
                };
                self.targets.push(row);
                self.next_target_id = id + 1;
                proof {
                    let pushed = before.targets.push(TargetView { id, ..target@ });
                    assert(self@.targets =~= pushed);
                    assert(hashes_of(pushed) =~= hashes_of(before.targets).push(target@.file_hash));
                    assert(target_ids(pushed) =~= target_ids(before.targets).push(id));
                    lemma_push_keeps_distinct(hashes_of(before.targets), target@.file_hash);
                    assert forall|j: int| 0 <= j < before.targets.len() implies target_ids(
                        before.targets,
                    )[j] != id by {
                        assert(before.targets[j].id < id);
                    }
                    lemma_push_keeps_distinct(target_ids(before.targets), id);
                    assert forall|i: int| 0 <= i < pushed.len() implies 1 <= (
                    #[trigger] pushed[i]).id < id + 1 by {
                        if i < before.targets.len() {
                            assert(pushed[i] == before.targets[i]);
                        }
                    }
                }
                Ok(id)
            },
        }
    }

    /// Adds a mutant unless the store has one with the same target,
    /// offset, texts and slug: see [`StoreView::with_mutant`]. The id of
    /// a new mutant is handed back; `None` says that nothing was added.
    pub fn add_mutant(&mut self, mutant: Mutant) -> (r: Result<Option<i64>, StoreError>)
        requires
            old(self)@.well_formed(),
        ensures
            final(self)@.well_formed(),
            match r {
                Ok(id) => (final(self)@, id) == old(self)@.with_mutant(mutant@),
                Err(e) => final(self)@ == old(self)@ && position_of(
                    mutant_keys(old(self)@.mutants),
                    key_of(mutant@),
                ) == -1 && old(self)@.next_mutant_id == i64::MAX,
            },
    {
        let ghost before = self@;
        proof {
            lemma_position_of(mutant_keys(before.mutants), key_of(mutant@));
        }
        match self.find_mutant_by_key(&mutant) {
            Some(_) => Ok(None),
            None => {
                if self.next_mutant_id == i64::MAX {
                    return Err(StoreError::DatabaseError("no mutant id is left".to_owned()));
                }
                let id = self.next_mutant_id;
                let row = Mutant {
                    id,
                    target_id: mutant.target_id,
                    byte_offset: mutant.byte_offset,
                    line_offset: mutant.line_offset,
                    old_text: mutant.old_text,
                    new_text: mutant.new_text,
                    mutation_slug: mutant.mutation_slug,
                };
                self.mutants.push(row);
                self.next_mutant_id = id + 1;
                proof {
                    let pushed = before.mutants.push(MutantView { id, ..mutant@ });
                    assert(self@.mutants =~= pushed);
                    assert(mutant_keys(pushed) =~= mutant_keys(before.mutants).push(
                        key_of(mutant@),
                    ));
                    assert(mutant_ids(pushed) =~= mutant_ids(before.mutants).push(id));
                    lemma_push_keeps_distinct(mutant_keys(before.mutants), key_of(mutant@));
                    assert forall|j: int| 0 <= j < before.mutants.len() implies mutant_ids(
                        before.mutants,
                    )[j] != id by {
                        assert(before.mutants[j].id < id);
                    }
                    lemma_push_keeps_distinct(mutant_ids(before.mutants), id);
                    assert forall|i: int| 0 <= i < pushed.len() implies 1 <= (
                    #[trigger] pushed[i]).id < id + 1 by {
                        if i < before.mutants.len() {
                            assert(pushed[i] == before.mutants[i]);
                        }
                    }
                }
                Ok(Some(id))
            },
        }
    }

    /// Adds an outcome; it takes the place of the outcome that its mutant
    /// had: see [`StoreView::with_outcome`]. The id of the mutant is
    /// handed back.
    pub fn add_outcome(&mut self, outcome: Outcome) -> (r: i64)
        requires
            old(self)@.well_formed(),
        ensures
            final(self)@.well_formed(),
            final(self)@ == old(self)@.with_outcome(outcome@),
            r == outcome.mutant_id,
            final(self)@.outcome_of(outcome.mutant_id) == Some(outcome@),
    {
        let ghost before = self@;
        let mutant_id = outcome.mutant_id;
        proof {
            lemma_position_of(outcome_keys(before.outcomes), mutant_id);
        }
        match self.find_outcome(mutant_id) {
            Some(at) => {
                self.outcomes.set(at, outcome);
                proof {
                    let updated = before.outcomes.update(at as int, outcome@);
                    assert(self@.outcomes =~= updated);
                    assert(outcome_keys(updated) =~= outcome_keys(before.outcomes));
                    lemma_position_of(outcome_keys(updated), mutant_id);
                }
            },
            None => {
                self.outcomes.push(outcome);
                proof {
                    let pushed = before.outcomes.push(outcome@);
                    assert(self@.outcomes =~= pushed);
                    assert(outcome_keys(pushed) =~= outcome_keys(before.outcomes).push(mutant_id));
                    lemma_push_keeps_distinct(outcome_keys(before.outcomes), mutant_id);
                    lemma_position_of(outcome_keys(pushed), mutant_id);
                    assert(outcome_keys(pushed)[pushed.len() - 1] == mutant_id);
                }
            },
        }
        mutant_id
    }

    /// Removes a target and, with it, its mutants and their outcomes: see
    /// [`StoreView::without_target`]. A target that the store does not
    /// have leaves the targets as they are.
    pub fn remove_target(&mut self, target_id: i64)
        requires
            old(self)@.well_formed(),
        ensures
            final(self)@.well_formed(),
            final(self)@ == old(self)@.without_target(target_id),
    {
        let ghost before = self@;
        // Outcomes first: whether one goes is seen from the mutants.
        let mut outcomes: Vec<Outcome> = Vec::new();
        let ghost mut from: Seq<int> = Seq::empty();
        let mut k: usize = 0;
        assert(outcome_views(outcomes@) =~= Seq::<OutcomeView>::empty());
        while k < self.outcomes.len()
            invariant
                k <= self.outcomes@.len(),
                self@ == before,
                outcome_views(outcomes@) == before.outcomes_except_upto(target_id, k as nat),
                from.len() == outcomes@.len(),
                forall|p: int|
                    0 <= p < from.len() ==> 0 <= #[trigger] from[p] < k && outcomes@[p]@
                        == before.outcomes[from[p]],
                forall|p: int, q: int| 0 <= p < q < from.len() ==> from[p] < from[q],
            decreases self.outcomes@.len() - k,
        {
            let ghost earlier = outcome_views(outcomes@);
            assert(before.outcomes[k as int] == self.outcomes@[k as int]@);
            let goes = match self.find_mutant(self.outcomes[k].mutant_id) {
                Some(at) => {
                    assert(before.mutants[at as int] == self.mutants@[at as int]@);
                    self.mutants[at].target_id == target_id
                },
                None => false,
            };
            if !goes {
                outcomes.push(self.outcomes[k].duplicate());
                proof {
                    from = from.push(k as int);
                }
                assert(outcome_views(outcomes@) =~= earlier.push(self.outcomes@[k as int]@));
            }
            k += 1;
        }
        proof {
            assert(outcome_views(outcomes@).len() == outcomes@.len());
            assert forall|p: int, q: int|
                0 <= p < outcomes@.len() && 0 <= q < outcomes@.len() && p != q implies outcome_keys(
                outcome_views(outcomes@),
            )[p] != outcome_keys(outcome_views(outcomes@))[q] by {
                assert(outcome_keys(before.outcomes)[from[p]] == outcomes@[p]@.mutant_id);
                assert(outcome_keys(before.outcomes)[from[q]] == outcomes@[q]@.mutant_id);
                if p < q {
                    assert(from[p] < from[q]);
                } else {
                    assert(from[q] < from[p]);
                }
            }
        }
        let mut mutants: Vec<Mutant> = Vec::new();
        let ghost mut from: Seq<int> = Seq::empty();
        let mut k: usize = 0;
        assert(mutant_views(mutants@) =~= Seq::<MutantView>::empty());
        while k < self.mutants.len()
            invariant
                k <= self.mutants@.len(),
                self@ == before,
                mutant_views(mutants@) == before.mutants_except_upto(target_id, k as nat),
                from.len() == mutants@.len(),
                forall|p: int|
                    0 <= p < from.len() ==> 0 <= #[trigger] from[p] < k && mutants@[p]@
                        == before.mutants[from[p]],
                forall|p: int, q: int| 0 <= p < q < from.len() ==> from[p] < from[q],
            decreases self.mutants@.len() - k,
        {
            let ghost earlier = mutant_views(mutants@);
            assert(before.mutants[k as int] == self.mutants@[k as int]@);
            if self.mutants[k].target_id != target_id {
                mutants.push(self.mutants[k].duplicate());
                proof {
                    from = from.push(k as int);
                }
                assert(mutant_views(mutants@) =~= earlier.push(self.mutants@[k as int]@));
            }
            k += 1;
        }
        proof {
            let kept = mutant_views(mutants@);
            assert(kept.len() == mutants@.len());
            assert forall|p: int, q: int|
                0 <= p < kept.len() && 0 <= q < kept.len() && p != q implies mutant_keys(kept)[p]
                != mutant_keys(kept)[q] && mutant_ids(kept)[p] != mutant_ids(kept)[q] by {
                assert(mutant_keys(before.mutants)[from[p]] == key_of(mutants@[p]@));
                assert(mutant_keys(before.mutants)[from[q]] == key_of(mutants@[q]@));
                assert(mutant_ids(before.mutants)[from[p]] == mutants@[p]@.id);
                assert(mutant_ids(before.mutants)[from[q]] == mutants@[q]@.id);
                if p < q {
                    assert(from[p] < from[q]);
                } else {
                    assert(from[q] < from[p]);
                }
            }
            assert forall|p: int| 0 <= p < kept.len() implies 1 <= (#[trigger] kept[p]).id
                < before.next_mutant_id by {
                assert(kept[p] == before.mutants[from[p]]);
            }
        }
        let mut targets: Vec<Target> = Vec::new();
        let ghost mut from: Seq<int> = Seq::empty();
        let mut k: usize = 0;
        assert(target_views(targets@) =~= Seq::<TargetView>::empty());
        while k < self.targets.len()
            invariant
                k <= self.targets@.len(),
                self@ == before,
                target_views(targets@) == before.targets_except_upto(target_id, k as nat),
                from.len() == targets@.len(),
                forall|p: int|
                    0 <= p < from.len() ==> 0 <= #[trigger] from[p] < k && targets@[p]@
                        == before.targets[from[p]],
                forall|p: int, q: int| 0 <= p < q < from.len() ==> from[p] < from[q],
            decreases self.targets@.len() - k,
        {
            let ghost earlier = target_views(targets@);
            assert(before.targets[k as int] == self.targets@[k as int]@);
            if self.targets[k].id != target_id {
                targets.push(self.targets[k].duplicate());
                proof {
                    from = from.push(k as int);
                }
                assert(target_views(targets@) =~= earlier.push(self.targets@[k as int]@));
            }
            k += 1;
        }
        proof {
            let kept = target_views(targets@);
            assert(kept.len() == targets@.len());
            assert forall|p: int, q: int|
                0 <= p < kept.len() && 0 <= q < kept.len() && p != q implies hashes_of(kept)[p]
                != hashes_of(kept)[q] && target_ids(kept)[p] != target_ids(kept)[q] by {
                assert(hashes_of(before.targets)[from[p]] == targets@[p]@.file_hash);
                assert(hashes_of(before.targets)[from[q]] == targets@[q]@.file_hash);
                assert(target_ids(before.targets)[from[p]] == targets@[p]@.id);
                assert(target_ids(before.targets)[from[q]] == targets@[q]@.id);
                if p < q {
                    assert(from[p] < from[q]);
                } else {
                    assert(from[q] < from[p]);
                }
            }
            assert forall|p: int| 0 <= p < kept.len() implies 1 <= (#[trigger] kept[p]).id
                < before.next_target_id by {
                assert(kept[p] == before.targets[from[p]]);
            }
        }
        self.outcomes = outcomes;
        self.mutants = mutants;
        self.targets = targets;
    }

    /// The target with the id.
    pub fn get_target(&self, target_id: i64) -> (r: Result<Target, StoreError>)
        ensures
            match r {
                Ok(t) => self@.target(target_id) == Some(t@),
                Err(e) => self@.target(target_id) is None && (e matches StoreError::NotFound(id)
                    && id == target_id),
            },
    {
        match self.find_target(target_id) {
            Some(at) => Ok(self.targets[at].duplicate()),
            None => Err(StoreError::NotFound(target_id)),
        }
    }

    /// Every target, in the order in which the targets were added.
    pub fn get_all_targets(&self) -> (r: Vec<Target>)
        ensures
            target_views(r@) == self@.targets,
    {
        let mut out: Vec<Target> = Vec::new();
        let mut k: usize = 0;
        while k < self.targets.len()
            invariant
                k <= self.targets@.len(),
                target_views(out@) == self@.targets.subrange(0, k as int),
            decreases self.targets@.len() - k,
        {
            let ghost earlier = target_views(out@);
            assert(self@.targets[k as int] == self.targets@[k as int]@);
            out.push(self.targets[k].duplicate());
            assert(target_views(out@) =~= earlier.push(self.targets@[k as int]@));
            assert(target_views(out@) =~= self@.targets.subrange(0, k + 1));
            k += 1;
        }
        assert(self@.targets.subrange(0, self.targets@.len() as int) =~= self@.targets);
        out
    }

    /// The mutant with the id.
    pub fn get_mutant(&self, id: i64) -> (r: Result<Mutant, StoreError>)
        ensures
            match r {
                Ok(m) => self@.mutant(id) == Some(m@),
                Err(e) => self@.mutant(id) is None && (e matches StoreError::NotFound(missing)
                    && missing == id),
            },
    {
        match self.find_mutant(id) {
            Some(at) => Ok(self.mutants[at].duplicate()),
            None => Err(StoreError::NotFound(id)),
        }
    }

    /// The mutants of a target, in the order in which they were added.
    pub fn get_mutants(&self, target_id: i64) -> (r: Vec<Mutant>)
        ensures
            mutant_views(r@) == self@.mutants_of(target_id),
    {
        let mut out: Vec<Mutant> = Vec::new();
        let mut k: usize = 0;
        assert(mutant_views(out@) =~= Seq::<MutantView>::empty());
        while k < self.mutants.len()
            invariant
                k <= self.mutants@.len(),
                mutant_views(out@) == self@.mutants_of_upto(target_id, k as nat),
            decreases self.mutants@.len() - k,
        {
            let ghost earlier = mutant_views(out@);
            assert(self@.mutants[k as int] == self.mutants@[k as int]@);
            if self.mutants[k].target_id == target_id {
                out.push(self.mutants[k].duplicate());
                assert(mutant_views(out@) =~= earlier.push(self.mutants@[k as int]@));
            }
            k += 1;
        }
        out
    }

    /// The outcome of a mutant, if it has one.
    pub fn get_outcome(&self, mutant_id: i64) -> (r: Option<Outcome>)
        ensures
            match r {
                Some(o) => self@.outcome_of(mutant_id) == Some(o@),
                None => self@.outcome_of(mutant_id) is None,
            },
    {
        match self.find_outcome(mutant_id) {
            Some(at) => Some(self.outcomes[at].duplicate()),
            None => None,
        }
    }

    /// The outcomes of the mutants of a target, in the order in which the
    /// outcomes were first added.
    pub fn get_outcomes(&self, target_id: i64) -> (r: Vec<Outcome>)
        ensures
            outcome_views(r@) == self@.outcomes_of_upto(target_id, self@.outcomes.len()),
    {
        let mut out: Vec<Outcome> = Vec::new();
        let mut k: usize = 0;
        assert(outcome_views(out@) =~= Seq::<OutcomeView>::empty());
        while k < self.outcomes.len()
            invariant
                k <= self.outcomes@.len(),
                outcome_views(out@) == self@.outcomes_of_upto(target_id, k as nat),
            decreases self.outcomes@.len() - k,
        {
            let ghost earlier = outcome_views(out@);
            assert(self@.outcomes[k as int] == self.outcomes@[k as int]@);
            let belongs = match self.find_mutant(self.outcomes[k].mutant_id) {
                Some(at) => {
                    assert(self@.mutants[at as int] == self.mutants@[at as int]@);
                    self.mutants[at].target_id == target_id
                },
                None => false,
            };
            if belongs {
                out.push(self.outcomes[k].duplicate());
                assert(outcome_views(out@) =~= earlier.push(self.outcomes@[k as int]@));
            }
            k += 1;
        }
        out
    }

    /// The mutants that have no outcome, in the order in which they were
    /// added.
    pub fn get_mutants_without_outcomes(&self) -> (r: Vec<Mutant>)
        ensures
            mutant_views(r@) == self@.untested_upto(self@.mutants.len()),
    {
        let mut out: Vec<Mutant> = Vec::new();
        let mut k: usize = 0;
        assert(mutant_views(out@) =~= Seq::<MutantView>::empty());
        while k < self.mutants.len()
            invariant
                k <= self.mutants@.len(),
                mutant_views(out@) == self@.untested_upto(k as nat),
            decreases self.mutants@.len() - k,
        {
            let ghost earlier = mutant_views(out@);
            assert(self@.mutants[k as int] == self.mutants@[k as int]@);
            if self.find_outcome(self.mutants[k].id).is_none() {
                out.push(self.mutants[k].duplicate());
                assert(mutant_views(out@) =~= earlier.push(self.mutants@[k as int]@));
            }
            k += 1;
        }
        out
    }

    /// The mutants to test: those without an outcome, then those whose
    /// outcome is a timeout, each group in the order in which its mutants
    /// were added. With them come the sizes of the two groups.
    pub fn get_mutants_to_test(&self) -> (r: (Vec<Mutant>, usize, usize))
        ensures
            mutant_views(r.0@) == self@.untested_upto(self@.mutants.len()) + self@.timed_out_upto(
                self@.mutants.len(),
            ),
            r.1 == self@.untested_upto(self@.mutants.len()).len(),
            r.2 == self@.timed_out_upto(self@.mutants.len()).len(),
    {
        let mut all = self.get_mutants_without_outcomes();
        let untested_count = all.len();
        let ghost untested = mutant_views(all@);
        assert(untested.len() == all@.len());
        let mut retest_count: usize = 0;
        let mut k: usize = 0;
        assert(untested + Seq::<MutantView>::empty() =~= untested);
        while k < self.mutants.len()
            invariant
                k <= self.mutants@.len(),
                retest_count == self@.timed_out_upto(k as nat).len(),
                retest_count <= k,
                mutant_views(all@) == untested + self@.timed_out_upto(k as nat),
            decreases self.mutants@.len() - k,
        {
            let ghost earlier = self@.timed_out_upto(k as nat);
            assert(self@.mutants[k as int] == self.mutants@[k as int]@);
            let timed_out = match self.find_outcome(self.mutants[k].id) {
                Some(at) => {
                    assert(self@.outcomes[at as int] == self.outcomes@[at as int]@);
                    matches!(self.outcomes[at].status, Status::Timeout)
                },
                None => false,
            };
            if timed_out {
                let ghost so_far = mutant_views(all@);
                all.push(self.mutants[k].duplicate());
                assert(mutant_views(all@) =~= so_far.push(self.mutants@[k as int]@));
                assert(mutant_views(all@) =~= untested + earlier.push(self.mutants@[k as int]@));
                retest_count += 1;
            }
            k += 1;
        }
        (all, untested_count, retest_count)
    }

    /// How many mutants of a target have no outcome, and how many have a
    /// timeout and are tested again.
    pub fn get_mutant_test_counts(&self, target_id: i64) -> (r: (usize, usize))
        ensures
            (r.0 as nat, r.1 as nat) == self@.counts_upto(
                self@.mutants_of(target_id),
                self@.mutants_of(target_id).len(),
            ),
    {
        let mutants = self.get_mutants(target_id);
        let ghost views = mutant_views(mutants@);
        assert(views.len() == mutants@.len());
        let mut untested_count: usize = 0;
        let mut retest_count: usize = 0;
        let mut k: usize = 0;
        while k < mutants.len()
            invariant
                k <= mutants@.len(),
                views == mutant_views(mutants@),
                views.len() == mutants@.len(),
                untested_count + retest_count <= k,
                (untested_count as nat, retest_count as nat) == self@.counts_upto(views, k as nat),
            decreases mutants@.len() - k,
        {
            assert(views[k as int] == mutants@[k as int]@);
            match self.find_outcome(mutants[k].id) {
                None => {
                    untested_count += 1;
                },
                Some(at) => {
                    assert(self@.outcomes[at as int] == self.outcomes@[at as int]@);
                    if matches!(self.outcomes[at].status, Status::Timeout) {
                        retest_count += 1;
                    }
                },
            }
            k += 1;
        }
        (untested_count, retest_count)
    }
}

/// A key that a list of distinct keys does not hold can be added to it.
pub proof fn lemma_push_keeps_distinct<K>(keys: Seq<K>, key: K)
    requires
        keys.no_duplicates(),
        forall|j: int| 0 <= j < keys.len() ==> keys[j] != key,
    ensures
        keys.push(key).no_duplicates(),
{
}

/// Content-addressed target identity. Adding the same file twice gives
/// the same id and leaves the store as it was after the first time; adding
/// it once more under another path gives the same id again, and the
/// target with that id then has the new path.
pub proof fn lemma_target_identity(store: StoreView, target: TargetView, moved_to: Seq<char>)
    requires
        store.well_formed(),
        store.next_target_id < i64::MAX,
    ensures
        ({
            let (first, id) = store.with_target(target);
            let (second, again) = first.with_target(target);
            let (third, moved) = second.with_target(TargetView { path: moved_to, ..target });
            &&& again == id
            &&& second == first
            &&& moved == id
            &&& third.target(id) matches Some(row) && row.path == moved_to && row.file_hash
                == target.file_hash && row.id == id
        }),
{
    let (first, id) = store.with_target(target);
    lemma_position_of(hashes_of(store.targets), target.file_hash);
    let at = position_of(hashes_of(store.targets), target.file_hash);
    // Where the target stands after the first call.
    let place = if at >= 0 {
        at
    } else {
        store.targets.len() as int
    };
    assert(hashes_of(first.targets)[place] == target.file_hash);
    assert forall|j: int| 0 <= j < place implies hashes_of(first.targets)[j]
        != target.file_hash by {
        assert(hashes_of(first.targets)[j] == hashes_of(store.targets)[j]);
    }
    lemma_position_of(hashes_of(first.targets), target.file_hash);
    assert(position_of(hashes_of(first.targets), target.file_hash) == place);
    assert(first.targets[place].id == id);
    assert(first.targets[place].path == target.path);
    let (second, again) = first.with_target(target);
    assert(second.targets =~= first.targets);
    let moved_target = TargetView { path: moved_to, ..target };
    let (third, moved) = second.with_target(moved_target);
    assert(third.targets[place].id == id);
    assert(third.targets[place].path == moved_to);
    assert(target_ids(third.targets)[place] == id);
    // No earlier target has the id.
    assert forall|j: int| 0 <= j < place implies target_ids(third.targets)[j] != id by {
        assert(third.targets[j] == first.targets[j]);
        assert(first.targets[j] == store.targets[j]);
        if at >= 0 {
            assert(target_ids(store.targets)[j] == store.targets[j].id);
            assert(target_ids(store.targets)[at] == store.targets[at].id);
        } else {
            assert(store.targets[j].id < store.next_target_id);
        }
    }
    lemma_position_of(target_ids(third.targets), id);
}

/// Outcome upsert. However many outcomes are added for a mutant, the store
/// has one outcome for it, the last one; the number of outcomes grows by
/// one at most.
pub proof fn lemma_outcome_upsert(store: StoreView, earlier: OutcomeView, later: OutcomeView)
    requires
        store.well_formed(),
        earlier.mutant_id == later.mutant_id,
    ensures
        ({
            let once = store.with_outcome(earlier);
            let twice = once.with_outcome(later);
            &&& outcome_keys(once.outcomes).no_duplicates()
            &&& outcome_keys(twice.outcomes).no_duplicates()
            &&& once.outcome_of(earlier.mutant_id) == Some(earlier)
            &&& twice.outcome_of(later.mutant_id) == Some(later)
            &&& twice.outcomes.len() == once.outcomes.len()
            &&& once.outcomes.len() <= store.outcomes.len() + 1
            &&& forall|id: i64|
                id != later.mutant_id ==> twice.outcome_of(id) == store.outcome_of(id)
        }),
{
    let id = earlier.mutant_id;
    let once = store.with_outcome(earlier);
    lemma_outcome_added(store, earlier);
    lemma_outcome_added(once, later);
    let twice = once.with_outcome(later);
    assert forall|other: i64| other != id implies twice.outcome_of(other) == store.outcome_of(
        other,
    ) by {
        lemma_outcome_of_others(store, earlier, other);
        lemma_outcome_of_others(once, later, other);
    }
}

/// After an outcome was added, it is the outcome of its mutant, and no
/// mutant has two outcomes.
pub proof fn lemma_outcome_added(store: StoreView, o: OutcomeView)
    requires
        outcome_keys(store.outcomes).no_duplicates(),
    ensures
        outcome_keys(store.with_outcome(o).outcomes).no_duplicates(),
        store.with_outcome(o).outcome_of(o.mutant_id) == Some(o),
        store.outcome_of(o.mutant_id) is Some ==> store.with_outcome(o).outcomes.len()
            == store.outcomes.len(),
        store.outcome_of(o.mutant_id) is None ==> store.with_outcome(o).outcomes.len()
            == store.outcomes.len() + 1,
{
    let keys = outcome_keys(store.outcomes);
    lemma_position_of(keys, o.mutant_id);
    let at = position_of(keys, o.mutant_id);
    let after = store.with_outcome(o).outcomes;
    if at >= 0 {
        assert(outcome_keys(after) =~= keys);
    } else {
        assert(outcome_keys(after) =~= keys.push(o.mutant_id));
        lemma_push_keeps_distinct(keys, o.mutant_id);
        assert(outcome_keys(after)[after.len() - 1] == o.mutant_id);
    }
    lemma_position_of(outcome_keys(after), o.mutant_id);
}

/// Adding an outcome for one mutant leaves the outcomes of the others.
pub proof fn lemma_outcome_of_others(store: StoreView, o: OutcomeView, other: i64)
    requires
        other != o.mutant_id,
    ensures
        store.with_outcome(o).outcome_of(other) == store.outcome_of(other),
{
    let keys = outcome_keys(store.outcomes);
    lemma_position_of(keys, o.mutant_id);
    lemma_position_of(keys, other);
    let at = position_of(keys, o.mutant_id);
    let after = store.with_outcome(o).outcomes;
    if at >= 0 {
        assert(outcome_keys(after) =~= keys);
        if position_of(keys, other) >= 0 {
            assert(keys[position_of(keys, other)] == other);
        }
    } else {
        assert(outcome_keys(after) =~= keys.push(o.mutant_id));
        lemma_position_of(keys.push(o.mutant_id), other);
        let p = position_of(keys.push(o.mutant_id), other);
        if p >= 0 {
            assert(keys.push(o.mutant_id)[p] == other);
            assert(p < keys.len());
            assert(keys[p] == other);
        }
        if position_of(keys, other) >= 0 {
            assert(keys.push(o.mutant_id)[position_of(keys, other)] == other);
        }
    }
}

} // verus!
