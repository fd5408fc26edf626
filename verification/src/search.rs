//! The running state of one search: the best characters so far and the
//! number of evaluations made.

use vstd::prelude::*;
use crate::collector::Character;
use crate::collector::CharacterView;
use crate::collector::ResultCollector;
use crate::collector::after_insert;
use crate::progress::PROGRESS_UPDATE_INTERVALL;
use crate::progress::is_progress_due;

verus! {

/// The state that a search threads through its evaluations.
pub struct Search {
    result: ResultCollector,
    counter: u64,
}

/// The contents of the collector after an evaluation: a valid character is
/// offered to it, an invalid one leaves it as it was.
pub open spec fn after_evaluation(
    s: Seq<CharacterView>,
    capacity: nat,
    outcome: Option<CharacterView>,
) -> Seq<CharacterView> {
    match outcome {
        Some(candidate) => after_insert(s, capacity, candidate),
        None => s,
    }
}

/// What an evaluation came to, as plain values.
pub open spec fn outcome_view(outcome: Option<&Character>) -> Option<CharacterView> {
    match outcome {
        Some(character) => Some(character@),
        None => None,
    }
}

impl Search {
    /// The best characters so far, as plain values.
    pub closed spec fn best(&self) -> Seq<CharacterView> {
        self.result@
    }

    /// The number of characters the search retains.
    pub closed spec fn capacity_spec(&self) -> nat {
        self.result.capacity_spec()
    }

    /// The number of evaluations made.
    pub closed spec fn evaluations(&self) -> nat {
        self.counter as nat
    }

    /// The collector is well formed.
    pub closed spec fn wf(&self) -> bool {
        self.result.wf()
    }

    /// A search that has evaluated nothing and retains up to `max_results`
    /// characters.
    pub fn new(max_results: usize) -> (search: Search)
        ensures
            search.wf(),
            search.best() == Seq::<CharacterView>::empty(),
            search.capacity_spec() == max_results,
            search.evaluations() == 0,
    {
        Search { result: ResultCollector::new(max_results), counter: 0 }
    }

    /// The number of evaluations made.
    pub fn counter(&self) -> (counter: u64)
        ensures
            counter == self.evaluations(),
    {
        self.counter
    }

    /// Whether another evaluation can be counted.
    pub fn has_room(&self) -> (room: bool)
        ensures
            room == (self.evaluations() < u64::MAX),
    {
        self.counter < u64::MAX
    }

    /// Takes in one evaluation: a valid character is offered to the
    /// collector, an invalid one only counted. Says whether a progress report
    /// is due, which it is after every full interval of evaluations.
    pub fn record(&mut self, outcome: Option<&Character>) -> (due: bool)
        requires
            old(self).wf(),
            old(self).evaluations() < u64::MAX,
        ensures
            final(self).wf(),
            final(self).capacity_spec() == old(self).capacity_spec(),
            final(self).best() == after_evaluation(
                old(self).best(),
                old(self).capacity_spec(),
                outcome_view(outcome),
            ),
            final(self).evaluations() == old(self).evaluations() + 1,
            due == (final(self).evaluations() % (PROGRESS_UPDATE_INTERVALL as nat) == 0),
    {
        match outcome {
            Some(character) => {
                self.result.insert(character);
            },
            None => {},
        }
        self.counter = self.counter + 1;
        is_progress_due(self.counter)
    }

    /// A copy of the best characters so far, best first.
    pub fn best_characters(&self) -> (best: Vec<Character>)
        ensures
            crate::collector::character_views(best@) == self.best(),
    {
        self.result.best_characters()
    }

    /// Ends the search and hands out its collector.
    pub fn into_result(self) -> (result: ResultCollector)
        ensures
            result@ == self.best(),
            result.capacity_spec() == self.capacity_spec(),
            result.wf() == self.wf(),
    {
        self.result
    }
}

} // verus!
