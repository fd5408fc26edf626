//! The bounded, rank-ordered collection of the best characters seen so far.

use vstd::prelude::*;
use crate::affix::Affix;
use crate::affix::copy_gear;

verus! {

/// A scored build: the gear it wears, the extras combination it was scored
/// with, and its rank score on an integer scale (a higher score is better).
#[derive(Debug)]
pub struct Character {
    pub gear: Vec<Affix>,
    pub combination_id: u32,
    pub score: i64,
}

/// What a `Character` holds, as plain values.
pub struct CharacterView {
    pub gear: Seq<Affix>,
    pub combination_id: u32,
    pub score: i64,
}

impl View for Character {
    type V = CharacterView;

    open spec fn view(&self) -> CharacterView {
        CharacterView { gear: self.gear@, combination_id: self.combination_id, score: self.score }
    }
}

impl Character {
    /// A character with the given gear, combination and score.
    pub fn new(gear: Vec<Affix>, combination_id: u32, score: i64) -> (character: Character)
        ensures
            character@ == (CharacterView { gear: gear@, combination_id, score }),
    {
        Character { gear, combination_id, score }
    }

    /// A copy of this character.
    pub fn snapshot(&self) -> (copy: Character)
        ensures
            copy@ == self@,
    {
        Character {
            gear: copy_gear(self.gear.as_slice()),
            combination_id: self.combination_id,
            score: self.score,
        }
    }
}

/// The characters of a list, as plain values.
pub open spec fn character_views(characters: Seq<Character>) -> Seq<CharacterView> {
    Seq::new(characters.len(), |i: int| characters[i]@)
}

/// Best first: no entry has a lower score than one that follows it.
pub open spec fn ranked(s: Seq<CharacterView>) -> bool {
    forall|i: int, j: int| 0 <= i < j < s.len() ==> s[i].score >= s[j].score
}

/// The number of leading entries whose score is at least `score`: the place
/// where a newcomer with that score goes, behind its equals.
pub open spec fn rank_position(s: Seq<CharacterView>, score: i64) -> nat
    decreases s.len(),
{
    if s.len() == 0 || s[0].score < score {
        0
    } else {
        1 + rank_position(s.drop_first(), score)
    }
}

/// The contents after `candidate` is offered to a collector that holds `s`
/// and has room for `capacity` entries.
pub open spec fn after_insert(
    s: Seq<CharacterView>,
    capacity: nat,
    candidate: CharacterView,
) -> Seq<CharacterView> {
    if s.len() < capacity {
        s.insert(rank_position(s, candidate.score) as int, candidate)
    } else if s.len() > 0 && candidate.score > s.last().score {
        s.drop_last().insert(rank_position(s.drop_last(), candidate.score) as int, candidate)
    } else {
        s
    }
}

/// The character that leaves when `candidate` is offered: none while there is
/// room, else the worst entry if the candidate beats it, else the candidate.
pub open spec fn dropped_by_insert(
    s: Seq<CharacterView>,
    capacity: nat,
    candidate: CharacterView,
) -> Option<CharacterView> {
    if s.len() < capacity {
        None
    } else if s.len() > 0 && candidate.score > s.last().score {
        Some(s.last())
    } else {
        Some(candidate)
    }
}

/// The contents of a collector with room for `capacity` entries after the
/// candidates were offered to it one after another, starting empty.
pub open spec fn after_inserts(capacity: nat, candidates: Seq<CharacterView>) -> Seq<
    CharacterView,
>
    decreases candidates.len(),
{
    if candidates.len() == 0 {
        Seq::empty()
    } else {
        after_insert(
            after_inserts(capacity, candidates.drop_last()),
            capacity,
            candidates.last(),
        )
    }
}

/// How many entries reference the combination `id`.
pub open spec fn count_with_id(s: Seq<CharacterView>, id: int) -> nat
    decreases s.len(),
{
    if s.len() == 0 {
        0
    } else {
        count_with_id(s.drop_last(), id) + if s.last().combination_id == id {
            1nat
        } else {
            0nat
        }
    }
}

/// The histogram of the entries over the combination ids below
/// `combination_count`.
pub open spec fn weighted_combinations(s: Seq<CharacterView>, combination_count: nat) -> Seq<
    usize,
> {
    Seq::new(combination_count, |id: int| count_with_id(s, id) as usize)
}

proof fn lemma_rank_position_bounds(s: Seq<CharacterView>, score: i64)
    ensures
        rank_position(s, score) <= s.len(),
        forall|j: int| 0 <= j < rank_position(s, score) ==> s[j].score >= score,
        rank_position(s, score) < s.len() ==> s[rank_position(s, score) as int].score < score,
    decreases s.len(),
{
    if !(s.len() == 0 || s[0].score < score) {
        let rest = s.drop_first();
        lemma_rank_position_bounds(rest, score);
        let p = rank_position(rest, score) as int;
        assert forall|j: int| 0 <= j < p + 1 implies s[j].score >= score by {
            if j > 0 {
                assert(s[j] == rest[j - 1]);
            }
        }
        if p + 1 < s.len() {
            assert(s[p + 1] == rest[p]);
        }
    }
}

proof fn lemma_rank_position_is(s: Seq<CharacterView>, score: i64, p: int)
    requires
        0 <= p <= s.len(),
        forall|j: int| 0 <= j < p ==> s[j].score >= score,
        p < s.len() ==> s[p].score < score,
    ensures
        rank_position(s, score) == p,
    decreases s.len(),
{
    if p > 0 {
        let rest = s.drop_first();
        assert forall|j: int| 0 <= j < p - 1 implies rest[j].score >= score by {
            assert(rest[j] == s[j + 1]);
        }
        if p - 1 < rest.len() {
            assert(rest[p - 1] == s[p]);
        }
        lemma_rank_position_is(rest, score, p - 1);
    }
}

proof fn lemma_count_bounded(s: Seq<CharacterView>, id: int)
    ensures
        count_with_id(s, id) <= s.len(),
    decreases s.len(),
{
    if s.len() > 0 {
        lemma_count_bounded(s.drop_last(), id);
    }
}

/// Offering a candidate to a ranked collection within its capacity leaves it
/// ranked and within its capacity, and whatever leaves on that occasion has a
/// score that no retained entry is below.
pub proof fn lemma_insert_keeps_best(s: Seq<CharacterView>, capacity: nat, candidate: CharacterView)
    requires
        ranked(s),
        s.len() <= capacity,
    ensures
        ranked(after_insert(s, capacity, candidate)),
        after_insert(s, capacity, candidate).len() <= capacity,
        match dropped_by_insert(s, capacity, candidate) {
            Some(dropped) => after_insert(s, capacity, candidate).len() == s.len()
                && forall|i: int|
                0 <= i < after_insert(s, capacity, candidate).len() ==> (#[trigger] after_insert(
                    s,
                    capacity,
                    candidate,
                )[i]).score >= dropped.score,
            None => after_insert(s, capacity, candidate).len() == s.len() + 1,
        },
{
    let after = after_insert(s, capacity, candidate);
    if s.len() < capacity {
        lemma_insert_ranked(s, candidate);
        lemma_rank_position_bounds(s, candidate.score);
    } else if s.len() > 0 && candidate.score > s.last().score {
        let kept = s.drop_last();
        assert(ranked(kept));
        lemma_insert_ranked(kept, candidate);
        let p = rank_position(kept, candidate.score) as int;
        lemma_rank_position_bounds(kept, candidate.score);
        assert forall|i: int| 0 <= i < after.len() implies (#[trigger] after[i]).score
            >= s.last().score by {
            if i < p {
                assert(after[i] == s[i]);
            } else if i > p {
                assert(after[i] == s[i - 1]);
            }
        }
    } else {
        assert forall|i: int| 0 <= i < after.len() implies (#[trigger] after[i]).score
            >= candidate.score by {
            assert(s[i].score >= s.last().score);
        }
    }
}

proof fn lemma_insert_ranked(s: Seq<CharacterView>, candidate: CharacterView)
    requires
        ranked(s),
    ensures
        ranked(s.insert(rank_position(s, candidate.score) as int, candidate)),
{
    let p = rank_position(s, candidate.score) as int;
    lemma_rank_position_bounds(s, candidate.score);
    let after = s.insert(p, candidate);
    assert forall|i: int, j: int| 0 <= i < j < after.len() implies after[i].score
        >= after[j].score by {
        if j < p {
            assert(after[i] == s[i] && after[j] == s[j]);
        } else if j == p {
            assert(after[i] == s[i]);
        } else if i < p {
            assert(after[i] == s[i] && after[j] == s[j - 1]);
        } else if i == p {
            assert(after[j] == s[j - 1]);
            assert(s[p].score < candidate.score);
        } else {
            assert(after[i] == s[i - 1] && after[j] == s[j - 1]);
        }
    }
}

/// However many candidates are offered, the collection stays ranked and
/// within its capacity: it holds as many entries as were offered, up to its
/// capacity.
pub proof fn lemma_inserts_bounded(capacity: nat, candidates: Seq<CharacterView>)
    ensures
        ranked(after_inserts(capacity, candidates)),
        after_inserts(capacity, candidates).len() <= capacity,
        after_inserts(capacity, candidates).len() == if candidates.len() <= capacity {
            candidates.len()
        } else {
            capacity
        },
    decreases candidates.len(),
{
    if candidates.len() > 0 {
        lemma_inserts_bounded(capacity, candidates.drop_last());
        lemma_insert_keeps_best(
            after_inserts(capacity, candidates.drop_last()),
            capacity,
            candidates.last(),
        );
    }
}

/// Every entry retained is one of the candidates that were offered.
pub proof fn lemma_retained_were_offered(capacity: nat, candidates: Seq<CharacterView>)
    ensures
        forall|i: int|
            0 <= i < after_inserts(capacity, candidates).len() ==> candidates.contains(
                #[trigger] after_inserts(capacity, candidates)[i],
            ),
    decreases candidates.len(),
{
    if candidates.len() > 0 {
        let earlier = candidates.drop_last();
        let before = after_inserts(capacity, earlier);
        let after = after_inserts(capacity, candidates);
        let candidate = candidates.last();
        lemma_retained_were_offered(capacity, earlier);
        lemma_rank_position_bounds(before, candidate.score);
        lemma_rank_position_bounds(before.drop_last(), candidate.score);
        assert(candidates[candidates.len() - 1] == candidate);
        assert forall|i: int| 0 <= i < after.len() implies candidates.contains(
            #[trigger] after[i],
        ) by {
            if after[i] != candidate {
                let j = choose|j: int| 0 <= j < before.len() && before[j] == after[i];
                assert(earlier.contains(before[j]));
                let k = choose|k: int| 0 <= k < earlier.len() && earlier[k] == before[j];
                assert(candidates[k] == after[i]);
            }
        }
    }
}

/// Whatever left the collection when the candidate at position `k` was
/// offered has a score that no entry retained after all the candidates is
/// below: no better candidate is ever given up for a worse one.
pub proof fn lemma_retained_beat_dropped(capacity: nat, candidates: Seq<CharacterView>, k: int)
    requires
        0 <= k < candidates.len(),
    ensures
        match dropped_by_insert(
            after_inserts(capacity, candidates.take(k)),
            capacity,
            candidates[k],
        ) {
            Some(dropped) => forall|i: int|
                0 <= i < after_inserts(capacity, candidates).len() ==> (#[trigger] after_inserts(
                    capacity,
                    candidates,
                )[i]).score >= dropped.score,
            None => true,
        },
    decreases candidates.len(),
{
    let before = after_inserts(capacity, candidates.drop_last());
    lemma_inserts_bounded(capacity, candidates.drop_last());
    lemma_insert_keeps_best(before, capacity, candidates.last());
    if k == candidates.len() - 1 {
        assert(candidates.take(k) =~= candidates.drop_last());
    } else {
        assert(candidates.drop_last().take(k) =~= candidates.take(k));
        lemma_retained_beat_dropped(capacity, candidates.drop_last(), k);
        let at_k = dropped_by_insert(
            after_inserts(capacity, candidates.take(k)),
            capacity,
            candidates[k],
        );
        if let Some(dropped) = at_k {
            lemma_inserts_bounded(capacity, candidates.take(k));
            lemma_insert_keeps_best(
                after_inserts(capacity, candidates.take(k)),
                capacity,
                candidates[k],
            );
            lemma_full_stays_full(capacity, candidates.drop_last(), k);
            lemma_insert_raises_floor(before, capacity, candidates.last(), dropped.score);
        }
    }
}

/// Once an offer made something leave, the collection is full, and it stays
/// full under every later offer.
proof fn lemma_full_stays_full(capacity: nat, candidates: Seq<CharacterView>, k: int)
    requires
        0 <= k < candidates.len(),
        dropped_by_insert(after_inserts(capacity, candidates.take(k)), capacity, candidates[k])
            is Some,
    ensures
        after_inserts(capacity, candidates).len() == capacity,
    decreases candidates.len(),
{
    let before = after_inserts(capacity, candidates.drop_last());
    lemma_inserts_bounded(capacity, candidates.drop_last());
    lemma_insert_keeps_best(before, capacity, candidates.last());
    if k == candidates.len() - 1 {
        assert(candidates.take(k) =~= candidates.drop_last());
    } else {
        assert(candidates.drop_last().take(k) =~= candidates.take(k));
        lemma_full_stays_full(capacity, candidates.drop_last(), k);
    }
}

/// An offer to a full collection never lowers the score of its worst entry.
proof fn lemma_insert_raises_floor(
    s: Seq<CharacterView>,
    capacity: nat,
    candidate: CharacterView,
    floor: i64,
)
    requires
        ranked(s),
        s.len() == capacity,
        forall|i: int| 0 <= i < s.len() ==> (#[trigger] s[i]).score >= floor,
    ensures
        forall|i: int|
            0 <= i < after_insert(s, capacity, candidate).len() ==> (#[trigger] after_insert(
                s,
                capacity,
                candidate,
            )[i]).score >= floor,
{
    let after = after_insert(s, capacity, candidate);
    if s.len() > 0 && candidate.score > s.last().score {
        let kept = s.drop_last();
        let p = rank_position(kept, candidate.score) as int;
        lemma_rank_position_bounds(kept, candidate.score);
        assert(s.last().score >= floor);
        assert forall|i: int| 0 <= i < after.len() implies (#[trigger] after[i]).score >= floor by {
            if i < p {
                assert(after[i] == s[i]);
            } else if i > p {
                assert(after[i] == s[i - 1]);
            }
        }
    }
}

/// At most `capacity` characters, best first.
pub struct ResultCollector {
    best_characters: Vec<Character>,
    capacity: usize,
}

impl View for ResultCollector {
    type V = Seq<CharacterView>;

    closed spec fn view(&self) -> Seq<CharacterView> {
        character_views(self.best_characters@)
    }
}

impl ResultCollector {
    /// The number of characters the collector has room for.
    pub closed spec fn capacity_spec(&self) -> nat {
        self.capacity as nat
    }

    /// The entries are ranked and within the capacity.
    pub open spec fn wf(&self) -> bool {
        ranked(self@) && self@.len() <= self.capacity_spec()
    }

    /// An empty collector with room for `capacity` characters.
    pub fn new(capacity: usize) -> (collector: ResultCollector)
        ensures
            collector.wf(),
            collector@ == Seq::<CharacterView>::empty(),
            collector.capacity_spec() == capacity,
    {
        let collector = ResultCollector { best_characters: Vec::new(), capacity };
        assert(collector@ =~= Seq::<CharacterView>::empty());
        collector
    }

    /// The number of characters the collector has room for.
    pub fn capacity(&self) -> (capacity: usize)
        ensures
            capacity == self.capacity_spec(),
    {
        self.capacity
    }

    /// The number of characters held.
    pub fn len(&self) -> (len: usize)
        ensures
            len == self@.len(),
    {
        self.best_characters.len()
    }

    fn position_for(&self, score: i64) -> (p: usize)
        ensures
            p == rank_position(self@, score),
            p <= self@.len(),
    {
        let mut i: usize = 0;
        while i < self.best_characters.len() && self.best_characters[i].score >= score
            invariant
                i <= self.best_characters.len(),
                forall|j: int| 0 <= j < i ==> self@[j].score >= score,
            decreases self.best_characters.len() - i,
        {
            i += 1;
        }
        proof {
            lemma_rank_position_is(self@, score, i as int);
        }
        i
    }

    /// Offers a character: while there is room it is placed by its score,
    /// behind the entries that score as high; in a full collector it takes
    /// the place of the worst entry if it strictly beats it, and is dropped
    /// otherwise.
    pub fn insert(&mut self, character: &Character)
        requires
            old(self).wf(),
        ensures
            final(self).wf(),
            final(self).capacity_spec() == old(self).capacity_spec(),
            final(self)@ == after_insert(old(self)@, old(self).capacity_spec(), character@),
    {
        proof {
            lemma_insert_keeps_best(self@, self.capacity_spec(), character@);
        }
        let len = self.best_characters.len();
        if len >= self.capacity {
            if len == 0 || character.score <= self.best_characters[len - 1].score {
                return ;
            }
            self.best_characters.pop();
            assert(self@ =~= old(self)@.drop_last());
        }
        let ghost kept = self@;
        let p = self.position_for(character.score);
        self.best_characters.insert(p, character.snapshot());
        assert(self@ =~= kept.insert(p as int, character@));
    }

    /// The collector that results from offering the characters, one after
    /// another, to an empty collector with room for `capacity` of them.
    pub fn collect(capacity: usize, scored: &[Character]) -> (collector: ResultCollector)
        ensures
            collector.wf(),
            collector.capacity_spec() == capacity,
            collector@ == after_inserts(capacity as nat, character_views(scored@)),
    {
        let ghost offered: Seq<CharacterView> = character_views(scored@);
        let mut collector = ResultCollector::new(capacity);
        let mut i: usize = 0;
        while i < scored.len()
            invariant
                i <= scored@.len(),
                offered == character_views(scored@),
                collector.wf(),
                collector.capacity_spec() == capacity,
                collector@ == after_inserts(capacity as nat, offered.take(i as int)),
            decreases scored@.len() - i,
        {
            proof {
                assert(offered.take(i + 1).drop_last() =~= offered.take(i as int));
                assert(offered.take(i + 1).last() == scored@[i as int]@);
            }
            collector.insert(&scored[i]);
            i += 1;
        }
        assert(offered.take(offered.len() as int) =~= offered);
        collector
    }

    /// A copy of the characters held, best first.
    pub fn best_characters(&self) -> (best: Vec<Character>)
        ensures
            character_views(best@) == self@,
    {
        let mut best: Vec<Character> = Vec::new();
        let mut i: usize = 0;
        while i < self.best_characters.len()
            invariant
                i <= self.best_characters.len(),
                best@.len() == i,
                character_views(best@) == self@.take(i as int),
            decreases self.best_characters.len() - i,
        {
            let ghost held = best@;
            best.push(self.best_characters[i].snapshot());
            i += 1;
            proof {
                assert forall|j: int| 0 <= j < i implies character_views(best@)[j] == self@.take(
                    i as int,
                )[j] by {
                    if j < i - 1 {
                        assert(best@[j] == held[j]);
                        assert(character_views(held)[j] == self@.take(i - 1)[j]);
                    }
                }
                assert(character_views(best@) =~= self@.take(i as int));
            }
        }
        assert(self@.take(self@.len() as int) =~= self@);
        best
    }

    /// For each combination id below `combination_count`, the number of
    /// characters held that reference it.
    pub fn get_weighted_combinations(&self, combination_count: usize) -> (weights: Vec<usize>)
        ensures
            weights@ == weighted_combinations(self@, combination_count as nat),
    {
        let mut weights: Vec<usize> = Vec::new();
        let mut n: usize = 0;
        while n < combination_count
            invariant
                n <= combination_count,
                weights@.len() == n,
                forall|id: int| 0 <= id < n ==> weights@[id] == 0,
            decreases combination_count - n,
        {
            weights.push(0);
            n += 1;
        }
        let mut i: usize = 0;
        while i < self.best_characters.len()
            invariant
                i <= self.best_characters.len(),
                weights@.len() == combination_count,
                forall|id: int|
                    0 <= id < combination_count ==> weights@[id] == count_with_id(
                        self@.take(i as int),
                        id,
                    ),
            decreases self.best_characters.len() - i,
        {
            let id = self.best_characters[i].combination_id as usize;
            proof {
                assert(self@.take(i + 1).drop_last() =~= self@.take(i as int));
                assert(self@.take(i + 1).last() == self@[i as int]);
                if id < combination_count {
                    lemma_count_bounded(self@.take(i as int), id as int);
                }
            }
            if id < combination_count {
                let count = weights[id];
                weights.set(id, count + 1);
            }
            i += 1;
        }
        proof {
            assert(self@.take(self@.len() as int) =~= self@);
            assert forall|id: int| 0 <= id < combination_count implies weights@[id]
                == count_with_id(self@, id) as usize by {
                lemma_count_bounded(self@, id);
            }
            assert(weights@ =~= weighted_combinations(self@, combination_count as nat));
        }
        weights
    }
}

} // verus!
