//! The choice of the extras combinations that deserve a full search, from a
//! benchmark of scored samples.

use vstd::prelude::*;
use crate::affix::Affix;
use crate::collector::Character;
use crate::collector::ResultCollector;
use crate::collector::after_inserts;
use crate::collector::character_views;
use crate::collector::weighted_combinations;
use crate::traversal::candidate_table;

verus! {

/// The number of random gear assignments scored for each combination, and
/// the capacity of the collector that ranks them.
pub const BENCHMARK_ITERATIONS_PER_SETTING: usize = 100;

/// A combination is worth a full search when it accounts for strictly more
/// than a tenth of the collector's capacity.
pub open spec fn is_picked(weight: usize, capacity: usize) -> bool {
    weight * 10 > capacity
}

/// The ids whose weight passes the threshold, in increasing order.
pub open spec fn picked_combinations(weights: Seq<usize>, capacity: usize) -> Seq<u32>
    decreases weights.len(),
{
    if weights.len() == 0 {
        Seq::empty()
    } else if is_picked(weights.last(), capacity) {
        picked_combinations(weights.drop_last(), capacity).push((weights.len() - 1) as u32)
    } else {
        picked_combinations(weights.drop_last(), capacity)
    }
}

/// The gear that a sequence of draws selects: in each slot the candidate at
/// the draw's remainder by the number of candidates of that slot.
pub open spec fn drawn_gear(table: Seq<Seq<Affix>>, draws: Seq<u64>, slots: nat) -> Seq<Affix> {
    Seq::new(slots, |slot: int| table[slot][draws[slot] as int % table[slot].len() as int])
}

/// A combination is picked exactly when its weight is strictly above a tenth
/// of the capacity; the picked ids are listed in increasing order.
pub proof fn lemma_picked_exactly(weights: Seq<usize>, capacity: usize)
    requires
        weights.len() <= u32::MAX,
    ensures
        forall|j: int|
            0 <= j < picked_combinations(weights, capacity).len() ==> {
                let id = #[trigger] picked_combinations(weights, capacity)[j];
                id < weights.len() && is_picked(weights[id as int], capacity)
            },
        forall|id: int|
            0 <= id < weights.len() && is_picked(#[trigger] weights[id], capacity)
                ==> picked_combinations(weights, capacity).contains(id as u32),
        forall|i: int, j: int|
            0 <= i < j < picked_combinations(weights, capacity).len() ==> picked_combinations(
                weights,
                capacity,
            )[i] < picked_combinations(weights, capacity)[j],
    decreases weights.len(),
{
    if weights.len() > 0 {
        let shorter = weights.drop_last();
        let rest = picked_combinations(shorter, capacity);
        let all = picked_combinations(weights, capacity);
        lemma_picked_exactly(shorter, capacity);
        assert forall|j: int| 0 <= j < all.len() implies {
            let id = #[trigger] all[j];
            id < weights.len() && is_picked(weights[id as int], capacity)
        } by {
            if j < rest.len() {
                assert(all[j] == rest[j]);
                assert(shorter[rest[j] as int] == weights[rest[j] as int]);
            }
        }
        assert forall|id: int|
            0 <= id < weights.len() && is_picked(#[trigger] weights[id], capacity) implies all.contains(
            id as u32,
        ) by {
            if id < shorter.len() {
                assert(shorter[id] == weights[id]);
                assert(rest.contains(id as u32));
                let j = choose|j: int| 0 <= j < rest.len() && rest[j] == id as u32;
                assert(all[j] == id as u32);
            } else {
                assert(all[rest.len() as int] == id as u32);
            }
        }
        assert forall|i: int, j: int| 0 <= i < j < all.len() implies all[i] < all[j] by {
            assert(all[i] == rest[i]);
            if j < rest.len() {
                assert(all[j] == rest[j]);
            }
        }
    }
}

/// The ids of the combinations whose weight is strictly above a tenth of
/// `capacity`, in increasing order.
pub fn pick_combinations(weights: &[usize], capacity: usize) -> (picked: Vec<u32>)
    requires
        weights@.len() <= u32::MAX,
    ensures
        picked@ == picked_combinations(weights@, capacity),
{
    let mut picked: Vec<u32> = Vec::new();
    let threshold = capacity / 10;
    let mut i: usize = 0;
    while i < weights.len()
        invariant
            i <= weights@.len(),
            weights@.len() <= u32::MAX,
            threshold == capacity / 10,
            picked@ == picked_combinations(weights@.take(i as int), capacity),
        decreases weights@.len() - i,
    {
        proof {
            assert(weights@.take(i + 1).drop_last() =~= weights@.take(i as int));
            assert(weights@.take(i + 1).last() == weights@[i as int]);
        }
        if weights[i] > threshold {
            picked.push(i as u32);
        }
        i += 1;
    }
    assert(weights@.take(weights@.len() as int) =~= weights@);
    picked
}

/// Ranks the scored benchmark samples in a collector of the benchmark's
/// capacity, in the order given, and picks every combination that more than
/// a tenth of the retained samples reference.
pub fn start_with_heuristics(combination_count: usize, scored: &[Character]) -> (picked: Vec<u32>)
    requires
        combination_count <= u32::MAX,
    ensures
        picked@ == picked_combinations(
            weighted_combinations(
                after_inserts(
                    BENCHMARK_ITERATIONS_PER_SETTING as nat,
                    character_views(scored@),
                ),
                combination_count as nat,
            ),
            BENCHMARK_ITERATIONS_PER_SETTING,
        ),
{
    let result = ResultCollector::collect(BENCHMARK_ITERATIONS_PER_SETTING, scored);
    let weights = result.get_weighted_combinations(combination_count);
    pick_combinations(weights.as_slice(), BENCHMARK_ITERATIONS_PER_SETTING)
}

/// The gear assignment that `draws` selects from the candidate lists of the
/// first `slots` slots.
pub fn get_random_affix_combination(affix_array: &[Vec<Affix>], slots: usize, draws: &[u64]) -> (gear:
    Vec<Affix>)
    requires
        slots <= affix_array@.len(),
        slots <= draws@.len(),
        forall|slot: int| 0 <= slot < slots ==> (#[trigger] affix_array@[slot])@.len() > 0,
    ensures
        gear@ == drawn_gear(candidate_table(affix_array@), draws@, slots as nat),
{
    let mut gear: Vec<Affix> = Vec::new();
    let mut slot: usize = 0;
    while slot < slots
        invariant
            slot <= slots,
            slots <= affix_array@.len(),
            slots <= draws@.len(),
            forall|s: int| 0 <= s < slots ==> (#[trigger] affix_array@[s])@.len() > 0,
            gear@ == drawn_gear(candidate_table(affix_array@), draws@, slot as nat),
        decreases slots - slot,
    {
        let options = &affix_array[slot];
        assert(affix_array@[slot as int]@.len() > 0);
        let choice = (draws[slot] % (options.len() as u64)) as usize;
        gear.push(options[choice]);
        slot += 1;
        assert(gear@ =~= drawn_gear(candidate_table(affix_array@), draws@, slot as nat));
    }
    gear
}

} // verus!
