//! The lookup that joins a gear assignment to the stat deltas of its affixes.

use vstd::prelude::*;
use crate::affix::Affix;
use crate::traversal::candidate_table;

verus! {

/// `p` is the first place of `affix` in `candidates`.
pub open spec fn is_first_position(candidates: Seq<Affix>, affix: Affix, p: int) -> bool {
    &&& 0 <= p < candidates.len()
    &&& candidates[p] == affix
    &&& forall|j: int| 0 <= j < p ==> candidates[j] != affix
}

/// The first place of `affix` in the candidate list, if it is listed.
pub fn position_in_slot(candidates: &[Affix], affix: Affix) -> (position: Option<usize>)
    ensures
        match position {
            Some(p) => is_first_position(candidates@, affix, p as int),
            None => !candidates@.contains(affix),
        },
{
    let mut i: usize = 0;
    while i < candidates.len()
        invariant
            i <= candidates@.len(),
            forall|j: int| 0 <= j < i ==> candidates@[j] != affix,
        decreases candidates@.len() - i,
    {
        if candidates[i].to_number() == affix.to_number() {
            return Some(i);
        }
        i += 1;
    }
    None
}

/// The affixes found in their slots' candidate lists at the given places,
/// from the first slot on and up to the first affix that is no candidate.
pub open spec fn is_located(table: Seq<Seq<Affix>>, gear: Seq<Affix>, positions: Seq<usize>) -> bool {
    &&& positions.len() <= gear.len()
    &&& forall|slot: int|
        0 <= slot < positions.len() ==> is_first_position(
            table[slot],
            gear[slot],
            #[trigger] positions[slot] as int,
        )
    &&& positions.len() < gear.len() ==> !table[positions.len() as int].contains(
        gear[positions.len() as int],
    )
}

/// A gear assignment has one list of places and no other: the lookup is a
/// function of the candidate lists and the gear.
pub proof fn lemma_located_once(
    table: Seq<Seq<Affix>>,
    gear: Seq<Affix>,
    first: Seq<usize>,
    second: Seq<usize>,
)
    requires
        is_located(table, gear, first),
        is_located(table, gear, second),
    ensures
        first == second,
{
    if first.len() < second.len() {
        let n = first.len() as int;
        assert(is_first_position(table[n], gear[n], second[n] as int));
        assert(table[n][second[n] as int] == gear[n]);
    } else if second.len() < first.len() {
        let n = second.len() as int;
        assert(is_first_position(table[n], gear[n], first[n] as int));
        assert(table[n][first[n] as int] == gear[n]);
    } else {
        assert forall|slot: int| 0 <= slot < first.len() implies first[slot] == second[slot] by {
            assert(is_first_position(table[slot], gear[slot], first[slot] as int));
            assert(is_first_position(table[slot], gear[slot], second[slot] as int));
        }
        assert(first =~= second);
    }
}

/// For each slot of `gear`, from the first on, the place of its affix in the
/// slot's candidate list. The list of places ends before the first slot whose
/// affix is not a candidate of it: it is as long as the gear exactly when
/// every slot holds one of its candidates.
pub fn locate_gear(affix_array: &[Vec<Affix>], gear: &[Affix]) -> (positions: Vec<usize>)
    requires
        gear@.len() <= affix_array@.len(),
    ensures
        is_located(candidate_table(affix_array@), gear@, positions@),
{
    let mut positions: Vec<usize> = Vec::new();
    let mut slot: usize = 0;
    while slot < gear.len()
        invariant
            slot <= gear@.len(),
            gear@.len() <= affix_array@.len(),
            positions@.len() == slot,
            forall|s: int|
                0 <= s < slot ==> is_first_position(
                    candidate_table(affix_array@)[s],
                    gear@[s],
                    #[trigger] positions@[s] as int,
                ),
        decreases gear@.len() - slot,
    {
        match position_in_slot(affix_array[slot].as_slice(), gear[slot]) {
            Some(p) => {
                positions.push(p);
            },
            None => {
                return positions;
            },
        }
        slot += 1;
    }
    positions
}

/// The search's inputs agree in shape: there is a candidate list for every
/// slot, and for every candidate list a list of stat deltas with one entry
/// for each of its candidates.
pub open spec fn structure_matches_spec(
    slots: nat,
    table: Seq<Seq<Affix>>,
    delta_counts: Seq<usize>,
) -> bool {
    &&& slots <= table.len()
    &&& delta_counts.len() == table.len()
    &&& forall|slot: int| 0 <= slot < table.len() ==> #[trigger] delta_counts[slot] == table[slot].len()
}

/// Whether the search's inputs agree in shape; `delta_counts` gives, for each
/// slot, the number of candidates that have stat deltas.
pub fn structure_matches(slots: usize, affix_array: &[Vec<Affix>], delta_counts: &[usize]) -> (matches:
    bool)
    ensures
        matches == structure_matches_spec(
            slots as nat,
            candidate_table(affix_array@),
            delta_counts@,
        ),
{
    if slots > affix_array.len() || delta_counts.len() != affix_array.len() {
        return false;
    }
    let mut slot: usize = 0;
    while slot < affix_array.len()
        invariant
            slot <= affix_array@.len(),
            delta_counts@.len() == affix_array@.len(),
            forall|s: int|
                0 <= s < slot ==> #[trigger] delta_counts@[s] == candidate_table(
                    affix_array@,
                )[s].len(),
        decreases affix_array@.len() - slot,
    {
        if delta_counts[slot] != affix_array[slot].len() {
            assert(delta_counts@[slot as int] != candidate_table(affix_array@)[slot as int].len());
            return false;
        }
        slot += 1;
    }
    true
}

} // verus!
