//! What a progress report carries: the best characters so far, with their
//! combination ids renumbered over the combinations they reference.

use vstd::prelude::*;
use crate::collector::Character;

verus! {

/// The number of evaluations between two progress reports.
pub const PROGRESS_UPDATE_INTERVALL: u64 = 1000000;

/// The combination ids of the characters, in their order.
pub open spec fn combination_ids(characters: Seq<Character>) -> Seq<u32> {
    Seq::new(characters.len(), |i: int| characters[i].combination_id)
}

/// The distinct values of `ids`, each at the place of its first occurrence.
pub open spec fn first_seen(ids: Seq<u32>) -> Seq<u32>
    decreases ids.len(),
{
    if ids.len() == 0 {
        Seq::empty()
    } else if first_seen(ids.drop_last()).contains(ids.last()) {
        first_seen(ids.drop_last())
    } else {
        first_seen(ids.drop_last()).push(ids.last())
    }
}

/// Whether a progress report is due after `counter` evaluations.
pub fn is_progress_due(counter: u64) -> (due: bool)
    ensures
        due == (counter % PROGRESS_UPDATE_INTERVALL == 0),
{
    counter % PROGRESS_UPDATE_INTERVALL == 0
}

fn place_of(ids: &Vec<u32>, id: u32) -> (place: Option<usize>)
    ensures
        match place {
            Some(p) => p < ids@.len() && ids@[p as int] == id,
            None => !ids@.contains(id),
        },
{
    let mut i: usize = 0;
    while i < ids.len()
        invariant
            i <= ids@.len(),
            forall|j: int| 0 <= j < i ==> ids@[j] != id,
        decreases ids@.len() - i,
    {
        if ids[i] == id {
            return Some(i);
        }
        i += 1;
    }
    None
}

/// Renumbers the combinations that the characters reference: returns the
/// referenced ids, each once, in the order of first reference, and copies of
/// the characters in which each id is replaced by its place in that list.
pub fn compact_combinations(best: &[Character]) -> (compacted: (Vec<Character>, Vec<u32>))
    requires
        best@.len() <= u32::MAX,
    ensures
        compacted.1@ == first_seen(combination_ids(best@)),
        compacted.1@.no_duplicates(),
        compacted.0@.len() == best@.len(),
        forall|i: int|
            0 <= i < best@.len() ==> {
                let renumbered = #[trigger] compacted.0@[i];
                &&& renumbered.gear@ == best@[i].gear@
                &&& renumbered.score == best@[i].score
                &&& renumbered.combination_id < compacted.1@.len()
                &&& compacted.1@[renumbered.combination_id as int] == best@[i].combination_id
            },
{
    let ghost ids = combination_ids(best@);
    let mut characters: Vec<Character> = Vec::new();
    let mut referenced: Vec<u32> = Vec::new();
    let mut i: usize = 0;
    while i < best.len()
        invariant
            i <= best@.len(),
            best@.len() <= u32::MAX,
            ids == combination_ids(best@),
            referenced@ == first_seen(ids.take(i as int)),
            referenced@.no_duplicates(),
            referenced@.len() <= i,
            characters@.len() == i,
            forall|j: int|
                0 <= j < i ==> {
                    let renumbered = #[trigger] characters@[j];
                    &&& renumbered.gear@ == best@[j].gear@
                    &&& renumbered.score == best@[j].score
                    &&& renumbered.combination_id < referenced@.len()
                    &&& referenced@[renumbered.combination_id as int] == best@[j].combination_id
                },
        decreases best@.len() - i,
    {
        let id = best[i].combination_id;
        proof {
            assert(ids.take(i + 1).drop_last() =~= ids.take(i as int));
            assert(ids.take(i + 1).last() == id);
        }
        let place = match place_of(&referenced, id) {
            Some(p) => p,
            None => {
                referenced.push(id);
                referenced.len() - 1
            },
        };
        let mut renumbered = best[i].snapshot();
        renumbered.combination_id = place as u32;
        characters.push(renumbered);
        i += 1;
    }
    assert(ids.take(ids.len() as int) =~= ids);
    (characters, referenced)
}

} // verus!
