//! Depth-first enumeration of the complete gear assignments below a prefix.

use vstd::prelude::*;
use crate::affix::Affix;
use crate::affix::copy_gear;

verus! {

/// The candidate lists of the slots, one sequence per slot.
pub open spec fn candidate_table(affix_array: Seq<Vec<Affix>>) -> Seq<Seq<Affix>> {
    Seq::new(affix_array.len(), |i: int| affix_array[i]@)
}

/// A list of gear assignments, each as a sequence.
pub open spec fn gear_list(gears: Seq<Vec<Affix>>) -> Seq<Seq<Affix>> {
    Seq::new(gears.len(), |i: int| gears[i]@)
}

/// The leaves below `prefix`, in the order the search reaches them: the
/// prefix itself once it is `max_depth` long, else the leaves below each
/// extension of it by a candidate of the next slot, candidate after candidate.
pub open spec fn leaves_below(
    table: Seq<Seq<Affix>>,
    prefix: Seq<Affix>,
    max_depth: nat,
) -> Seq<Seq<Affix>>
    decreases max_depth - prefix.len(), 1int, 0int,
{
    if prefix.len() >= max_depth {
        seq![prefix]
    } else {
        leaves_from(table, prefix, max_depth, 0)
    }
}

/// The leaves below `prefix` whose next slot holds the candidate at position
/// `k` or a later one.
pub open spec fn leaves_from(
    table: Seq<Seq<Affix>>,
    prefix: Seq<Affix>,
    max_depth: nat,
    k: nat,
) -> Seq<Seq<Affix>>
    decreases max_depth - prefix.len(), 0int, table[prefix.len() as int].len() - k,
{
    let options = table[prefix.len() as int];
    if prefix.len() >= max_depth || k >= options.len() {
        Seq::empty()
    } else {
        leaves_below(table, prefix.push(options[k as int]), max_depth) + leaves_from(
            table,
            prefix,
            max_depth,
            k + 1,
        )
    }
}

/// The product of the candidate counts of the slots from `depth` up to
/// `max_depth`.
pub open spec fn leaf_count(table: Seq<Seq<Affix>>, depth: nat, max_depth: nat) -> nat
    decreases max_depth - depth,
{
    if depth >= max_depth {
        1
    } else {
        table[depth as int].len() * leaf_count(table, depth + 1, max_depth)
    }
}

/// `leaf` is a complete assignment that starts with `prefix` and holds, in
/// every later slot, a candidate of that slot.
pub open spec fn is_leaf_under(
    table: Seq<Seq<Affix>>,
    prefix: Seq<Affix>,
    max_depth: nat,
    leaf: Seq<Affix>,
) -> bool {
    &&& prefix.len() <= max_depth
    &&& leaf.len() == max_depth
    &&& leaf.subrange(0, prefix.len() as int) == prefix
    &&& forall|d: int| prefix.len() <= d < max_depth ==> #[trigger] table[d].contains(leaf[d])
}

/// The two assignments agree before slot `d`, and in slot `d` the first holds
/// an earlier candidate of that slot than the second.
pub open spec fn diverge_at(
    table: Seq<Seq<Affix>>,
    first: Seq<Affix>,
    second: Seq<Affix>,
    d: int,
) -> bool {
    &&& 0 <= d < first.len()
    &&& d < second.len()
    &&& first.subrange(0, d) == second.subrange(0, d)
    &&& exists|a: int, b: int|
        0 <= a < b < table[d].len() && first[d] == #[trigger] table[d][a] && second[d]
            == #[trigger] table[d][b]
}

/// `first` comes before `second` in the lexicographic order that the
/// candidate lists induce on the slots from `depth` on.
pub open spec fn lex_before(
    table: Seq<Seq<Affix>>,
    depth: nat,
    first: Seq<Affix>,
    second: Seq<Affix>,
) -> bool {
    exists|d: int| depth <= d && #[trigger] diverge_at(table, first, second, d)
}

proof fn lemma_count_below(table: Seq<Seq<Affix>>, prefix: Seq<Affix>, max_depth: nat)
    requires
        prefix.len() <= max_depth,
    ensures
        leaves_below(table, prefix, max_depth).len() == leaf_count(table, prefix.len(), max_depth),
    decreases max_depth - prefix.len(), 1int, 0int,
{
    if prefix.len() < max_depth {
        lemma_count_from(table, prefix, max_depth, 0);
    }
}

proof fn lemma_count_from(table: Seq<Seq<Affix>>, prefix: Seq<Affix>, max_depth: nat, k: nat)
    requires
        prefix.len() < max_depth,
        k <= table[prefix.len() as int].len(),
    ensures
        leaves_from(table, prefix, max_depth, k).len() == (table[prefix.len() as int].len() - k)
            * leaf_count(table, prefix.len() + 1, max_depth),
    decreases max_depth - prefix.len(), 0int, table[prefix.len() as int].len() - k,
{
    let options = table[prefix.len() as int];
    let below = leaf_count(table, prefix.len() + 1, max_depth) as int;
    if k < options.len() {
        lemma_count_below(table, prefix.push(options[k as int]), max_depth);
        lemma_count_from(table, prefix, max_depth, k + 1);
        let rest = options.len() - k - 1;
        assert((rest + 1) * below == below + rest * below) by (nonlinear_arith);
    } else {
        assert(0 * below == 0) by (nonlinear_arith);
    }
}

proof fn lemma_shape_below(table: Seq<Seq<Affix>>, prefix: Seq<Affix>, max_depth: nat, i: int)
    requires
        prefix.len() <= max_depth,
        0 <= i < leaves_below(table, prefix, max_depth).len(),
    ensures
        is_leaf_under(table, prefix, max_depth, leaves_below(table, prefix, max_depth)[i]),
    decreases max_depth - prefix.len(), 1int, 0int,
{
    if prefix.len() < max_depth {
        let b = lemma_shape_from(table, prefix, max_depth, 0, i);
    } else {
        assert(prefix.subrange(0, prefix.len() as int) =~= prefix);
    }
}

proof fn lemma_shape_from(
    table: Seq<Seq<Affix>>,
    prefix: Seq<Affix>,
    max_depth: nat,
    k: nat,
    i: int,
) -> (b: int)
    requires
        prefix.len() < max_depth,
        0 <= i < leaves_from(table, prefix, max_depth, k).len(),
    ensures
        is_leaf_under(table, prefix, max_depth, leaves_from(table, prefix, max_depth, k)[i]),
        k <= b < table[prefix.len() as int].len(),
        leaves_from(table, prefix, max_depth, k)[i][prefix.len() as int]
            == table[prefix.len() as int][b],
    decreases max_depth - prefix.len(), 0int, table[prefix.len() as int].len() - k,
{
    let n = prefix.len() as int;
    let options = table[n];
    let longer = prefix.push(options[k as int]);
    let head = leaves_below(table, longer, max_depth);
    let leaf = leaves_from(table, prefix, max_depth, k)[i];
    if i < head.len() {
        lemma_shape_below(table, longer, max_depth, i);
        assert(leaf == head[i]);
        assert(leaf.subrange(0, n + 1) == longer);
        assert(leaf[n] == leaf.subrange(0, n + 1)[n]);
        assert(leaf.subrange(0, n) =~= leaf.subrange(0, n + 1).subrange(0, n));
        assert(longer.subrange(0, n) =~= prefix);
        assert(options.contains(leaf[n]));
        assert forall|d: int| n <= d < max_depth implies #[trigger] table[d].contains(leaf[d]) by {
            if d > n {
                assert(table[d].contains(head[i][d]));
            }
        }
        k as int
    } else {
        let b = lemma_shape_from(table, prefix, max_depth, k + 1, i - head.len());
        assert(leaf == leaves_from(table, prefix, max_depth, k + 1)[i - head.len()]);
        b
    }
}

proof fn lemma_order_below(
    table: Seq<Seq<Affix>>,
    prefix: Seq<Affix>,
    max_depth: nat,
    i: int,
    j: int,
)
    requires
        prefix.len() <= max_depth,
        0 <= i < j < leaves_below(table, prefix, max_depth).len(),
    ensures
        lex_before(
            table,
            prefix.len(),
            leaves_below(table, prefix, max_depth)[i],
            leaves_below(table, prefix, max_depth)[j],
        ),
    decreases max_depth - prefix.len(), 1int, 0int,
{
    if prefix.len() < max_depth {
        lemma_order_from(table, prefix, max_depth, 0, i, j);
    }
}

proof fn lemma_order_from(
    table: Seq<Seq<Affix>>,
    prefix: Seq<Affix>,
    max_depth: nat,
    k: nat,
    i: int,
    j: int,
)
    requires
        prefix.len() < max_depth,
        0 <= i < j < leaves_from(table, prefix, max_depth, k).len(),
    ensures
        lex_before(
            table,
            prefix.len(),
            leaves_from(table, prefix, max_depth, k)[i],
            leaves_from(table, prefix, max_depth, k)[j],
        ),
    decreases max_depth - prefix.len(), 0int, table[prefix.len() as int].len() - k,
{
    let n = prefix.len() as int;
    let options = table[n];
    let longer = prefix.push(options[k as int]);
    let head = leaves_below(table, longer, max_depth);
    let tail = leaves_from(table, prefix, max_depth, k + 1);
    let first = leaves_from(table, prefix, max_depth, k)[i];
    let second = leaves_from(table, prefix, max_depth, k)[j];
    if j < head.len() {
        lemma_order_below(table, longer, max_depth, i, j);
        let d = choose|d: int| n + 1 <= d && #[trigger] diverge_at(table, head[i], head[j], d);
        assert(diverge_at(table, first, second, d));
    } else if i >= head.len() {
        lemma_order_from(table, prefix, max_depth, k + 1, i - head.len(), j - head.len());
        let d = choose|d: int|
            n <= d && #[trigger] diverge_at(
                table,
                tail[i - head.len()],
                tail[j - head.len()],
                d,
            );
        assert(diverge_at(table, first, second, d));
    } else {
        lemma_shape_below(table, longer, max_depth, i);
        let b = lemma_shape_from(table, prefix, max_depth, k + 1, j - head.len());
        assert(first == head[i]);
        assert(second == tail[j - head.len()]);
        assert(first.subrange(0, n + 1) == longer);
        assert(first[n] == first.subrange(0, n + 1)[n]);
        assert(first.subrange(0, n) =~= first.subrange(0, n + 1).subrange(0, n));
        assert(longer.subrange(0, n) =~= prefix);
        assert(first[n] == table[n][k as int]);
        assert(second[n] == table[n][b]);
        assert(diverge_at(table, first, second, n));
    }
}

proof fn lemma_complete_below(
    table: Seq<Seq<Affix>>,
    prefix: Seq<Affix>,
    max_depth: nat,
    leaf: Seq<Affix>,
)
    requires
        is_leaf_under(table, prefix, max_depth, leaf),
    ensures
        leaves_below(table, prefix, max_depth).contains(leaf),
    decreases max_depth - prefix.len(), 1int, 0int,
{
    if prefix.len() < max_depth {
        let n = prefix.len() as int;
        assert(table[n].contains(leaf[n]));
        let b = choose|b: int| 0 <= b < table[n].len() && table[n][b] == leaf[n];
        lemma_complete_from(table, prefix, max_depth, 0, leaf, b);
    } else {
        assert(leaf.subrange(0, prefix.len() as int) =~= leaf);
        assert(leaves_below(table, prefix, max_depth)[0] == leaf);
    }
}

proof fn lemma_complete_from(
    table: Seq<Seq<Affix>>,
    prefix: Seq<Affix>,
    max_depth: nat,
    k: nat,
    leaf: Seq<Affix>,
    b: int,
)
    requires
        prefix.len() < max_depth,
        is_leaf_under(table, prefix, max_depth, leaf),
        k <= b < table[prefix.len() as int].len(),
        leaf[prefix.len() as int] == table[prefix.len() as int][b],
    ensures
        leaves_from(table, prefix, max_depth, k).contains(leaf),
    decreases max_depth - prefix.len(), 0int, table[prefix.len() as int].len() - k,
{
    let n = prefix.len() as int;
    let options = table[n];
    let longer = prefix.push(options[k as int]);
    let head = leaves_below(table, longer, max_depth);
    let tail = leaves_from(table, prefix, max_depth, k + 1);
    if b == k {
        assert(leaf.subrange(0, n + 1) =~= leaf.subrange(0, n).push(leaf[n]));
        assert forall|d: int| longer.len() <= d < max_depth implies #[trigger] table[d].contains(
            leaf[d],
        ) by {}
        assert(is_leaf_under(table, longer, max_depth, leaf));
        lemma_complete_below(table, longer, max_depth, leaf);
        let i = choose|i: int| 0 <= i < head.len() && head[i] == leaf;
        assert((head + tail)[i] == leaf);
    } else {
        lemma_complete_from(table, prefix, max_depth, k + 1, leaf, b);
        let i = choose|i: int| 0 <= i < tail.len() && tail[i] == leaf;
        assert((head + tail)[head.len() + i] == leaf);
    }
}

/// The search below a prefix reaches as many leaves as the product of the
/// candidate counts of the slots that the prefix leaves open.
pub proof fn lemma_leaves_count(table: Seq<Seq<Affix>>, prefix: Seq<Affix>, max_depth: nat)
    requires
        prefix.len() <= max_depth,
    ensures
        leaves_below(table, prefix, max_depth).len() == leaf_count(table, prefix.len(), max_depth),
{
    lemma_count_below(table, prefix, max_depth);
}

/// Every leaf that the search reaches is a complete assignment under the
/// prefix, and every complete assignment under the prefix is reached.
pub proof fn lemma_leaves_exact(table: Seq<Seq<Affix>>, prefix: Seq<Affix>, max_depth: nat)
    requires
        prefix.len() <= max_depth,
    ensures
        forall|leaf: Seq<Affix>|
            #[trigger] leaves_below(table, prefix, max_depth).contains(leaf) <==> is_leaf_under(
                table,
                prefix,
                max_depth,
                leaf,
            ),
{
    let leaves = leaves_below(table, prefix, max_depth);
    assert forall|leaf: Seq<Affix>| #[trigger] leaves.contains(leaf) implies is_leaf_under(
        table,
        prefix,
        max_depth,
        leaf,
    ) by {
        let i = choose|i: int| 0 <= i < leaves.len() && leaves[i] == leaf;
        lemma_shape_below(table, prefix, max_depth, i);
    }
    assert forall|leaf: Seq<Affix>|
        is_leaf_under(table, prefix, max_depth, leaf) implies #[trigger] leaves.contains(leaf) by {
        lemma_complete_below(table, prefix, max_depth, leaf);
    }
}

/// The leaves come in the lexicographic order of the candidate lists: of two
/// leaves, the one reached first holds the earlier candidate in the first
/// slot where the two part.
pub proof fn lemma_leaves_ordered(table: Seq<Seq<Affix>>, prefix: Seq<Affix>, max_depth: nat)
    requires
        prefix.len() <= max_depth,
    ensures
        forall|i: int, j: int|
            0 <= i < j < leaves_below(table, prefix, max_depth).len() ==> lex_before(
                table,
                prefix.len(),
                #[trigger] leaves_below(table, prefix, max_depth)[i],
                #[trigger] leaves_below(table, prefix, max_depth)[j],
            ),
{
    let leaves = leaves_below(table, prefix, max_depth);
    assert forall|i: int, j: int| 0 <= i < j < leaves.len() implies lex_before(
        table,
        prefix.len(),
        #[trigger] leaves[i],
        #[trigger] leaves[j],
    ) by {
        lemma_order_below(table, prefix, max_depth, i, j);
    }
}

/// Where no slot lists a candidate twice, no leaf is reached twice.
pub proof fn lemma_leaves_distinct(table: Seq<Seq<Affix>>, prefix: Seq<Affix>, max_depth: nat)
    requires
        prefix.len() <= max_depth,
        forall|d: int| prefix.len() <= d < max_depth ==> (#[trigger] table[d]).no_duplicates(),
    ensures
        leaves_below(table, prefix, max_depth).no_duplicates(),
{
    let leaves = leaves_below(table, prefix, max_depth);
    assert forall|i: int, j: int|
        0 <= i < leaves.len() && 0 <= j < leaves.len() && i != j implies leaves[i] != leaves[j] by {
        let lo = if i < j { i } else { j };
        let hi = if i < j { j } else { i };
        lemma_order_below(table, prefix, max_depth, lo, hi);
        lemma_shape_below(table, prefix, max_depth, lo);
        let d = choose|d: int|
            prefix.len() <= d && #[trigger] diverge_at(table, leaves[lo], leaves[hi], d);
        assert(table[d].no_duplicates());
    }
}

/// Appends to `leaves` every complete assignment of `max_depth` slots that
/// starts with `subtree`, in the order of the candidate lists.
pub fn descend_subtree_dfs(
    affix_array: &[Vec<Affix>],
    subtree: &[Affix],
    max_depth: usize,
    leaves: &mut Vec<Vec<Affix>>,
)
    requires
        subtree@.len() <= max_depth <= affix_array@.len(),
    ensures
        gear_list(final(leaves)@) == gear_list(old(leaves)@) + leaves_below(
            candidate_table(affix_array@),
            subtree@,
            max_depth as nat,
        ),
    decreases max_depth - subtree@.len(),
{
    let ghost table = candidate_table(affix_array@);
    let ghost start = gear_list(leaves@);
    let current_layer = subtree.len();
    if current_layer == max_depth {
        leaves.push(copy_gear(subtree));
        assert(gear_list(leaves@) =~= start + seq![subtree@]);
    } else {
        let options = &affix_array[current_layer];
        let mut new_subtree = copy_gear(subtree);
        let mut k: usize = 0;
        assert(start + Seq::<Seq<Affix>>::empty() =~= start);
        while k < options.len()
            invariant
                k <= options.len(),
                new_subtree@ == subtree@,
                current_layer == subtree@.len(),
                current_layer < max_depth <= affix_array@.len(),
                table == candidate_table(affix_array@),
                options@ == table[current_layer as int],
                gear_list(leaves@) + leaves_from(table, subtree@, max_depth as nat, k as nat)
                    == start + leaves_from(table, subtree@, max_depth as nat, 0),
            decreases options.len() - k,
        {
            let ghost before = gear_list(leaves@);
            let ghost rest = leaves_from(table, subtree@, max_depth as nat, (k + 1) as nat);
            new_subtree.push(options[k]);
            descend_subtree_dfs(affix_array, new_subtree.as_slice(), max_depth, leaves);
            new_subtree.pop();
            proof {
                let head = leaves_below(table, subtree@.push(options@[k as int]), max_depth as nat);
                assert(new_subtree@ =~= subtree@);
                assert((before + head) + rest =~= before + (head + rest));
            }
            k += 1;
        }
        assert(gear_list(leaves@) + Seq::<Seq<Affix>>::empty() =~= gear_list(leaves@));
    }
}

/// The leaves below each chunk, chunk after chunk.
pub open spec fn leaves_of_chunks(
    table: Seq<Seq<Affix>>,
    chunks: Seq<Seq<Affix>>,
    max_depth: nat,
) -> Seq<Seq<Affix>>
    decreases chunks.len(),
{
    if chunks.len() == 0 {
        Seq::empty()
    } else {
        leaves_of_chunks(table, chunks.drop_last(), max_depth) + leaves_below(
            table,
            chunks.last(),
            max_depth,
        )
    }
}

/// No chunk is longer than the number of slots.
pub open spec fn chunks_fit_spec(chunks: Seq<Seq<Affix>>, max_depth: nat) -> bool {
    forall|c: int| 0 <= c < chunks.len() ==> (#[trigger] chunks[c]).len() <= max_depth
}

/// Whether no chunk is longer than the number of slots.
pub fn chunks_fit(chunks: &[Vec<Affix>], max_depth: usize) -> (fit: bool)
    ensures
        fit == chunks_fit_spec(gear_list(chunks@), max_depth as nat),
{
    let mut c: usize = 0;
    while c < chunks.len()
        invariant
            c <= chunks@.len(),
            forall|b: int| 0 <= b < c ==> (#[trigger] gear_list(chunks@)[b]).len() <= max_depth,
        decreases chunks@.len() - c,
    {
        if chunks[c].len() > max_depth {
            assert(gear_list(chunks@)[c as int].len() > max_depth);
            return false;
        }
        c += 1;
    }
    true
}

/// Every complete assignment below each chunk, chunk after chunk, each chunk
/// searched in the order of the candidate lists.
pub fn descend_chunks(affix_array: &[Vec<Affix>], chunks: &[Vec<Affix>], max_depth: usize) -> (leaves:
    Vec<Vec<Affix>>)
    requires
        max_depth <= affix_array@.len(),
        chunks_fit_spec(gear_list(chunks@), max_depth as nat),
    ensures
        gear_list(leaves@) == leaves_of_chunks(
            candidate_table(affix_array@),
            gear_list(chunks@),
            max_depth as nat,
        ),
{
    let ghost table = candidate_table(affix_array@);
    let ghost roots = gear_list(chunks@);
    let mut leaves: Vec<Vec<Affix>> = Vec::new();
    let mut c: usize = 0;
    assert(gear_list(leaves@) =~= Seq::<Seq<Affix>>::empty());
    while c < chunks.len()
        invariant
            c <= chunks@.len(),
            max_depth <= affix_array@.len(),
            table == candidate_table(affix_array@),
            roots == gear_list(chunks@),
            chunks_fit_spec(roots, max_depth as nat),
            gear_list(leaves@) == leaves_of_chunks(table, roots.take(c as int), max_depth as nat),
        decreases chunks@.len() - c,
    {
        proof {
            assert(roots.take(c + 1).drop_last() =~= roots.take(c as int));
            assert(roots.take(c + 1).last() == chunks@[c as int]@);
            assert(roots[c as int].len() <= max_depth);
        }
        descend_subtree_dfs(affix_array, chunks[c].as_slice(), max_depth, &mut leaves);
        c += 1;
    }
    assert(roots.take(roots.len() as int) =~= roots);
    leaves
}

proof fn lemma_empty_slot(table: Seq<Seq<Affix>>, depth: nat, max_depth: nat, d: int)
    requires
        depth <= d < max_depth,
        table[d].len() == 0,
    ensures
        leaf_count(table, depth, max_depth) == 0,
    decreases d - depth,
{
    if depth < d {
        lemma_empty_slot(table, depth + 1, max_depth, d);
        assert(table[depth as int].len() * 0 == 0) by (nonlinear_arith);
    } else {
        assert(0 * leaf_count(table, depth + 1, max_depth) == 0) by (nonlinear_arith);
    }
}

proof fn lemma_count_grows(table: Seq<Seq<Affix>>, depth: nat, d: nat, max_depth: nat)
    requires
        depth <= d <= max_depth,
        forall|e: int| depth <= e < d ==> (#[trigger] table[e]).len() > 0,
    ensures
        leaf_count(table, depth, max_depth) >= leaf_count(table, d, max_depth),
    decreases d - depth,
{
    if depth < d {
        lemma_count_grows(table, depth + 1, d, max_depth);
        let n = table[depth as int].len();
        let below = leaf_count(table, depth + 1, max_depth);
        assert(n > 0);
        assert(n * below >= below) by (nonlinear_arith)
            requires
                n > 0,
        ;
    }
}

/// The number of leaves below a prefix of `depth` slots, where it fits the
/// machine's word.
pub fn count_leaves(affix_array: &[Vec<Affix>], depth: usize, max_depth: usize) -> (total: Option<
    usize,
>)
    requires
        depth <= max_depth <= affix_array@.len(),
    ensures
        match total {
            Some(n) => n == leaf_count(candidate_table(affix_array@), depth as nat, max_depth as nat),
            None => leaf_count(candidate_table(affix_array@), depth as nat, max_depth as nat)
                > usize::MAX,
        },
{
    let ghost table = candidate_table(affix_array@);
    let mut e: usize = depth;
    while e < max_depth
        invariant
            depth <= e <= max_depth,
            max_depth <= affix_array@.len(),
            table == candidate_table(affix_array@),
            forall|b: int| depth <= b < e ==> (#[trigger] table[b]).len() > 0,
        decreases max_depth - e,
    {
        if affix_array[e].len() == 0 {
            proof {
                lemma_empty_slot(table, depth as nat, max_depth as nat, e as int);
            }
            return Some(0);
        }
        e += 1;
    }
    let mut d: usize = max_depth;
    let mut count: usize = 1;
    while d > depth
        invariant
            depth <= d <= max_depth,
            max_depth <= affix_array@.len(),
            table == candidate_table(affix_array@),
            forall|b: int| depth <= b < max_depth ==> (#[trigger] table[b]).len() > 0,
            count == leaf_count(table, d as nat, max_depth as nat),
        decreases d,
    {
        d -= 1;
        match affix_array[d].len().checked_mul(count) {
            Some(product) => {
                count = product;
            },
            None => {
                proof {
                    lemma_count_grows(table, depth as nat, d as nat, max_depth as nat);
                }
                return None;
            },
        }
    }
    Some(count)
}

/// The number of evaluations that a search of all `max_depth` slots makes
/// with `combination_count` combinations, where it fits the machine's word:
/// one for every leaf and combination.
pub fn get_total_combinations(
    affix_array: &[Vec<Affix>],
    max_depth: usize,
    combination_count: usize,
) -> (total: Option<usize>)
    requires
        max_depth <= affix_array@.len(),
    ensures
        match total {
            Some(n) => n == leaf_count(candidate_table(affix_array@), 0, max_depth as nat)
                * combination_count,
            None => leaf_count(candidate_table(affix_array@), 0, max_depth as nat)
                * combination_count > usize::MAX,
        },
{
    let ghost leaves = leaf_count(candidate_table(affix_array@), 0, max_depth as nat) as int;
    if combination_count == 0 {
        assert(leaves * 0 == 0) by (nonlinear_arith);
        return Some(0);
    }
    match count_leaves(affix_array, 0, max_depth) {
        Some(counted) => counted.checked_mul(combination_count),
        None => {
            assert(leaves * combination_count >= leaves) by (nonlinear_arith)
                requires
                    leaves >= 0,
                    combination_count >= 1,
            ;
            None
        },
    }
}

proof fn lemma_nth_from(table: Seq<Seq<Affix>>, prefix: Seq<Affix>, max_depth: nat, k: nat, i: int)
    requires
        prefix.len() < max_depth,
        k <= table[prefix.len() as int].len(),
        0 <= i < leaves_from(table, prefix, max_depth, k).len(),
    ensures
        leaf_count(table, prefix.len() + 1, max_depth) > 0,
        k + i / (leaf_count(table, prefix.len() + 1, max_depth) as int)
            < table[prefix.len() as int].len(),
        leaves_from(table, prefix, max_depth, k)[i] == leaves_below(
            table,
            prefix.push(
                table[prefix.len() as int][k + i / (leaf_count(
                    table,
                    prefix.len() + 1,
                    max_depth,
                ) as int)],
            ),
            max_depth,
        )[i % (leaf_count(table, prefix.len() + 1, max_depth) as int)],
    decreases table[prefix.len() as int].len() - k,
{
    let options = table[prefix.len() as int];
    let block = leaf_count(table, prefix.len() + 1, max_depth) as int;
    let head = leaves_below(table, prefix.push(options[k as int]), max_depth);
    lemma_count_from(table, prefix, max_depth, k);
    lemma_count_below(table, prefix.push(options[k as int]), max_depth);
    if block == 0 {
        assert((options.len() - k) * 0 == 0) by (nonlinear_arith);
    }
    if i < block {
        assert(i / block == 0 && i % block == i) by (nonlinear_arith)
            requires
                0 <= i < block,
        ;
    } else {
        lemma_nth_from(table, prefix, max_depth, k + 1, i - block);
        assert((i - block) / block == i / block - 1 && (i - block) % block == i % block)
            by (nonlinear_arith)
            requires
                block > 0,
                i >= block,
        ;
    }
}

/// The leaf at place `ordinal` in the order of the search below `subtree`,
/// where the search reaches that many leaves: the search, one leaf at a time.
pub fn leaf_at(affix_array: &[Vec<Affix>], subtree: &[Affix], max_depth: usize, ordinal: usize) -> (leaf:
    Option<Vec<Affix>>)
    requires
        subtree@.len() <= max_depth <= affix_array@.len(),
    ensures
        match leaf {
            Some(gear) => ordinal < leaves_below(
                candidate_table(affix_array@),
                subtree@,
                max_depth as nat,
            ).len() && gear@ == leaves_below(
                candidate_table(affix_array@),
                subtree@,
                max_depth as nat,
            )[ordinal as int],
            None => ordinal >= leaves_below(
                candidate_table(affix_array@),
                subtree@,
                max_depth as nat,
            ).len(),
        },
{
    let ghost table = candidate_table(affix_array@);
    let ghost all = leaves_below(table, subtree@, max_depth as nat);
    proof {
        lemma_count_below(table, subtree@, max_depth as nat);
    }
    match count_leaves(affix_array, subtree.len(), max_depth) {
        Some(total) => {
            if ordinal >= total {
                return None;
            }
        },
        None => {},
    }
    let mut gear = copy_gear(subtree);
    let mut rest: usize = ordinal;
    while gear.len() < max_depth
        invariant
            subtree@.len() <= gear@.len() <= max_depth,
            max_depth <= affix_array@.len(),
            table == candidate_table(affix_array@),
            all == leaves_below(table, subtree@, max_depth as nat),
            rest < leaves_below(table, gear@, max_depth as nat).len(),
            ordinal < all.len(),
            all[ordinal as int] == leaves_below(table, gear@, max_depth as nat)[rest as int],
        decreases max_depth - gear@.len(),
    {
        let depth = gear.len();
        let options = &affix_array[depth];
        proof {
            lemma_nth_from(table, gear@, max_depth as nat, 0, rest as int);
        }
        let choice = match count_leaves(affix_array, depth + 1, max_depth) {
            Some(block) => {
                let choice = rest / block;
                rest = rest % block;
                choice
            },
            None => {
                proof {
                    let block = leaf_count(table, (depth + 1) as nat, max_depth as nat) as int;
                    let r = rest as int;
                    assert(r / block == 0 && r % block == r) by (nonlinear_arith)
                        requires
                            0 <= r < block,
                    ;
                }
                0
            },
        };
        proof {
            lemma_count_below(table, gear@.push(options@[choice as int]), max_depth as nat);
        }
        gear.push(options[choice]);
    }
    Some(gear)
}

} // verus!
