use gear_optimizer::affix::Affix;
use gear_optimizer::collector::{Character, ResultCollector};
use gear_optimizer::evaluator::locate_gear;
use gear_optimizer::score::rank_key;
use gear_optimizer::traversal::descend_subtree_dfs;

fn character(tag: u32, combination_id: u32, score: i64) -> Character {
    Character::new(vec![Affix::new(tag)], combination_id, score)
}

fn tags(collector: &ResultCollector) -> Vec<(u32, i64)> {
    collector
        .best_characters()
        .iter()
        .map(|c| (c.gear[0].to_number(), c.score))
        .collect()
}

#[test]
fn new_collector_is_empty() {
    let collector = ResultCollector::new(3);
    assert_eq!(collector.len(), 0);
    assert_eq!(collector.capacity(), 3);
    assert!(collector.best_characters().is_empty());
}

#[test]
fn inserts_below_capacity_are_ranked_best_first() {
    let mut collector = ResultCollector::new(5);
    collector.insert(&character(1, 0, 10));
    collector.insert(&character(2, 0, 30));
    collector.insert(&character(3, 0, 20));
    collector.insert(&character(4, 0, -5));
    assert_eq!(tags(&collector), vec![(2, 30), (3, 20), (1, 10), (4, -5)]);
}

#[test]
fn equal_scores_keep_their_order_of_arrival() {
    let mut collector = ResultCollector::new(5);
    collector.insert(&character(1, 0, 10));
    collector.insert(&character(2, 0, 10));
    collector.insert(&character(3, 0, 20));
    collector.insert(&character(4, 0, 10));
    assert_eq!(tags(&collector), vec![(3, 20), (1, 10), (2, 10), (4, 10)]);
}

#[test]
fn full_collector_replaces_the_worst_only_for_a_strictly_better_one() {
    let mut collector = ResultCollector::new(2);
    collector.insert(&character(1, 0, 10));
    collector.insert(&character(2, 0, 20));
    collector.insert(&character(3, 0, 10));
    assert_eq!(tags(&collector), vec![(2, 20), (1, 10)]);
    collector.insert(&character(4, 0, 5));
    assert_eq!(tags(&collector), vec![(2, 20), (1, 10)]);
    collector.insert(&character(5, 0, 11));
    assert_eq!(tags(&collector), vec![(2, 20), (5, 11)]);
    collector.insert(&character(6, 0, 25));
    assert_eq!(tags(&collector), vec![(6, 25), (2, 20)]);
}

#[test]
fn collector_without_room_retains_nothing() {
    let mut collector = ResultCollector::new(0);
    collector.insert(&character(1, 0, 10));
    collector.insert(&character(2, 0, i64::MAX));
    assert_eq!(collector.len(), 0);
}

#[test]
fn collector_never_exceeds_capacity_and_keeps_the_best() {
    let mut collector = ResultCollector::new(4);
    let mut offered: Vec<i64> = Vec::new();
    let mut seed: u64 = 12345;
    for tag in 0..200u32 {
        seed = seed.wrapping_mul(6364136223846793005).wrapping_add(1442695040888963407);
        let score = ((seed >> 33) % 1000) as i64 - 500;
        offered.push(score);
        collector.insert(&character(tag, 0, score));
        assert!(collector.len() <= 4);
        let mut sorted = offered.clone();
        sorted.sort_by(|a, b| b.cmp(a));
        sorted.truncate(4);
        let held: Vec<i64> = collector.best_characters().iter().map(|c| c.score).collect();
        assert_eq!(held, sorted);
    }
}

#[test]
fn insert_stores_a_copy() {
    let mut collector = ResultCollector::new(1);
    let mut scratch = Character::new(vec![Affix::new(1), Affix::new(2)], 7, 3);
    collector.insert(&scratch);
    scratch.gear[0] = Affix::new(9);
    scratch.combination_id = 8;
    let best = collector.best_characters();
    assert_eq!(best.len(), 1);
    assert_eq!(best[0].gear, vec![Affix::new(1), Affix::new(2)]);
    assert_eq!(best[0].combination_id, 7);
    assert_eq!(best[0].score, 3);
}

#[test]
fn reading_the_best_characters_changes_nothing() {
    let mut collector = ResultCollector::new(3);
    collector.insert(&character(1, 0, 1));
    collector.insert(&character(2, 1, 2));
    let first = tags(&collector);
    let second = tags(&collector);
    assert_eq!(first, second);
    assert_eq!(collector.len(), 2);
}

#[test]
fn snapshot_copies_every_field() {
    let first = Character::new(vec![Affix::new(4), Affix::none()], 3, -17);
    let copy = first.snapshot();
    assert_eq!(copy.gear, first.gear);
    assert_eq!(copy.combination_id, 3);
    assert_eq!(copy.score, -17);
}

#[test]
fn weighted_combinations_count_the_references() {
    let mut collector = ResultCollector::new(10);
    for (tag, id) in [(1u32, 0u32), (2, 2), (3, 2), (4, 0), (5, 2), (6, 7)] {
        collector.insert(&character(tag, id, tag as i64));
    }
    assert_eq!(collector.get_weighted_combinations(4), vec![2, 0, 3, 0]);
    assert_eq!(collector.get_weighted_combinations(8), vec![2, 0, 3, 0, 0, 0, 0, 1]);
    assert_eq!(collector.get_weighted_combinations(0), Vec::<usize>::new());
}

#[test]
fn collect_offers_in_order() {
    let scored = vec![
        character(1, 0, 5),
        character(2, 1, 9),
        character(3, 2, 5),
        character(4, 3, 7),
    ];
    let collector = ResultCollector::collect(3, &scored);
    assert_eq!(collector.capacity(), 3);
    assert_eq!(tags(&collector), vec![(2, 9), (4, 7), (1, 5)]);
}

fn strike_damage(power: f32, precision: f32, ferocity: f32) -> f32 {
    let critical_chance = ((precision - 1000.0) / 21.0 / 100.0).clamp(0.0, 1.0);
    let critical_damage = 1.5 + ferocity / 15.0 / 100.0;
    let effective_power = power * (1.0 + critical_chance * (critical_damage - 1.0));
    (2597.0 / 2597.0) * effective_power
}

#[test]
fn single_slot_search_retains_the_leaf_with_the_higher_damage() {
    let table = vec![vec![Affix::new(1), Affix::new(2)]];
    let deltas: Vec<Vec<(f32, f32)>> = vec![vec![(100.0, 0.0), (50.0, 50.0)]];
    for reversed in [false, true] {
        let mut leaves = Vec::new();
        descend_subtree_dfs(&table, &[], 1, &mut leaves);
        assert_eq!(leaves.len(), 2);
        if reversed {
            leaves.reverse();
        }
        let mut collector = ResultCollector::new(1);
        for leaf in &leaves {
            let positions = locate_gear(&table, leaf);
            assert_eq!(positions.len(), 1);
            let (power, ferocity) = deltas[0][positions[0]];
            let damage = strike_damage(1000.0 + power, 1000.0, ferocity);
            collector.insert(&Character::new(leaf.clone(), 0, rank_key(damage.to_bits())));
        }
        let best = collector.best_characters();
        assert_eq!(best.len(), 1);
        assert_eq!(best[0].gear, vec![Affix::new(1)]);
        assert_eq!(best[0].score, rank_key(1100.0f32.to_bits()));
        assert_eq!(best[0].combination_id, 0);
    }
}
