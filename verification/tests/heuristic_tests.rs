use gear_optimizer::affix::Affix;
use gear_optimizer::collector::Character;
use gear_optimizer::heuristic::{
    get_random_affix_combination, pick_combinations, start_with_heuristics,
    BENCHMARK_ITERATIONS_PER_SETTING,
};

#[test]
fn benchmark_runs_a_hundred_samples_per_combination() {
    assert_eq!(BENCHMARK_ITERATIONS_PER_SETTING, 100);
}

#[test]
fn pick_is_strict_at_a_tenth_of_the_capacity() {
    assert_eq!(pick_combinations(&[11, 10, 0, 100, 9], 100), vec![0, 3]);
}

#[test]
fn pick_of_nothing_is_nothing() {
    assert_eq!(pick_combinations(&[], 100), Vec::<u32>::new());
    assert_eq!(pick_combinations(&[10, 10, 10], 100), Vec::<u32>::new());
}

#[test]
fn pick_with_a_capacity_that_ten_does_not_divide() {
    assert_eq!(pick_combinations(&[9, 10, 1], 95), vec![1]);
    assert_eq!(pick_combinations(&[0, 1], 9), vec![1]);
    assert_eq!(pick_combinations(&[0, 1], 10), Vec::<u32>::new());
    assert_eq!(pick_combinations(&[0, 1], 0), vec![1]);
}

#[test]
fn pick_does_not_overflow_on_large_weights() {
    assert_eq!(pick_combinations(&[usize::MAX, 0], usize::MAX), vec![0]);
}

fn samples(combination_id: u32, count: usize, score: i64) -> Vec<Character> {
    (0..count)
        .map(|i| Character::new(vec![Affix::new(i as u32)], combination_id, score))
        .collect()
}

#[test]
fn heuristics_pick_what_holds_more_than_a_tenth_of_the_best() {
    let mut scored = Vec::new();
    scored.extend(samples(0, 100, 1));
    scored.extend(samples(1, 11, 50));
    scored.extend(samples(2, 10, 60));
    scored.extend(samples(3, 40, 70));
    // retained: 40 of combination 3, 10 of 2, 11 of 1, and 39 of 0
    assert_eq!(start_with_heuristics(4, &scored), vec![0, 1, 3]);
}

#[test]
fn heuristics_drop_a_combination_that_is_crowded_out() {
    let mut scored = Vec::new();
    scored.extend(samples(0, 100, 1));
    scored.extend(samples(1, 100, 2));
    assert_eq!(start_with_heuristics(2, &scored), vec![1]);
}

#[test]
fn heuristics_with_too_few_valid_samples() {
    let scored = samples(0, 10, 5);
    assert_eq!(start_with_heuristics(1, &scored), Vec::<u32>::new());
    let scored = samples(0, 11, 5);
    assert_eq!(start_with_heuristics(1, &scored), vec![0]);
    assert_eq!(start_with_heuristics(3, &[]), Vec::<u32>::new());
}

#[test]
fn draws_select_candidates_slot_by_slot() {
    let table = vec![
        vec![Affix::new(1), Affix::new(2), Affix::new(3)],
        vec![Affix::none()],
        vec![Affix::new(7), Affix::new(8)],
    ];
    let gear = get_random_affix_combination(&table, 3, &[4, 1_000_000_007, 5]);
    assert_eq!(gear, vec![Affix::new(2), Affix::none(), Affix::new(8)]);
    let gear = get_random_affix_combination(&table, 2, &[u64::MAX, 0, 9]);
    assert_eq!(gear, vec![Affix::new(1), Affix::none()]);
    assert_eq!(get_random_affix_combination(&table, 0, &[]), Vec::<Affix>::new());
}
