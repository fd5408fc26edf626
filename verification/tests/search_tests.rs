use gear_optimizer::affix::Affix;
use gear_optimizer::collector::Character;
use gear_optimizer::progress::PROGRESS_UPDATE_INTERVALL;
use gear_optimizer::search::Search;

fn character(tag: u32, score: i64) -> Character {
    Character::new(vec![Affix::new(tag)], 0, score)
}

#[test]
fn new_search_has_evaluated_nothing() {
    let search = Search::new(2);
    assert_eq!(search.counter(), 0);
    assert!(search.has_room());
    assert!(search.best_characters().is_empty());
}

#[test]
fn invalid_evaluations_are_counted_and_not_retained() {
    let mut search = Search::new(2);
    assert!(!search.record(None));
    assert!(!search.record(Some(&character(1, 5))));
    assert!(!search.record(None));
    assert_eq!(search.counter(), 3);
    let best = search.best_characters();
    assert_eq!(best.len(), 1);
    assert_eq!(best[0].gear, vec![Affix::new(1)]);
}

#[test]
fn search_retains_the_best_within_its_capacity() {
    let mut search = Search::new(2);
    for (tag, score) in [(1u32, 5i64), (2, 9), (3, 7), (4, 1)] {
        search.record(Some(&character(tag, score)));
    }
    let result = search.into_result();
    assert_eq!(result.capacity(), 2);
    let scores: Vec<i64> = result.best_characters().iter().map(|c| c.score).collect();
    assert_eq!(scores, vec![9, 7]);
}

#[test]
fn progress_is_due_after_every_full_interval() {
    let mut search = Search::new(1);
    let mut due_at: Vec<u64> = Vec::new();
    for _ in 0..(2 * PROGRESS_UPDATE_INTERVALL + 5) {
        if search.record(None) {
            due_at.push(search.counter());
        }
    }
    assert_eq!(due_at, vec![PROGRESS_UPDATE_INTERVALL, 2 * PROGRESS_UPDATE_INTERVALL]);
}
