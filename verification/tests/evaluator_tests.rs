use gear_optimizer::affix::{copy_gear, Affix, NONE_NUMBER};
use gear_optimizer::attribute::{Attribute, Condition, ATTRIBUTE_COUNT};
use gear_optimizer::evaluator::{locate_gear, position_in_slot, structure_matches};
use gear_optimizer::progress::{compact_combinations, is_progress_due, PROGRESS_UPDATE_INTERVALL};
use gear_optimizer::collector::Character;
use gear_optimizer::profession::{damage_source, derived_source, is_mesmer, SecondarySource};

fn slot(numbers: &[u32]) -> Vec<Affix> {
    numbers.iter().map(|n| Affix::new(*n)).collect()
}

#[test]
fn affix_is_known_by_its_number() {
    assert_eq!(Affix::new(17).to_number(), 17);
    assert_eq!(Affix::none().to_number(), NONE_NUMBER);
    assert!(Affix::none().is_none());
    assert!(!Affix::new(17).is_none());
    assert_eq!(Affix::new(3), Affix::new(3));
    assert_ne!(Affix::new(3), Affix::new(4));
}

#[test]
fn copy_gear_copies() {
    let gear = slot(&[5, 0, 9]);
    assert_eq!(copy_gear(&gear), gear);
    assert_eq!(copy_gear(&[]), Vec::<Affix>::new());
}

#[test]
fn position_is_that_of_the_first_match() {
    let candidates = slot(&[4, 8, 4, 15]);
    assert_eq!(position_in_slot(&candidates, Affix::new(4)), Some(0));
    assert_eq!(position_in_slot(&candidates, Affix::new(15)), Some(3));
    assert_eq!(position_in_slot(&candidates, Affix::new(16)), None);
    assert_eq!(position_in_slot(&[], Affix::new(4)), None);
}

#[test]
fn gear_is_located_slot_by_slot() {
    let table = vec![slot(&[1, 2, 3]), slot(&[1, 2, 3]), slot(&[0])];
    assert_eq!(locate_gear(&table, &slot(&[3, 1, 0])), vec![2, 0, 0]);
    assert_eq!(locate_gear(&table, &slot(&[2, 2])), vec![1, 1]);
    assert_eq!(locate_gear(&table, &[]), Vec::<usize>::new());
}

#[test]
fn locating_stops_at_the_first_affix_that_is_no_candidate() {
    let table = vec![slot(&[1, 2, 3]), slot(&[1, 2, 3]), slot(&[5, 6])];
    assert_eq!(locate_gear(&table, &slot(&[3, 9, 5])), vec![2]);
    assert_eq!(locate_gear(&table, &slot(&[9, 1, 5])), Vec::<usize>::new());
    assert_eq!(locate_gear(&table, &slot(&[1, 1, 7])), vec![0, 0]);
}

#[test]
fn structure_is_checked_before_the_search() {
    let table = vec![slot(&[1, 2, 3]), slot(&[4])];
    assert!(structure_matches(2, &table, &[3, 1]));
    assert!(structure_matches(1, &table, &[3, 1]));
    assert!(!structure_matches(3, &table, &[3, 1]));
    assert!(!structure_matches(2, &table, &[3]));
    assert!(!structure_matches(2, &table, &[3, 2]));
    assert!(!structure_matches(2, &table, &[2, 1]));
    assert!(structure_matches(0, &[], &[]));
}

#[test]
fn attributes_have_places_of_their_own() {
    let some = [
        Attribute::Power,
        Attribute::Precision,
        Attribute::Health,
        Attribute::CriticalChance,
        Attribute::BleedingDPS,
        Attribute::TormentDamageTick,
        Attribute::Damage,
        Attribute::EffectiveHealing,
    ];
    for (i, a) in some.iter().enumerate() {
        assert!(a.index() < ATTRIBUTE_COUNT);
        for b in &some[i + 1..] {
            assert_ne!(a.index(), b.index());
        }
    }
    assert_eq!(Attribute::Power.index(), 0);
    assert_eq!(Attribute::EffectiveHealing.index(), ATTRIBUTE_COUNT - 1);
}

#[test]
fn point_keys_and_chances() {
    assert!(Attribute::Power.is_point_key());
    assert!(Attribute::Health.is_point_key());
    assert!(!Attribute::CriticalChance.is_point_key());
    assert!(!Attribute::BoonDuration.is_point_key());
    assert!(Attribute::Power.is_rounded(false));
    assert!(!Attribute::Power.is_rounded(true));
    assert!(!Attribute::CriticalChance.is_rounded(false));
    assert!(!Attribute::CriticalChance.is_rounded(true));
    assert!(Attribute::CriticalChance.is_chance());
    assert!(Attribute::CloneCriticalChance.is_chance());
    assert!(Attribute::PhantasmCriticalChance.is_chance());
    assert!(!Attribute::AltCriticalChance.is_chance());
}

#[test]
fn conditions_name_their_attributes() {
    assert_eq!(Condition::Torment.get_damage_tick_attribute(), Attribute::TormentDamageTick);
    assert_eq!(Condition::Burning.get_coefficient_attribute(), Attribute::BurningCoefficient);
    assert_eq!(Condition::Poison.get_duration_attribute(), Attribute::PoisonDuration);
    assert_eq!(Condition::Bleeding.get_stacks_attribute(), Attribute::BleedingStacks);
    assert_eq!(Condition::Confusion.get_dps_attribute(), Attribute::ConfusionDPS);
    assert_eq!(Condition::Confusion.get_damage_mod_attribute(), Attribute::OutgoingConfusionDamage);
    assert!(Condition::Confusion.has_special_tick());
    assert!(Condition::Torment.has_special_tick());
    assert!(!Condition::Burning.has_special_tick());
}

#[test]
fn progress_is_due_at_each_interval() {
    assert!(is_progress_due(PROGRESS_UPDATE_INTERVALL));
    assert!(is_progress_due(3 * PROGRESS_UPDATE_INTERVALL));
    assert!(!is_progress_due(PROGRESS_UPDATE_INTERVALL + 1));
    assert!(!is_progress_due(1));
}

#[test]
fn combinations_are_renumbered_in_order_of_first_reference() {
    let best = vec![
        Character::new(slot(&[1]), 40, 9),
        Character::new(slot(&[2]), 7, 8),
        Character::new(slot(&[3]), 40, 7),
        Character::new(slot(&[4]), 0, 6),
        Character::new(slot(&[5]), 7, 5),
    ];
    let (compacted, referenced) = compact_combinations(&best);
    assert_eq!(referenced, vec![40, 7, 0]);
    let ids: Vec<u32> = compacted.iter().map(|c| c.combination_id).collect();
    assert_eq!(ids, vec![0, 1, 0, 2, 1]);
    for (before, after) in best.iter().zip(compacted.iter()) {
        assert_eq!(before.gear, after.gear);
        assert_eq!(before.score, after.score);
        assert_eq!(referenced[after.combination_id as usize], before.combination_id);
    }
    assert_eq!(best[0].combination_id, 40);
}

#[test]
fn renumbering_nothing_references_nothing() {
    let (compacted, referenced) = compact_combinations(&[]);
    assert!(compacted.is_empty());
    assert!(referenced.is_empty());
}

#[test]
fn locating_the_same_gear_twice_gives_the_same_places() {
    let table = vec![slot(&[1, 2, 3]), slot(&[3, 2, 1]), slot(&[0, 5])];
    let gear = slot(&[2, 1, 5]);
    let first = locate_gear(&table, &gear);
    let second = locate_gear(&table, &gear);
    assert_eq!(first, vec![1, 2, 1]);
    assert_eq!(first, second);
}

#[test]
fn profession_is_matched_by_its_exact_name() {
    assert!(is_mesmer("Mesmer"));
    assert!(!is_mesmer("mesmer"));
    assert!(!is_mesmer("Mesmer "));
    assert!(!is_mesmer("Necromancer"));
    assert!(!is_mesmer(""));
}

#[test]
fn secondary_sources_never_mix() {
    assert_eq!(derived_source(true, false), SecondarySource::Phantasm);
    assert_eq!(derived_source(true, true), SecondarySource::Phantasm);
    assert_eq!(derived_source(false, true), SecondarySource::Alt);
    assert_eq!(derived_source(false, false), SecondarySource::Nothing);
    assert_eq!(damage_source(true, false), SecondarySource::Nothing);
    assert_eq!(damage_source(true, true), SecondarySource::Phantasm);
    assert_eq!(damage_source(false, true), SecondarySource::Alt);
    assert_eq!(damage_source(false, false), SecondarySource::Nothing);
}
