//! The rule that says which secondary damage source a character has.

use vstd::prelude::*;

verus! {

/// The secondary source of strike damage that a character draws on.
#[derive(Clone, Copy, Debug, PartialEq, Eq, Structural)]
pub enum SecondarySource {
    /// Clones and phantasms, with critical stats of their own.
    Phantasm,
    /// An alternate set of power, precision and ferocity.
    Alt,
    /// None.
    Nothing,
}

/// The profession with clones and phantasms, by its exact name.
pub open spec fn is_mesmer_spec(profession: Seq<char>) -> bool {
    profession == "Mesmer"@
}

/// The source whose stats are derived along with the primary ones: clones
/// and phantasms for their profession, whatever its coefficients; for every
/// other profession the alternate stats, where it has a second power
/// coefficient.
pub open spec fn derived_source_spec(mesmer: bool, second_coefficient: bool) -> SecondarySource {
    if mesmer {
        SecondarySource::Phantasm
    } else if second_coefficient {
        SecondarySource::Alt
    } else {
        SecondarySource::Nothing
    }
}

/// The source whose damage is added to the strike damage: none without a
/// second power coefficient; with one, phantasms for their profession and
/// the alternate stats for every other.
pub open spec fn damage_source_spec(mesmer: bool, second_coefficient: bool) -> SecondarySource {
    if !second_coefficient {
        SecondarySource::Nothing
    } else if mesmer {
        SecondarySource::Phantasm
    } else {
        SecondarySource::Alt
    }
}

/// Whether the profession is the one with clones and phantasms.
pub fn is_mesmer(profession: &str) -> (mesmer: bool)
    ensures
        mesmer == is_mesmer_spec(profession@),
{
    let given = profession.to_owned();
    let name = "Mesmer".to_owned();
    given == name
}

/// The source whose stats are derived along with the primary ones.
pub fn derived_source(mesmer: bool, second_coefficient: bool) -> (source: SecondarySource)
    ensures
        source == derived_source_spec(mesmer, second_coefficient),
{
    if mesmer {
        SecondarySource::Phantasm
    } else if second_coefficient {
        SecondarySource::Alt
    } else {
        SecondarySource::Nothing
    }
}

/// The source whose damage is added to the strike damage.
pub fn damage_source(mesmer: bool, second_coefficient: bool) -> (source: SecondarySource)
    ensures
        source == damage_source_spec(mesmer, second_coefficient),
{
    if !second_coefficient {
        SecondarySource::Nothing
    } else if mesmer {
        SecondarySource::Phantasm
    } else {
        SecondarySource::Alt
    }
}

/// Damage is only ever added from the source whose stats were derived: the
/// phantasm and the alternate path never mix.
pub proof fn lemma_damage_from_derived_source(mesmer: bool, second_coefficient: bool)
    ensures
        damage_source_spec(mesmer, second_coefficient) != SecondarySource::Nothing
            ==> damage_source_spec(mesmer, second_coefficient) == derived_source_spec(
            mesmer,
            second_coefficient,
        ),
{
}

} // verus!
