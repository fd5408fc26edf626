//! Identifiers of equipment modifiers.

use vstd::prelude::*;

verus! {

/// The number that marks a slot nothing is equipped in.
pub const NONE_NUMBER: u32 = 0;

/// A selectable equipment modifier for one gear slot, known by its number.
#[derive(Clone, Copy, Debug, PartialEq, Eq, Structural)]
pub struct Affix {
    pub number: u32,
}

impl Affix {
    /// The affix with the given number.
    pub fn new(number: u32) -> (affix: Affix)
        ensures
            affix.number == number,
    {
        Affix { number }
    }

    /// The sentinel of an unused slot.
    pub fn none() -> (affix: Affix)
        ensures
            affix.number == NONE_NUMBER,
            affix.is_none_spec(),
    {
        Affix { number: NONE_NUMBER }
    }

    /// Whether this is the sentinel of an unused slot.
    pub open spec fn is_none_spec(self) -> bool {
        self.number == NONE_NUMBER
    }

    /// Whether this is the sentinel of an unused slot.
    pub fn is_none(&self) -> (none: bool)
        ensures
            none == self.is_none_spec(),
    {
        self.number == NONE_NUMBER
    }

    /// The number that identifies this affix.
    pub fn to_number(&self) -> (number: u32)
        ensures
            number == self.number,
    {
        self.number
    }
}

/// A copy of a gear assignment.
pub fn copy_gear(gear: &[Affix]) -> (copy: Vec<Affix>)
    ensures
        copy@ == gear@,
{
    let mut copy: Vec<Affix> = Vec::new();
    let mut i: usize = 0;
    while i < gear.len()
        invariant
            i <= gear.len(),
            copy@ == gear@.subrange(0, i as int),
        decreases gear.len() - i,
    {
        copy.push(gear[i]);
        i += 1;
        assert(copy@ =~= gear@.subrange(0, i as int));
    }
    assert(gear@.subrange(0, gear.len() as int) =~= gear@);
    copy
}

} // verus!
