//! The integer by which a score is ranked, from the score's bit pattern.

use vstd::prelude::*;

verus! {

/// The bit that holds the sign of a single-precision number.
pub const SIGN_BIT: u32 = 0x8000_0000;

/// The bits that hold the exponent and the fraction.
pub const MAGNITUDE_BITS: u32 = 0x7fff_ffff;

/// The magnitude of the infinities: every greater magnitude is not a number.
pub const INFINITY_BITS: u32 = 0x7f80_0000;

/// The pattern stands for no number.
pub open spec fn is_nan_bits(bits: u32) -> bool {
    bits & MAGNITUDE_BITS > INFINITY_BITS
}

/// The rank key of a single-precision bit pattern: the magnitude bits, read
/// as an integer, with the sign of the number; for what is not a number, the
/// least key there is.
pub open spec fn rank_key_spec(bits: u32) -> i64 {
    if is_nan_bits(bits) {
        i64::MIN
    } else if bits & SIGN_BIT == 0 {
        (bits & MAGNITUDE_BITS) as i64
    } else {
        (-((bits & MAGNITUDE_BITS) as i64)) as i64
    }
}

/// The rank key of a score given by its single-precision bit pattern.
pub fn rank_key(bits: u32) -> (key: i64)
    ensures
        key == rank_key_spec(bits),
{
    let magnitude = bits & MAGNITUDE_BITS;
    if magnitude > INFINITY_BITS {
        i64::MIN
    } else if bits & SIGN_BIT == 0 {
        magnitude as i64
    } else {
        -(magnitude as i64)
    }
}

/// Rank keys order the patterns as sign and magnitude order numbers: among
/// patterns without the sign bit the greater pattern has the greater key,
/// among patterns with it the lesser; no pattern with the sign bit has a key
/// above one without; the two zeros share a key; and what is not a number
/// ranks below every number.
pub proof fn lemma_rank_key_orders(a: u32, b: u32)
    requires
        !is_nan_bits(a),
        !is_nan_bits(b),
    ensures
        a & SIGN_BIT == 0 && b & SIGN_BIT == 0 ==> (rank_key_spec(a) <= rank_key_spec(b) <==> a
            <= b),
        a & SIGN_BIT != 0 && b & SIGN_BIT != 0 ==> (rank_key_spec(a) <= rank_key_spec(b) <==> a
            >= b),
        a & SIGN_BIT != 0 && b & SIGN_BIT == 0 ==> rank_key_spec(a) <= rank_key_spec(b),
        rank_key_spec(0) == rank_key_spec(SIGN_BIT),
        rank_key_spec(a) > i64::MIN,
{
    assert(a & 0x8000_0000u32 == 0 ==> a & 0x7fff_ffffu32 == a) by (bit_vector);
    assert(b & 0x8000_0000u32 == 0 ==> b & 0x7fff_ffffu32 == b) by (bit_vector);
    assert(a & 0x8000_0000u32 != 0 ==> a == (a & 0x7fff_ffffu32) + 0x8000_0000u32) by (bit_vector);
    assert(b & 0x8000_0000u32 != 0 ==> b == (b & 0x7fff_ffffu32) + 0x8000_0000u32) by (bit_vector);
    assert(0u32 & 0x7fff_ffffu32 == 0 && 0u32 & 0x8000_0000u32 == 0) by (bit_vector);
    assert(0x8000_0000u32 & 0x7fff_ffffu32 == 0 && 0x8000_0000u32 & 0x8000_0000u32 != 0)
        by (bit_vector);
}

} // verus!
