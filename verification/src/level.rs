//! Scalar capture levels.
//!
//! A level is a normalized volume in the closed range from silence to full
//! scale. It is held as the bit pattern of its IEEE-754 single-precision
//! value: on that range the patterns are ordered exactly as the values are,
//! so levels compare as integers and no precision is lost on the way in or
//! out.

use vstd::prelude::*;

verus! {

/// Bit pattern of full scale, the single-precision value one.
pub const FULL_SCALE_BITS: u32 = 0x3F80_0000;

/// Bit pattern of negative zero, which stands for silence as well.
pub const NEGATIVE_ZERO_BITS: u32 = 0x8000_0000;

/// The position that a bit pattern takes among the levels, if it is the
/// pattern of a value between silence and full scale.
pub open spec fn rank_of_bits(bits: u32) -> Option<nat> {
    if bits <= FULL_SCALE_BITS {
        Some(bits as nat)
    } else if bits == NEGATIVE_ZERO_BITS {
        Some(0nat)
    } else {
        None
    }
}

/// A capture level between silence and full scale.
#[derive(Clone, Copy, Debug, PartialEq, Eq, Structural)]
pub struct Level {
    bits: u32,
}

impl View for Level {
    type V = nat;

    /// The level's rank: zero for silence, `FULL_SCALE_BITS` for full scale,
    /// and a higher rank for a louder level.
    closed spec fn view(&self) -> nat {
        self.bits as nat
    }
}

impl Level {
    #[verifier::type_invariant]
    spec fn in_range(self) -> bool {
        self.bits <= FULL_SCALE_BITS
    }

    /// Two levels of the same rank are the same level.
    pub proof fn lemma_rank_determines_level(a: Level, b: Level)
        requires
            a@ == b@,
        ensures
            a == b,
    {
    }

    /// The level with the given single-precision bit pattern, or `None`
    /// where the pattern is that of a value outside the range (a negative
    /// value, one above full scale, an infinity or a NaN).
    pub fn from_bits(bits: u32) -> (level: Option<Level>)
        ensures
            level is Some <==> rank_of_bits(bits) is Some,
            level matches Some(l) ==> Some(l@) == rank_of_bits(bits),
    {
        if bits <= FULL_SCALE_BITS {
            Some(Level { bits })
        } else if bits == NEGATIVE_ZERO_BITS {
            Some(Level { bits: 0 })
        } else {
            None
        }
    }

    /// The single-precision bit pattern of the level.
    pub fn to_bits(self) -> (bits: u32)
        ensures
            bits == self@,
            bits <= FULL_SCALE_BITS,
            rank_of_bits(bits) == Some(self@),
    {
        proof {
            use_type_invariant(&self);
        }
        self.bits
    }

    /// Full scale: the level that enforcement holds devices at.
    pub fn full_scale() -> (level: Level)
        ensures
            level@ == FULL_SCALE_BITS,
    {
        Level { bits: FULL_SCALE_BITS }
    }

    /// Silence: the lowest level.
    pub fn silence() -> (level: Level)
        ensures
            level@ == 0,
    {
        Level { bits: 0 }
    }

    /// Whether this level is strictly lower than `other`.
    pub fn is_below(self, other: Level) -> (below: bool)
        ensures
            below == (self@ < other@),
    {
        self.bits < other.bits
    }
}

} // verus!
