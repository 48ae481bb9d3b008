//! The bit depths a stream can be quantized to.

use vstd::prelude::*;
use vstd::arithmetic::power2::{lemma2_to64, pow2};

verus! {

/// Bits per quantized sample: one of three depths, nothing in between.
#[derive(Debug, Clone, Copy, PartialEq, Eq, Structural)]
pub enum BpsLevel {
    Bps16,
    Bps20,
    Bps24,
}

impl BpsLevel {
    /// The number of bits of one sample at this depth.
    pub open spec fn bits(self) -> nat {
        match self {
            BpsLevel::Bps16 => 16,
            BpsLevel::Bps20 => 20,
            BpsLevel::Bps24 => 24,
        }
    }

    /// The largest magnitude a quantized sample takes at this depth.
    pub open spec fn full_scale(self) -> int {
        match self {
            BpsLevel::Bps16 => 32767,
            BpsLevel::Bps20 => 524287,
            BpsLevel::Bps24 => 8388607,
        }
    }

    /// Whether `value` is a quantized sample of this depth.
    pub open spec fn holds(self, value: int) -> bool {
        -self.full_scale() <= value <= self.full_scale()
    }

    /// The depth as the number the codec is configured with.
    pub fn to_u32(&self) -> (bits: u32)
        ensures
            bits == self.bits(),
    {
        match self {
            BpsLevel::Bps16 => 16,
            BpsLevel::Bps20 => 20,
            BpsLevel::Bps24 => 24,
        }
    }

    /// The full scale of the depth as a machine integer.
    pub fn max_amplitude(&self) -> (max: i32)
        ensures
            max == self.full_scale(),
    {
        match self {
            BpsLevel::Bps16 => 32767,
            BpsLevel::Bps20 => 524287,
            BpsLevel::Bps24 => 8388607,
        }
    }

    /// Half of the power of two that lies just above the full scale: `2^(B-2)`
    /// for a depth of `B` bits.
    pub(crate) fn half_range(&self) -> (half: u64)
        ensures
            2 * half == self.full_scale() + 1,
            half == pow2((self.bits() - 2) as nat),
    {
        proof {
            lemma2_to64();
        }
        match self {
            BpsLevel::Bps16 => 0x4000,
            BpsLevel::Bps20 => 0x4_0000,
            BpsLevel::Bps24 => 0x40_0000,
        }
    }

    /// The full scale of a depth of `B` bits is `2^(B-1) - 1`.
    pub proof fn lemma_full_scale_is_power(self)
        ensures
            self.full_scale() == pow2((self.bits() - 1) as nat) - 1,
    {
        lemma2_to64();
    }
}

} // verus!
