//! What a sample must be able to do to be encoded.

use vstd::prelude::*;
use crate::level::BpsLevel;

verus! {

/// A sample that can be quantized to each of the three bit depths.
///
/// A normalized sample maps `-1.0 ..= 1.0` onto the full scale of the depth:
/// it is scaled by the full scale, rounded toward zero, and values outside
/// that range are clamped to it. Whatever the type, the quantized value never
/// leaves the full scale of the depth, and it depends on the sample alone:
/// the same sample gives the same value on every call. The default of the
/// type is silence.
pub trait IntoSample: Copy + Default {
    /// The value this sample is quantized to at the depth `bps`.
    ///
    /// A type that is verified says here what its conversions compute. Where
    /// a type leaves this as it is, nothing is known of the value but what
    /// the contracts of the conversions say.
    open spec fn quantized(&self, bps: BpsLevel) -> int {
        arbitrary()
    }

    /// The sample at 16 bits.
    fn to_i16(&self) -> (pcm: i16)
        ensures
            pcm == self.quantized(BpsLevel::Bps16),
            BpsLevel::Bps16.holds(pcm as int),
    ;

    /// The sample at 20 bits.
    fn to_i20(&self) -> (pcm: i32)
        ensures
            pcm == self.quantized(BpsLevel::Bps20),
            BpsLevel::Bps20.holds(pcm as int),
    ;

    /// The sample at 24 bits.
    fn to_i24(&self) -> (pcm: i32)
        ensures
            pcm == self.quantized(BpsLevel::Bps24),
            BpsLevel::Bps24.holds(pcm as int),
    ;

    /// The sample at the depth `bps`, widened to the codec's sample type.
    fn to_bps_level(&self, bps: BpsLevel) -> (pcm: i32)
        ensures
            pcm == self.quantized(bps),
            bps.holds(pcm as int),
    {
        match bps {
            BpsLevel::Bps16 => self.to_i16() as i32,
            BpsLevel::Bps20 => self.to_i20(),
            BpsLevel::Bps24 => self.to_i24(),
        }
    }
}

} // verus!
