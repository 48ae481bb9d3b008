use flac_builder::ieee::{quantize_double, quantize_single};
use flac_builder::{BpsLevel, Double, IntoSample, Single};

const LEVELS: [BpsLevel; 3] = [BpsLevel::Bps16, BpsLevel::Bps20, BpsLevel::Bps24];

/// Quantization done in floating point: clamp, scale, drop the fraction.
fn in_single(sample: f32, bps: BpsLevel) -> i32 {
    let max: i32 = bps.max_amplitude();
    match bps {
        BpsLevel::Bps16 => (sample.clamp(-1.0, 1.0) * max as f32) as i16 as i32,
        _ => ((sample.clamp(-1.0, 1.0) * max as f32) as i32).clamp(-max, max),
    }
}

/// Quantization done in floating point: clamp, scale, drop the fraction.
fn in_double(sample: f64, bps: BpsLevel) -> i32 {
    let max: i32 = bps.max_amplitude();
    match bps {
        BpsLevel::Bps16 => (sample.clamp(-1.0, 1.0) * max as f64) as i16 as i32,
        _ => ((sample.clamp(-1.0, 1.0) * max as f64) as i32).clamp(-max, max),
    }
}

fn single(sample: f32, bps: BpsLevel) -> i32 {
    quantize_single(sample.to_bits(), bps)
}

fn double(sample: f64, bps: BpsLevel) -> i32 {
    quantize_double(sample.to_bits(), bps)
}

/// A fixed sequence of well-mixed 64-bit numbers.
fn scrambled(count: usize) -> Vec<u64> {
    let mut state: u64 = 0x9e37_79b9_7f4a_7c15;
    let mut out: Vec<u64> = Vec::with_capacity(count);
    for _ in 0..count {
        state = state.wrapping_add(0x9e37_79b9_7f4a_7c15);
        let mut z: u64 = state;
        z = (z ^ (z >> 30)).wrapping_mul(0xbf58_476d_1ce4_e5b9);
        z = (z ^ (z >> 27)).wrapping_mul(0x94d0_49bb_1331_11eb);
        out.push(z ^ (z >> 31));
    }
    out
}

#[test]
fn exact_values_at_16_bits() {
    assert_eq!(single(0.0, BpsLevel::Bps16), 0);
    assert_eq!(single(-0.0, BpsLevel::Bps16), 0);
    assert_eq!(single(1.0, BpsLevel::Bps16), 32767);
    assert_eq!(single(-1.0, BpsLevel::Bps16), -32767);
    assert_eq!(single(0.5, BpsLevel::Bps16), 16383);
    assert_eq!(single(-0.5, BpsLevel::Bps16), -16383);
    assert_eq!(single(0.25, BpsLevel::Bps16), 8191);
    assert_eq!(single(0.1, BpsLevel::Bps16), 3276);
    assert_eq!(double(0.5, BpsLevel::Bps16), 16383);
    assert_eq!(double(-0.25, BpsLevel::Bps16), -8191);
    assert_eq!(double(0.1, BpsLevel::Bps16), 3276);
}

#[test]
fn exact_values_at_20_and_24_bits() {
    assert_eq!(single(1.0, BpsLevel::Bps20), 524287);
    assert_eq!(single(0.5, BpsLevel::Bps20), 262143);
    assert_eq!(single(-0.5, BpsLevel::Bps20), -262143);
    assert_eq!(single(1.0, BpsLevel::Bps24), 8388607);
    assert_eq!(single(0.5, BpsLevel::Bps24), 4194303);
    assert_eq!(single(-1.0, BpsLevel::Bps24), -8388607);
    assert_eq!(double(0.5, BpsLevel::Bps20), 262143);
    assert_eq!(double(0.75, BpsLevel::Bps24), 6291455);
    assert_eq!(double(-1.0, BpsLevel::Bps20), -524287);
}

#[test]
fn one_and_one_and_a_half_quantize_alike() {
    for bps in LEVELS {
        assert_eq!(single(1.5, bps), single(1.0, bps));
        assert_eq!(single(-1.5, bps), single(-1.0, bps));
        assert_eq!(double(1.5, bps), double(1.0, bps));
        assert_eq!(double(-1.5, bps), double(-1.0, bps));
    }
}

#[test]
fn beyond_the_range_is_the_full_scale() {
    for bps in LEVELS {
        let max: i32 = bps.max_amplitude();
        for sample in [1.0f32, 1.000_000_1, 2.0, 1.0e30, f32::MAX, f32::INFINITY] {
            assert_eq!(single(sample, bps), max);
            assert_eq!(single(-sample, bps), -max);
        }
        for sample in [1.0f64, 1.000_000_000_000_000_2, 2.0, 1.0e300, f64::MAX, f64::INFINITY] {
            assert_eq!(double(sample, bps), max);
            assert_eq!(double(-sample, bps), -max);
        }
    }
}

#[test]
fn not_a_number_is_silence() {
    for bps in LEVELS {
        assert_eq!(single(f32::NAN, bps), 0);
        assert_eq!(single(-f32::NAN, bps), 0);
        assert_eq!(quantize_single(0x7f80_0001, bps), 0);
        assert_eq!(quantize_single(0xffff_ffff, bps), 0);
        assert_eq!(double(f64::NAN, bps), 0);
        assert_eq!(double(-f64::NAN, bps), 0);
        assert_eq!(quantize_double(0x7ff0_0000_0000_0001, bps), 0);
        assert_eq!(quantize_double(u64::MAX, bps), 0);
    }
}

#[test]
fn tiny_samples_are_silence() {
    for bps in LEVELS {
        for sample in [f32::MIN_POSITIVE, 1.0e-45, 1.0e-40, 1.0e-10, 1.0e-8] {
            assert_eq!(single(sample, bps), 0);
            assert_eq!(single(-sample, bps), 0);
        }
        for sample in [f64::MIN_POSITIVE, 5.0e-324, 1.0e-310, 1.0e-100, 1.0e-8] {
            assert_eq!(double(sample, bps), 0);
            assert_eq!(double(-sample, bps), 0);
        }
    }
}

#[test]
fn just_below_one_is_just_below_the_full_scale_or_at_it() {
    let below_single: f32 = f32::from_bits(1.0f32.to_bits() - 1);
    let below_double: f64 = f64::from_bits(1.0f64.to_bits() - 1);
    for bps in LEVELS {
        assert_eq!(single(below_single, bps), in_single(below_single, bps));
        assert_eq!(double(below_double, bps), in_double(below_double, bps));
    }
    assert_eq!(single(below_single, BpsLevel::Bps16), 32766);
    assert_eq!(single(below_single, BpsLevel::Bps24), 8388606);
    assert_eq!(double(below_double, BpsLevel::Bps16), 32766);
    assert_eq!(double(below_double, BpsLevel::Bps24), 8388606);
}

#[test]
fn rounding_of_the_product_can_reach_the_next_integer() {
    // 2 / 32767 lies between two single-precision numbers; the product of the
    // upper one with 32767 is a hair above 2 before rounding, that of the
    // lower one a hair below, and rounding takes the latter up to 2.
    let near: f32 = 2.0 / 32767.0;
    let candidates = [
        f32::from_bits(near.to_bits() - 1),
        near,
        f32::from_bits(near.to_bits() + 1),
    ];
    for sample in candidates {
        for bps in LEVELS {
            assert_eq!(single(sample, bps), in_single(sample, bps));
        }
    }
}

#[test]
fn single_agrees_with_floating_point_on_scattered_patterns() {
    for word in scrambled(60_000) {
        let bits: u32 = (word >> 32) as u32;
        let sample: f32 = f32::from_bits(bits);
        for bps in LEVELS {
            assert_eq!(quantize_single(bits, bps), in_single(sample, bps), "bits {:#x}", bits);
        }
    }
}

#[test]
fn single_agrees_with_floating_point_inside_the_range() {
    for word in scrambled(60_000) {
        // Exponents from 2^-32 up to just below 1, any fraction, either sign.
        let exponent: u32 = 95 + ((word >> 40) as u32 % 32);
        let bits: u32 = ((word as u32) & 0x807f_ffff) | (exponent << 23);
        let sample: f32 = f32::from_bits(bits);
        assert!(sample.abs() < 1.0);
        for bps in LEVELS {
            assert_eq!(quantize_single(bits, bps), in_single(sample, bps), "bits {:#x}", bits);
        }
    }
}

#[test]
fn single_agrees_with_floating_point_near_every_step_at_16_bits() {
    for step in 1..32767u32 {
        let near: f32 = step as f32 / 32767.0;
        let at: u32 = near.to_bits();
        for bits in at - 2..=at + 2 {
            let sample: f32 = f32::from_bits(bits);
            assert_eq!(
                quantize_single(bits, BpsLevel::Bps16),
                in_single(sample, BpsLevel::Bps16),
                "bits {:#x}",
                bits
            );
        }
    }
}

#[test]
fn double_agrees_with_floating_point_on_scattered_patterns() {
    for bits in scrambled(60_000) {
        let sample: f64 = f64::from_bits(bits);
        for bps in LEVELS {
            assert_eq!(quantize_double(bits, bps), in_double(sample, bps), "bits {:#x}", bits);
        }
    }
}

#[test]
fn double_agrees_with_floating_point_inside_the_range() {
    for word in scrambled(60_000) {
        // Exponents from 2^-64 up to just below 1, any fraction, either sign.
        let exponent: u64 = 959 + ((word >> 3) % 64);
        let bits: u64 = (word.rotate_left(17) & 0x800f_ffff_ffff_ffff) | (exponent << 52);
        let sample: f64 = f64::from_bits(bits);
        assert!(sample.abs() < 1.0);
        for bps in LEVELS {
            assert_eq!(quantize_double(bits, bps), in_double(sample, bps), "bits {:#x}", bits);
        }
    }
}

#[test]
fn double_agrees_with_floating_point_near_every_step_at_16_bits() {
    for step in 1..32767u32 {
        let near: f64 = step as f64 / 32767.0;
        let at: u64 = near.to_bits();
        for bits in at - 2..=at + 2 {
            let sample: f64 = f64::from_bits(bits);
            assert_eq!(
                quantize_double(bits, BpsLevel::Bps16),
                in_double(sample, BpsLevel::Bps16),
                "bits {:#x}",
                bits
            );
        }
    }
}

#[test]
fn agreement_on_subnormal_and_smallest_normal_patterns() {
    for bps in LEVELS {
        for bits in (0..0x0100_0000u32).step_by(0x1_0001) {
            assert_eq!(quantize_single(bits, bps), in_single(f32::from_bits(bits), bps));
        }
        for bits in (0..0x0020_0000_0000_0000u64).step_by(0x1_0000_0001_0001) {
            assert_eq!(quantize_double(bits, bps), in_double(f64::from_bits(bits), bps));
        }
    }
}

#[test]
fn every_quantized_sample_is_inside_the_full_scale() {
    for word in scrambled(20_000) {
        for bps in LEVELS {
            let max: i32 = bps.max_amplitude();
            let narrow: i32 = quantize_single(word as u32, bps);
            let wide: i32 = quantize_double(word, bps);
            assert!(-max <= narrow && narrow <= max);
            assert!(-max <= wide && wide <= max);
        }
    }
}

#[test]
fn sample_types_quantize_their_bit_patterns() {
    let narrow = Single(0.5f32.to_bits());
    assert_eq!(narrow.to_i16(), 16383);
    assert_eq!(narrow.to_i20(), 262143);
    assert_eq!(narrow.to_i24(), 4194303);
    assert_eq!(narrow.to_bps_level(BpsLevel::Bps16), 16383);
    assert_eq!(narrow.to_bps_level(BpsLevel::Bps20), 262143);
    assert_eq!(narrow.to_bps_level(BpsLevel::Bps24), 4194303);

    let wide = Double((-0.5f64).to_bits());
    assert_eq!(wide.to_i16(), -16383);
    assert_eq!(wide.to_i20(), -262143);
    assert_eq!(wide.to_i24(), -4194303);
    assert_eq!(wide.to_bps_level(BpsLevel::Bps24), -4194303);
}

#[test]
fn default_sample_is_silence() {
    assert_eq!(Single::default().0, 0.0f32.to_bits());
    assert_eq!(Double::default().0, 0.0f64.to_bits());
    for bps in LEVELS {
        assert_eq!(Single::default().to_bps_level(bps), 0);
        assert_eq!(Double::default().to_bps_level(bps), 0);
    }
}

#[test]
fn equal_values_quantize_alike_in_both_precisions() {
    // Numbers with few significant bits are the same number in both
    // precisions.
    for numerator in -256..=256i32 {
        let narrow: f32 = numerator as f32 / 256.0;
        let wide: f64 = numerator as f64 / 256.0;
        for bps in LEVELS {
            assert_eq!(single(narrow, bps), double(wide, bps));
        }
    }
}

#[test]
fn flipping_the_sign_flips_the_result() {
    for word in scrambled(20_000) {
        let narrow: u32 = (word as u32) & 0x7fff_ffff;
        let wide: u64 = word & 0x7fff_ffff_ffff_ffff;
        for bps in LEVELS {
            assert_eq!(quantize_single(narrow | 0x8000_0000, bps), -quantize_single(narrow, bps));
            assert_eq!(
                quantize_double(wide | 0x8000_0000_0000_0000, bps),
                -quantize_double(wide, bps)
            );
            assert!(quantize_single(narrow, bps) >= 0);
            assert!(quantize_double(wide, bps) >= 0);
        }
    }
}

#[test]
fn result_is_the_whole_part_of_the_exact_product_or_one_more() {
    for word in scrambled(40_000) {
        // A single-precision number below one: its value is
        // significand / 2^shift.
        let exponent: u32 = 100 + ((word >> 40) as u32 % 27);
        let fraction: u32 = (word as u32) & 0x007f_ffff;
        let bits: u32 = (exponent << 23) | fraction;
        let significand: u128 = (0x0080_0000 + fraction) as u128;
        let shift: u32 = 150 - exponent;
        for bps in LEVELS {
            let max: u128 = bps.max_amplitude() as u128;
            let exact: i32 = ((significand * max) >> shift) as i32;
            let got: i32 = quantize_single(bits, bps);
            assert!(got == exact || got == exact + 1, "bits {:#x}", bits);
        }
    }
}
