//! Normalized samples in the two binary floating-point formats, read from
//! their bit patterns.
//!
//! A sample is scaled by the full scale of the bit depth, the product is
//! rounded as floating-point multiplication rounds it, and what is left of it
//! after the point is dropped. Samples beyond `-1.0 ..= 1.0` count as the
//! nearer end of that range, and what is not a number counts as silence.
//! All of it is integer arithmetic on the fields of the bit pattern.

use vstd::prelude::*;
use vstd::arithmetic::div_mod::{
    lemma_basic_div,
    lemma_div_by_multiple,
    lemma_div_is_ordered,
    lemma_fundamental_div_mod,
    lemma_multiply_divide_lt,
};
use vstd::arithmetic::power2::{
    lemma2_to64,
    lemma2_to64_rest,
    lemma_pow2_adds,
    lemma_pow2_pos,
    lemma_pow2_strictly_increases,
    pow2,
};
use vstd::bits::lemma_u64_shr_is_div;
use crate::level::BpsLevel;
use crate::sample::IntoSample;
use crate::rounding::{
    bit_length,
    lemma_bit_length_between,
    lemma_bit_length_bounds,
    lemma_divide_in_steps,
    lemma_nearest_even_keeps_side,
    nearest_even,
    rounded,
};

verus! {

/// The whole part of `significand / 2^shift` times `max`, where the product
/// is first rounded to `precision` significant bits.
pub open spec fn scaled(significand: nat, shift: nat, precision: nat, max: nat) -> nat {
    rounded(significand * max, precision) / pow2(shift)
}

/// What a floating-point number is quantized to, from its three fields.
///
/// The format has `fraction_bits` bits of fraction and the exponent bias
/// `bias`; its largest exponent field, `2 * bias + 1`, marks infinities
/// (fraction zero) and what is not a number (any other fraction). A number of
/// magnitude one or more, an infinity too, gives `max`; what is not a number
/// gives zero; a magnitude below one is scaled by `max`. The sign of the
/// number is the sign of the result.
pub open spec fn quantized_fields(
    negative: bool,
    exponent: nat,
    fraction: nat,
    fraction_bits: nat,
    bias: nat,
    max: nat,
) -> int {
    let magnitude = if exponent == 2 * bias + 1 {
        if fraction == 0 {
            max
        } else {
            0
        }
    } else if exponent >= bias {
        max
    } else if exponent == 0 {
        scaled(fraction, (bias + fraction_bits - 1) as nat, fraction_bits + 1, max)
    } else {
        scaled(
            pow2(fraction_bits) + fraction,
            (bias + fraction_bits - exponent) as nat,
            fraction_bits + 1,
            max,
        )
    };
    if negative {
        -magnitude
    } else {
        magnitude as int
    }
}

/// What the single-precision number with the bit pattern `bits` is quantized
/// to at the depth `bps`.
pub open spec fn single_quantized(bits: u32, bps: BpsLevel) -> int {
    quantized_fields(
        bits >= 0x8000_0000,
        ((bits / 0x80_0000) % 0x100) as nat,
        (bits % 0x80_0000) as nat,
        23,
        127,
        bps.full_scale() as nat,
    )
}

/// What the double-precision number with the bit pattern `bits` is quantized
/// to at the depth `bps`.
pub open spec fn double_quantized(bits: u64, bps: BpsLevel) -> int {
    quantized_fields(
        bits >= 0x8000_0000_0000_0000,
        ((bits / 0x10_0000_0000_0000) % 0x800) as nat,
        (bits % 0x10_0000_0000_0000) as nat,
        52,
        1023,
        bps.full_scale() as nat,
    )
}

/// A product that is at most a power of two is rounded to that power at
/// most.
proof fn lemma_rounded_below_power(p: nat, precision: nat, e: nat)
    requires
        precision >= 1,
        p <= pow2(e),
    ensures
        rounded(p, precision) <= pow2(e),
{
    let length = bit_length(p);
    if length > precision {
        let step = (length - precision) as nat;
        lemma_bit_length_bounds(p);
        if e < length - 1 {
            lemma_pow2_strictly_increases(e, (length - 1) as nat);
        }
        assert(e >= step);
        lemma_pow2_adds((e - step) as nat, step);
        lemma_nearest_even_keeps_side(p, pow2(step), pow2((e - step) as nat));
    }
}

/// The whole part of `significand / 2^shift` times the full scale of `bps`,
/// the product rounded to `precision` significant bits.
fn scale(significand: u64, shift: u32, hidden: u64, precision: u32, bps: BpsLevel) -> (pcm: u32)
    requires
        precision == 24 || precision == 53,
        hidden == pow2((precision - 1) as nat),
        significand < 2 * hidden,
        precision <= shift,
        shift < precision + 24 ==> significand >= hidden,
    ensures
        pcm == scaled(
            significand as nat,
            shift as nat,
            precision as nat,
            bps.full_scale() as nat,
        ),
        pcm <= bps.full_scale(),
{
    let max = bps.max_amplitude() as u64;
    let low = bps.half_range();
    let ghost width = (bps.bits() - 1) as nat;
    proof {
        lemma2_to64();
        lemma2_to64_rest();
        bps.lemma_full_scale_is_power();
        lemma_pow2_adds((precision - 1) as nat, 1);
        assert(2 * hidden == pow2(precision as nat));
        lemma_pow2_adds((width - 1) as nat, 1);
        assert(2 * low == pow2(width));
        assert(significand * max < pow2(precision as nat) * pow2(width)) by (nonlinear_arith)
            requires
                significand < pow2(precision as nat),
                max < pow2(width),
                0 <= max,
        ;
        lemma_pow2_adds(precision as nat, width);
    }
    if shift >= precision + 24 {
        proof {
            let product = (significand * max) as nat;
            lemma_rounded_below_power(product, precision as nat, precision as nat + width);
            lemma_pow2_strictly_increases(precision as nat + width, shift as nat);
            lemma_basic_div(rounded(product, precision as nat) as int, pow2(shift as nat) as int);
        }
        return 0;
    }
    assert(pow2(precision as nat + width) <= 0x1_0000_0000_0000_0000_0000) by {
        if precision as nat + width < 76 {
            lemma_pow2_strictly_increases(precision as nat + width, 76);
        }
        lemma_pow2_adds(64, 12);
    }
    let product: u128 = significand as u128 * max as u128;
    let top: u128 = hidden as u128 * 2 * low as u128;
    proof {
        lemma_pow2_adds(precision as nat, (width - 1) as nat);
        assert(top == pow2((precision + width - 1) as nat)) by (nonlinear_arith)
            requires
                top == hidden * 2 * low,
                2 * hidden == pow2(precision as nat),
                low == pow2((width - 1) as nat),
                pow2(precision as nat) * pow2((width - 1) as nat) == pow2(
                    (precision + width - 1) as nat,
                ),
        ;
    }
    let (unit, step): (u128, u32) = if product >= top {
        (2 * low as u128, bps.to_u32() - 1)
    } else {
        (low as u128, bps.to_u32() - 2)
    };
    proof {
        if product >= top {
            lemma_bit_length_between(product as nat, precision as nat + width);
        } else {
            lemma_pow2_adds((precision - 1) as nat, (width - 1) as nat);
            assert(product >= pow2((precision + width - 2) as nat)) by (nonlinear_arith)
                requires
                    product == significand * max,
                    significand >= hidden,
                    max == 2 * low - 1,
                    low >= 1,
                    hidden * low == pow2((precision + width - 2) as nat),
            ;
            lemma_bit_length_between(product as nat, (precision + width - 1) as nat);
        }
        assert(bit_length(product as nat) == precision + step);
        assert(unit == pow2(step as nat));
        assert(rounded(product as nat, precision as nat) == nearest_even(
            product as nat,
            unit as nat,
        ));
    }
    let below = product / unit;
    let rest = product % unit;
    let count = if 2 * rest < unit || (2 * rest == unit && below % 2 == 0) {
        below
    } else {
        below + 1
    };
    let ghost turn = (shift - step) as nat;
    proof {
        assert(count * unit == nearest_even(product as nat, unit as nat));
        lemma_pow2_adds(turn, step as nat);
        lemma_pow2_pos(turn);
        lemma_pow2_pos(shift as nat);
        lemma_pow2_strictly_increases(width, shift as nat);
        lemma_scaled_within(significand as nat, shift as nat, precision as nat, max as nat);
        lemma_divide_in_steps(count as nat, step as nat, shift as nat);
        // The rounded product has no more than one bit over the precision.
        lemma_pow2_adds((precision + 1) as nat, (width - 1) as nat);
        assert(product < unit * pow2((precision + 1) as nat)) by (nonlinear_arith)
            requires
                product < pow2((precision + 1) as nat) * low,
                low <= unit,
        ;
        lemma_multiply_divide_lt(product as int, unit as int, pow2((precision + 1) as nat) as int);
        lemma_pow2_strictly_increases((precision + 1) as nat, 63);
        lemma_u64_shr_is_div(count as u64, (shift - step) as u64);
    }
    let whole = (count as u64) >> ((shift - step) as u64);
    whole as u32
}

/// A magnitude below one, scaled, stays at or below the scale: the rounding
/// of the product never takes it beyond.
pub proof fn lemma_scaled_within(significand: nat, shift: nat, precision: nat, max: nat)
    requires
        1 <= precision <= shift,
        significand < pow2(precision),
        max < pow2(shift),
    ensures
        scaled(significand, shift, precision, max) <= max,
{
    let product = significand * max;
    let length = bit_length(product);
    let whole = max * pow2(shift);
    lemma_pow2_pos(shift);
    if precision < shift {
        lemma_pow2_strictly_increases(precision, shift);
    }
    assert(product <= whole) by (nonlinear_arith)
        requires
            product == significand * max,
            whole == max * pow2(shift),
            significand < pow2(precision),
            pow2(precision) <= pow2(shift),
    ;
    if length > precision {
        let step = (length - precision) as nat;
        lemma_bit_length_bounds(product);
        lemma_pow2_adds(precision, shift);
        assert(product < pow2(precision + shift)) by (nonlinear_arith)
            requires
                product == significand * max,
                significand < pow2(precision),
                max < pow2(shift),
                pow2(precision) * pow2(shift) == pow2(precision + shift),
        ;
        if length - 1 >= precision + shift {
            if length - 1 > precision + shift {
                lemma_pow2_strictly_increases(precision + shift, (length - 1) as nat);
            }
        }
        assert(step <= shift);
        lemma_pow2_adds((shift - step) as nat, step);
        assert(whole == (max * pow2((shift - step) as nat)) * pow2(step)) by (nonlinear_arith)
            requires
                whole == max * pow2(shift),
                pow2((shift - step) as nat) * pow2(step) == pow2(shift),
        ;
        lemma_nearest_even_keeps_side(product, pow2(step), max * pow2((shift - step) as nat));
    }
    lemma_div_is_ordered(rounded(product, precision) as int, whole as int, pow2(shift) as int);
    lemma_div_by_multiple(max as int, pow2(shift) as int);
}

/// The rounding of the product moves the result by one step at most, and
/// only upward: the result is the whole part of the exact product, or one
/// more where the product was rounded up to the next whole number.
pub proof fn lemma_scaled_near_exact(significand: nat, shift: nat, precision: nat, max: nat)
    requires
        1 <= precision <= shift,
        significand < pow2(precision),
        max < pow2(shift),
    ensures
        (significand * max) / pow2(shift) <= scaled(significand, shift, precision, max) <= (
        significand * max) / pow2(shift) + 1,
{
    let product = significand * max;
    let length = bit_length(product);
    let whole = pow2(shift);
    let exact = product / whole;
    lemma_pow2_pos(shift);
    lemma_fundamental_div_mod(product as int, whole as int);
    assert(exact * whole <= product < (exact + 1) * whole) by (nonlinear_arith)
        requires
            product == whole * exact + product % whole,
            0 <= product % whole < whole,
    ;
    if length > precision {
        let step = (length - precision) as nat;
        lemma_bit_length_bounds(product);
        lemma_pow2_adds(precision, shift);
        assert(product < pow2(precision + shift)) by (nonlinear_arith)
            requires
                product == significand * max,
                significand < pow2(precision),
                max < pow2(shift),
                pow2(precision) * pow2(shift) == pow2(precision + shift),
        ;
        if length - 1 > precision + shift {
            lemma_pow2_strictly_increases(precision + shift, (length - 1) as nat);
        }
        assert(step <= shift);
        let rest = pow2((shift - step) as nat);
        lemma_pow2_adds((shift - step) as nat, step);
        assert(exact * whole == (exact * rest) * pow2(step)) by (nonlinear_arith)
            requires
                whole == rest * pow2(step),
        ;
        assert((exact + 1) * whole == ((exact + 1) * rest) * pow2(step)) by (nonlinear_arith)
            requires
                whole == rest * pow2(step),
        ;
        lemma_nearest_even_keeps_side(product, pow2(step), exact * rest);
        lemma_nearest_even_keeps_side(product, pow2(step), (exact + 1) * rest);
    }
    let near = rounded(product, precision);
    lemma_div_is_ordered((exact * whole) as int, near as int, whole as int);
    lemma_div_is_ordered(near as int, ((exact + 1) * whole) as int, whole as int);
    lemma_div_by_multiple(exact as int, whole as int);
    lemma_div_by_multiple((exact + 1) as int, whole as int);
}

/// Whatever the fields of a number are, it is quantized to a value inside
/// the scale.
pub proof fn lemma_quantized_within(
    negative: bool,
    exponent: nat,
    fraction: nat,
    fraction_bits: nat,
    bias: nat,
    max: nat,
)
    requires
        fraction < pow2(fraction_bits),
        max < pow2(fraction_bits + 1),
        bias >= 2,
    ensures
        -max <= quantized_fields(negative, exponent, fraction, fraction_bits, bias, max) <= max,
{
    lemma_pow2_adds(fraction_bits, 1);
    lemma2_to64();
    if exponent < bias {
        let shift = if exponent == 0 {
            (bias + fraction_bits - 1) as nat
        } else {
            (bias + fraction_bits - exponent) as nat
        };
        let significand = if exponent == 0 {
            fraction
        } else {
            pow2(fraction_bits) + fraction
        };
        if fraction_bits + 1 < shift {
            lemma_pow2_strictly_increases(fraction_bits + 1, shift);
        }
        lemma_scaled_within(significand, shift, fraction_bits + 1, max);
    }
}

/// Every single-precision bit pattern is quantized to a value inside the
/// full scale of the depth.
pub proof fn lemma_single_within_full_scale(bits: u32, bps: BpsLevel)
    ensures
        bps.holds(single_quantized(bits, bps)),
{
    lemma2_to64();
    lemma_quantized_within(
        bits >= 0x8000_0000,
        ((bits / 0x80_0000) % 0x100) as nat,
        (bits % 0x80_0000) as nat,
        23,
        127,
        bps.full_scale() as nat,
    );
}

/// Every double-precision bit pattern is quantized to a value inside the
/// full scale of the depth.
pub proof fn lemma_double_within_full_scale(bits: u64, bps: BpsLevel)
    ensures
        bps.holds(double_quantized(bits, bps)),
{
    lemma2_to64();
    lemma2_to64_rest();
    lemma_quantized_within(
        bits >= 0x8000_0000_0000_0000,
        ((bits / 0x10_0000_0000_0000) % 0x800) as nat,
        (bits % 0x10_0000_0000_0000) as nat,
        52,
        1023,
        bps.full_scale() as nat,
    );
}

/// The bit pattern of one in single precision.
pub const SINGLE_ONE: u32 = 0x3f80_0000;

/// The bit pattern of infinity in single precision; what lies above it, the
/// sign bit aside, is not a number.
pub const SINGLE_INFINITY: u32 = 0x7f80_0000;

/// The bit pattern of one in double precision.
pub const DOUBLE_ONE: u64 = 0x3ff0_0000_0000_0000;

/// The bit pattern of infinity in double precision; what lies above it, the
/// sign bit aside, is not a number.
pub const DOUBLE_INFINITY: u64 = 0x7ff0_0000_0000_0000;

/// A single-precision number of magnitude one or more, an infinity too, is
/// quantized as one or minus one is: to the full scale, with its sign.
pub proof fn lemma_single_clamps(bits: u32, bps: BpsLevel)
    requires
        SINGLE_ONE <= bits % 0x8000_0000 <= SINGLE_INFINITY,
    ensures
        single_quantized(bits, bps) == if bits >= 0x8000_0000 {
            -bps.full_scale()
        } else {
            bps.full_scale()
        },
        single_quantized(bits, bps) == single_quantized(
            (bits - bits % 0x8000_0000 + SINGLE_ONE) as u32,
            bps,
        ),
{
}

/// A double-precision number of magnitude one or more, an infinity too, is
/// quantized as one or minus one is: to the full scale, with its sign.
pub proof fn lemma_double_clamps(bits: u64, bps: BpsLevel)
    requires
        DOUBLE_ONE <= bits % 0x8000_0000_0000_0000 <= DOUBLE_INFINITY,
    ensures
        double_quantized(bits, bps) == if bits >= 0x8000_0000_0000_0000 {
            -bps.full_scale()
        } else {
            bps.full_scale()
        },
        double_quantized(bits, bps) == double_quantized(
            (bits - bits % 0x8000_0000_0000_0000 + DOUBLE_ONE) as u64,
            bps,
        ),
{
}

/// A number and the number of the other sign are quantized to values of
/// opposite signs and one magnitude.
pub proof fn lemma_sign_is_kept(bits: u32, wide: u64, bps: BpsLevel)
    requires
        bits < 0x8000_0000,
        wide < 0x8000_0000_0000_0000,
    ensures
        single_quantized((bits + 0x8000_0000) as u32, bps) == -single_quantized(bits, bps),
        double_quantized((wide + 0x8000_0000_0000_0000) as u64, bps) == -double_quantized(
            wide,
            bps,
        ),
        single_quantized(bits, bps) >= 0,
        double_quantized(wide, bps) >= 0,
{
}

/// What is not a number is quantized to silence, and so is zero of either
/// sign.
pub proof fn lemma_silence(bits: u32, wide: u64, bps: BpsLevel)
    ensures
        bits % 0x8000_0000 > SINGLE_INFINITY ==> single_quantized(bits, bps) == 0,
        wide % 0x8000_0000_0000_0000 > DOUBLE_INFINITY ==> double_quantized(wide, bps) == 0,
        single_quantized(0, bps) == 0,
        single_quantized(0x8000_0000, bps) == 0,
        double_quantized(0, bps) == 0,
        double_quantized(0x8000_0000_0000_0000, bps) == 0,
{
    lemma2_to64();
    lemma_pow2_pos(149);
    lemma_pow2_pos(1074);
    assert(bit_length(0) == 0);
    assert(rounded(0, 24) == 0);
    assert(rounded(0, 53) == 0);
    assert(0 * bps.full_scale() == 0);
}

/// What the single-precision number with the bit pattern `bits` is quantized
/// to at the depth `bps`.
pub fn quantize_single(bits: u32, bps: BpsLevel) -> (pcm: i32)
    ensures
        pcm == single_quantized(bits, bps),
        bps.holds(pcm as int),
{
    proof {
        lemma2_to64();
    }
    let negative = bits >= 0x8000_0000;
    let exponent = (bits / 0x80_0000) % 0x100;
    let fraction = bits % 0x80_0000;
    let max = bps.max_amplitude();
    let magnitude = if exponent == 255 {
        if fraction == 0 {
            max
        } else {
            0
        }
    } else if exponent >= 127 {
        max
    } else if exponent == 0 {
        scale(fraction as u64, 149, 0x80_0000, 24, bps) as i32
    } else {
        scale(0x80_0000 + fraction as u64, 150 - exponent, 0x80_0000, 24, bps) as i32
    };
    if negative {
        -magnitude
    } else {
        magnitude
    }
}

/// What the double-precision number with the bit pattern `bits` is quantized
/// to at the depth `bps`.
pub fn quantize_double(bits: u64, bps: BpsLevel) -> (pcm: i32)
    ensures
        pcm == double_quantized(bits, bps),
        bps.holds(pcm as int),
{
    proof {
        lemma2_to64();
        lemma2_to64_rest();
    }
    let negative = bits >= 0x8000_0000_0000_0000;
    let exponent = ((bits / 0x10_0000_0000_0000) % 0x800) as u32;
    let fraction = bits % 0x10_0000_0000_0000;
    let max = bps.max_amplitude();
    let magnitude = if exponent == 2047 {
        if fraction == 0 {
            max
        } else {
            0
        }
    } else if exponent >= 1023 {
        max
    } else if exponent == 0 {
        scale(fraction, 1074, 0x10_0000_0000_0000, 53, bps) as i32
    } else {
        scale(0x10_0000_0000_0000 + fraction, 1075 - exponent, 0x10_0000_0000_0000, 53, bps) as i32
    };
    if negative {
        -magnitude
    } else {
        magnitude
    }
}

/// A sample in single precision, held as the bit pattern of the number.
#[derive(Clone, Copy, Debug)]
pub struct Single(pub u32);

/// A sample in double precision, held as the bit pattern of the number.
#[derive(Clone, Copy, Debug)]
pub struct Double(pub u64);

impl Default for Single {
    /// Silence: positive zero.
    fn default() -> (silence: Single)
        ensures
            silence.0 == 0,
    {
        Single(0)
    }
}

impl Default for Double {
    /// Silence: positive zero.
    fn default() -> (silence: Double)
        ensures
            silence.0 == 0,
    {
        Double(0)
    }
}

impl IntoSample for Single {
    open spec fn quantized(&self, bps: BpsLevel) -> int {
        single_quantized(self.0, bps)
    }

    fn to_i16(&self) -> (pcm: i16) {
        quantize_single(self.0, BpsLevel::Bps16) as i16
    }

    fn to_i20(&self) -> (pcm: i32) {
        quantize_single(self.0, BpsLevel::Bps20)
    }

    fn to_i24(&self) -> (pcm: i32) {
        quantize_single(self.0, BpsLevel::Bps24)
    }
}

impl IntoSample for Double {
    open spec fn quantized(&self, bps: BpsLevel) -> int {
        double_quantized(self.0, bps)
    }

    fn to_i16(&self) -> (pcm: i16) {
        quantize_double(self.0, BpsLevel::Bps16) as i16
    }

    fn to_i20(&self) -> (pcm: i32) {
        quantize_double(self.0, BpsLevel::Bps20)
    }

    fn to_i24(&self) -> (pcm: i32) {
        quantize_double(self.0, BpsLevel::Bps24)
    }
}

} // verus!
