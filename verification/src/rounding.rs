//! Rounding a number to a given count of significant bits.
//!
//! This is the rounding that binary floating-point arithmetic applies to the
//! exact result of an operation: to the nearest number that can be written
//! with so many significant bits, and where two are equally near, to the one
//! whose last bit is zero.

use vstd::prelude::*;
use vstd::arithmetic::div_mod::{
    lemma_div_by_multiple,
    lemma_div_denominator,
    lemma_div_multiples_vanish,
    lemma_fundamental_div_mod,
    lemma_mod_multiples_basic,
};
use vstd::arithmetic::power2::{
    lemma2_to64,
    lemma_pow2_adds,
    lemma_pow2_pos,
    lemma_pow2_strictly_increases,
    lemma_pow2_unfold,
    pow2,
};

verus! {

/// The number of bits that it takes to write `n` in binary; none for zero.
pub open spec fn bit_length(n: nat) -> nat
    decreases n,
{
    if n == 0 {
        0
    } else {
        1 + bit_length(n / 2)
    }
}

/// The multiple of `unit` that is nearest to `p`; halfway between two
/// multiples, the even one.
pub open spec fn nearest_even(p: nat, unit: nat) -> nat
    recommends
        unit > 0,
{
    let below = p / unit;
    let rest = p % unit;
    if 2 * rest < unit || (2 * rest == unit && below % 2 == 0) {
        below * unit
    } else {
        (below + 1) * unit
    }
}

/// `p` rounded to `precision` significant bits, ties to even.
pub open spec fn rounded(p: nat, precision: nat) -> nat {
    if bit_length(p) <= precision {
        p
    } else {
        nearest_even(p, pow2((bit_length(p) - precision) as nat))
    }
}

/// A number lies between the two powers of two that its bit length names.
pub proof fn lemma_bit_length_bounds(n: nat)
    ensures
        n < pow2(bit_length(n)),
        n > 0 ==> pow2((bit_length(n) - 1) as nat) <= n,
    decreases n,
{
    if n == 0 {
        lemma_pow2_pos(0);
    } else {
        lemma_bit_length_bounds(n / 2);
        lemma_pow2_unfold(bit_length(n));
        if n / 2 > 0 {
            lemma_pow2_unfold((bit_length(n) - 1) as nat);
        } else {
            lemma2_to64();
        }
    }
}

/// A number between two neighbouring powers of two has the bit length of the
/// larger exponent.
pub proof fn lemma_bit_length_between(n: nat, length: nat)
    requires
        length > 0,
        pow2((length - 1) as nat) <= n < pow2(length),
    ensures
        bit_length(n) == length,
{
    lemma_bit_length_bounds(n);
    lemma_pow2_pos((length - 1) as nat);
    if bit_length(n) < length {
        if bit_length(n) < length - 1 {
            lemma_pow2_strictly_increases(bit_length(n), (length - 1) as nat);
        }
    } else if bit_length(n) > length {
        if bit_length(n) - 1 > length {
            lemma_pow2_strictly_increases(length, (bit_length(n) - 1) as nat);
        }
    }
}

/// The nearest multiple is a multiple, no further from the number than half
/// a unit, and halfway between two multiples it is the even one.
pub proof fn lemma_nearest_even_is_nearest(p: nat, unit: nat)
    requires
        unit > 0,
    ensures
        nearest_even(p, unit) % unit == 0,
        2 * (nearest_even(p, unit) - p) <= unit,
        2 * (p - nearest_even(p, unit)) <= unit,
        2 * (p % unit) == unit ==> (nearest_even(p, unit) / unit) % 2 == 0,
        p % unit == 0 ==> nearest_even(p, unit) == p,
{
    let below = (p / unit) as int;
    let rest = (p % unit) as int;
    let near = nearest_even(p, unit) as int;
    let count = if near == below * unit {
        below
    } else {
        below + 1
    };
    lemma_fundamental_div_mod(p as int, unit as int);
    assert(p == below * unit + rest) by (nonlinear_arith)
        requires
            p == unit * below + rest,
    ;
    assert((below + 1) * unit == below * unit + unit) by (nonlinear_arith);
    assert(near == count * unit);
    lemma_mod_multiples_basic(count, unit as int);
    lemma_div_by_multiple(count, unit as int);
    if rest == 0 {
        assert(near == p);
    }
}

/// Rounding to the nearest multiple never crosses a multiple: what lies at or
/// below a multiple is rounded to that multiple at most, what lies at or
/// above a multiple to that multiple at least.
pub proof fn lemma_nearest_even_keeps_side(p: nat, unit: nat, count: nat)
    requires
        unit > 0,
    ensures
        p <= count * unit ==> nearest_even(p, unit) <= count * unit,
        p >= count * unit ==> nearest_even(p, unit) >= count * unit,
{
    let below = p / unit;
    let rest = p % unit;
    lemma_fundamental_div_mod(p as int, unit as int);
    assert(p == unit * below + rest);
    assert(unit * below == below * unit) by (nonlinear_arith);
    assert((below + 1) * unit == below * unit + unit) by (nonlinear_arith);
    if p <= count * unit {
        if below >= count {
            assert(below * unit >= count * unit) by (nonlinear_arith)
                requires
                    below >= count,
            ;
            assert(below == count && rest == 0) by (nonlinear_arith)
                requires
                    below * unit + rest <= count * unit,
                    below * unit >= count * unit,
                    below >= count,
                    rest >= 0,
                    unit > 0,
            ;
        } else {
            assert((below + 1) * unit <= count * unit) by (nonlinear_arith)
                requires
                    below + 1 <= count,
            ;
        }
    }
    if p >= count * unit {
        if below < count {
            assert((below + 1) * unit <= count * unit) by (nonlinear_arith)
                requires
                    below + 1 <= count,
            ;
        } else {
            assert(below * unit >= count * unit) by (nonlinear_arith)
                requires
                    below >= count,
            ;
        }
    }
}

/// What a power of two divides can be divided by a larger power of two in
/// two steps: `(count * 2^low) / 2^high` is `count / 2^(high - low)`.
pub proof fn lemma_divide_in_steps(count: nat, low: nat, high: nat)
    requires
        low <= high,
    ensures
        (count * pow2(low)) / pow2(high) == count / pow2((high - low) as nat),
{
    let rest = (high - low) as nat;
    lemma_pow2_adds(low, rest);
    lemma_pow2_pos(low);
    lemma_pow2_pos(rest);
    lemma_div_denominator((count * pow2(low)) as int, pow2(low) as int, pow2(rest) as int);
    lemma_div_multiples_vanish(count as int, pow2(low) as int);
    assert(count * pow2(low) == pow2(low) as int * count as int) by (nonlinear_arith);
}

} // verus!
