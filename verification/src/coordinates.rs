//! Coordinates as the bit patterns of 64-bit binary floating point numbers.

use vstd::arithmetic::power2::{lemma_pow2_adds, lemma_pow2_pos, lemma_pow2_strictly_increases, lemma_pow2_unfold, pow2};
use vstd::prelude::*;

verus! {

/// The magnitude of a bit pattern: the pattern without its sign bit.
pub open spec fn magnitude(bits: u64) -> int {
    bits as int % 0x8000_0000_0000_0000
}

/// Whether a magnitude belongs to a number, rather than to an infinity or to
/// "not a number".
pub open spec fn is_finite(magnitude: int) -> bool {
    magnitude < 0x7FF0_0000_0000_0000
}

/// The absolute value of a finite number with this magnitude, counted in units
/// of the smallest positive number of the format, which is 2 to the power
/// -1074.
pub open spec fn units(magnitude: int) -> nat {
    let exponent = magnitude / 0x10_0000_0000_0000;
    let fraction = magnitude % 0x10_0000_0000_0000;
    if exponent == 0 {
        fraction as nat
    } else {
        (0x10_0000_0000_0000 + fraction) as nat * pow2((exponent - 1) as nat)
    }
}

/// Whether the pattern is a number `x` with `-bound <= x <= bound`.
pub open spec fn within(bits: u64, bound: nat) -> bool {
    is_finite(magnitude(bits)) && units(magnitude(bits)) <= bound * pow2(1074)
}

/// The pattern of 90.
pub const NINETY: u64 = 0x4056_8000_0000_0000;

/// The pattern of 180.
pub const ONE_HUNDRED_EIGHTY: u64 = 0x4066_8000_0000_0000;

proof fn lemma_units_increase(a: int, b: int)
    requires
        0 <= a < b,
        is_finite(b),
    ensures
        units(a) < units(b),
{
    let p: int = 0x10_0000_0000_0000;
    let ea = a / p;
    let eb = b / p;
    let fa = a % p;
    let fb = b % p;
    assert(a == ea * p + fa && b == eb * p + fb && 0 <= fa < p && 0 <= fb < p && 0 <= ea <= eb);
    if ea == eb {
        if ea > 0 {
            let s = pow2((ea - 1) as nat) as int;
            lemma_pow2_pos((ea - 1) as nat);
            assert((p + fa) * s < (p + fb) * s) by (nonlinear_arith)
                requires
                    fa < fb,
                    s > 0,
            ;
        }
    } else {
        let t = pow2((eb - 1) as nat) as int;
        lemma_pow2_pos((eb - 1) as nat);
        assert(p * t <= (p + fb) * t) by (nonlinear_arith)
            requires
                fb >= 0,
                t > 0,
        ;
        if ea == 0 {
            assert(fa < p * t) by (nonlinear_arith)
                requires
                    fa < p,
                    t >= 1,
                    p > 0,
            ;
        } else {
            let s = pow2((ea - 1) as nat) as int;
            lemma_pow2_pos((ea - 1) as nat);
            lemma_pow2_unfold(ea as nat);
            assert(pow2(ea as nat) == 2 * s);
            if ea < eb - 1 {
                lemma_pow2_strictly_increases(ea as nat, (eb - 1) as nat);
            }
            assert(2 * s <= t);
            assert((p + fa) * s < p * t) by (nonlinear_arith)
                requires
                    0 <= fa < p,
                    s > 0,
                    2 * s <= t,
            ;
        }
    }
}

proof fn lemma_bound_units(pattern: int, bound: nat, exponent: nat, scale: nat)
    requires
        0 <= pattern,
        pattern / 0x10_0000_0000_0000 == exponent,
        exponent > 0,
        exponent - 1 + scale == 1074,
        0x10_0000_0000_0000 + pattern % 0x10_0000_0000_0000 == bound * pow2(scale),
    ensures
        units(pattern) == bound * pow2(1074),
{
    lemma_pow2_adds(scale, (exponent - 1) as nat);
    let a = pow2(scale);
    let b = pow2((exponent - 1) as nat);
    assert((bound * a) * b == bound * (a * b)) by (nonlinear_arith);
}

/// The two limits are what their names say.
pub proof fn law_limits()
    ensures
        units(magnitude(NINETY)) == 90 * pow2(1074),
        units(magnitude(ONE_HUNDRED_EIGHTY)) == 180 * pow2(1074),
{
    assert(pow2(46) == 0x4000_0000_0000 && pow2(45) == 0x2000_0000_0000) by {
        vstd::arithmetic::power2::lemma2_to64();
        vstd::arithmetic::power2::lemma2_to64_rest();
    }
    lemma_bound_units(NINETY as int, 90, 0x405, 46);
    lemma_bound_units(ONE_HUNDRED_EIGHTY as int, 180, 0x406, 45);
}

/// Whether the number lies between minus and plus the limit, both included. No
/// infinity does, and neither does "not a number".
fn at_most(bits: u64, limit: u64, Ghost(bound): Ghost<nat>) -> (r: bool)
    requires
        limit < 0x7FF0_0000_0000_0000,
        units(limit as int) == bound * pow2(1074),
    ensures
        r == within(bits, bound),
{
    let size: u64 = bits % 0x8000_0000_0000_0000;
    proof {
        if size < limit {
            lemma_units_increase(size as int, limit as int);
        } else if size > limit && is_finite(size as int) {
            lemma_units_increase(limit as int, size as int);
        }
    }
    size <= limit
}

/// Whether the pattern is a latitude: a number from -90 to 90.
pub fn is_latitude(bits: u64) -> (r: bool)
    ensures
        r == within(bits, 90),
{
    proof {
        law_limits();
    }
    at_most(bits, NINETY, Ghost(90))
}

/// Whether the pattern is a longitude: a number from -180 to 180.
pub fn is_longitude(bits: u64) -> (r: bool)
    ensures
        r == within(bits, 180),
{
    proof {
        law_limits();
    }
    at_most(bits, ONE_HUNDRED_EIGHTY, Ghost(180))
}

/// A number lies within 90 exactly where its bit pattern without the sign is at
/// most that of 90, and within 180 likewise. So the limits themselves lie within,
/// the sign does not matter, whatever is nearer to zero lies within too, and
/// neither an infinity nor what is not a number does.
pub proof fn law_ranges_end_at_their_limits(bits: u64)
    ensures
        within(bits, 90) <==> bits % 0x8000_0000_0000_0000 <= 0x4056_8000_0000_0000,
        within(bits, 180) <==> bits % 0x8000_0000_0000_0000 <= 0x4066_8000_0000_0000,
{
    law_limits();
    let size = magnitude(bits);
    if size < NINETY {
        lemma_units_increase(size, NINETY as int);
    } else if size > NINETY && is_finite(size) {
        lemma_units_increase(NINETY as int, size);
    }
    if size < ONE_HUNDRED_EIGHTY {
        lemma_units_increase(size, ONE_HUNDRED_EIGHTY as int);
    } else if size > ONE_HUNDRED_EIGHTY && is_finite(size) {
        lemma_units_increase(ONE_HUNDRED_EIGHTY as int, size);
    }
}

} // verus!
