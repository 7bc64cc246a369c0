//! Arithmetic of script numbers, on integers.
//!
//! Scripts compute differences and products of integers in double precision;
//! here those are stated and computed exactly, as roundings of integers. A
//! floating-point value is carried as its bit pattern (IEEE 754 binary64) and
//! only taken apart; its arithmetic belongs to the host.

use vstd::arithmetic::power2::{lemma2_to64, pow2};
use vstd::prelude::*;

verus! {

/// Two to the power of 53: up to here every integer is a double.
pub const TWO53: u128 = 0x20_0000_0000_0000;

/// The spacing of doubles at an integer of magnitude `m`.
pub open spec fn spacing(m: nat) -> nat
    decreases m,
{
    if m < TWO53 {
        1
    } else {
        2 * spacing(m / 2)
    }
}

/// The multiple of `u` nearest to `m`; of two, the even multiple.
pub open spec fn round_half_even(m: nat, u: nat) -> nat {
    let q = m / u;
    let r = m % u;
    if 2 * r < u || (2 * r == u && q % 2 == 0) {
        q * u
    } else {
        (q + 1) * u
    }
}

/// The double nearest to an integer, as an integer.
pub open spec fn to_double(n: int) -> int {
    if n < 0 {
        -(round_half_even((-n) as nat, spacing((-n) as nat)) as int)
    } else {
        round_half_even(n as nat, spacing(n as nat)) as int
    }
}

/// The nearest 64-bit integer.
pub open spec fn saturate(n: int) -> i64 {
    if n < i64::MIN {
        i64::MIN
    } else if n > i64::MAX {
        i64::MAX
    } else {
        n as i64
    }
}

/// The difference of two integers, computed in double precision.
pub open spec fn int_sub(x: i64, y: i64) -> i64 {
    saturate(to_double(to_double(x as int) - to_double(y as int)))
}

/// The product of two integers, computed in double precision.
pub open spec fn int_mul(x: i64, y: i64) -> i64 {
    saturate(to_double(to_double(x as int) * to_double(y as int)))
}

/// Division that rounds toward zero.
pub open spec fn trunc_div(x: int, y: int) -> int {
    if x >= 0 && y > 0 {
        x / y
    } else if x >= 0 && y < 0 {
        -(x / (-y))
    } else if x < 0 && y > 0 {
        -((-x) / y)
    } else {
        (-x) / (-y)
    }
}

proof fn lemma_spacing_pos(m: nat)
    ensures
        spacing(m) >= 1,
        m >= 1 ==> spacing(m) <= m,
    decreases m,
{
    if m >= TWO53 {
        lemma_spacing_pos(m / 2);
    }
}

proof fn lemma_round_bound(m: nat, u: nat)
    requires
        u >= 1,
    ensures
        round_half_even(m, u) <= m + u,
{
    let q = m / u;
    vstd::arithmetic::div_mod::lemma_fundamental_div_mod(m as int, u as int);
    assert((q + 1) * u == q * u + u) by (nonlinear_arith);
    assert(u * q == q * u) by (nonlinear_arith);
}

/// The double nearest to a natural number.
fn round_double(m: u128) -> (r: u128)
    requires
        m < 0x8000_0000_0000_0000_0000_0000_0000_0000,
    ensures
        r == round_half_even(m as nat, spacing(m as nat)),
        r <= m + m / 0x10_0000_0000_0000 + 1,
        m == 0 ==> r == 0,
{
    let mut rest: u128 = m;
    let mut u: u128 = 1;
    while rest >= TWO53
        invariant
            m < 0x8000_0000_0000_0000_0000_0000_0000_0000,
            u >= 1,
            spacing(m as nat) == u * spacing(rest as nat),
            u * rest <= m,
            u == 1 || rest >= 0x10_0000_0000_0000,
        decreases rest,
    {
        proof {
            let half = (rest / 2) as int;
            let s = spacing((rest / 2) as nat) as int;
            assert(u * (2 * s) == (2 * u) * s) by (nonlinear_arith);
            assert((2 * u) * half <= u * rest) by (nonlinear_arith)
                requires
                    2 * half <= rest,
                    u >= 1,
            ;
            assert(2 * u <= (2 * u) * half) by (nonlinear_arith)
                requires
                    half >= 1,
                    u >= 1,
            ;
        }
        rest = rest / 2;
        u = u * 2;
    }
    proof {
        assert(spacing(rest as nat) == 1);
        assert(u * 1 == u);
        assert(spacing(m as nat) == u);
        if u != 1 {
            assert(u * 0x10_0000_0000_0000 <= u * rest) by (nonlinear_arith)
                requires
                    rest >= 0x10_0000_0000_0000,
                    u >= 1,
            ;
        }
        lemma_spacing_pos(m as nat);
        lemma_round_bound(m as nat, u as nat);
        let q = (m / u) as int;
        vstd::arithmetic::div_mod::lemma_fundamental_div_mod(m as int, u as int);
        assert(u * q == q * u) by (nonlinear_arith);
        assert((q + 1) * u == q * u + u) by (nonlinear_arith);
        assert(q >= 0);
        assert(q * u >= 0) by (nonlinear_arith)
            requires
                q >= 0,
                u >= 1,
        ;
    }
    let q: u128 = m / u;
    let r: u128 = m % u;
    if r < u - r || (r == u - r && q % 2 == 0) {
        q * u
    } else {
        (q + 1) * u
    }
}

/// The double nearest to an integer.
fn round_int(n: i128) -> (r: i128)
    requires
        -0x4200_0000_0000_0000_0000_0000_0000_0000 <= n
            <= 0x4200_0000_0000_0000_0000_0000_0000_0000,
    ensures
        r == to_double(n as int),
        n >= 0 ==> 0 <= r,
        n <= 0 ==> r <= 0,
        -0x8000_0000_0000_0000 <= n <= 0x8000_0000_0000_0000 ==> -0x8100_0000_0000_0000 <= r
            <= 0x8100_0000_0000_0000,
{
    if n < 0 {
        let m: u128 = round_double((-n) as u128);
        -(m as i128)
    } else {
        let m: u128 = round_double(n as u128);
        m as i128
    }
}

fn saturate_int(n: i128) -> (r: i64)
    ensures
        r == saturate(n as int),
{
    if n < i64::MIN as i128 {
        i64::MIN
    } else if n > i64::MAX as i128 {
        i64::MAX
    } else {
        n as i64
    }
}

/// The difference of two integers, in double precision.
pub fn sub_ints(x: i64, y: i64) -> (r: i64)
    ensures
        r == int_sub(x, y),
{
    saturate_int(round_int(round_int(x as i128) - round_int(y as i128)))
}

/// The product of two integers, in double precision.
pub fn mul_ints(x: i64, y: i64) -> (r: i64)
    ensures
        r == int_mul(x, y),
{
    let a: i128 = round_int(x as i128);
    let b: i128 = round_int(y as i128);
    assert(-0x4200_0000_0000_0000_0000_0000_0000_0000 <= a * b
        <= 0x4200_0000_0000_0000_0000_0000_0000_0000) by (nonlinear_arith)
        requires
            -0x8100_0000_0000_0000 <= a <= 0x8100_0000_0000_0000,
            -0x8100_0000_0000_0000 <= b <= 0x8100_0000_0000_0000,
    ;
    saturate_int(round_int(a * b))
}

/// The quotient of two integers, toward zero.
pub fn div_ints(x: i64, y: i64) -> (r: i64)
    requires
        y != 0,
        !(x == i64::MIN && y == -1),
    ensures
        r == trunc_div(x as int, y as int),
{
    let a: u64 = if x < 0 {
        (-(x as i128)) as u64
    } else {
        x as u64
    };
    let b: u64 = if y < 0 {
        (-(y as i128)) as u64
    } else {
        y as u64
    };
    let q: u64 = a / b;
    proof {
        vstd::arithmetic::div_mod::lemma_fundamental_div_mod(a as int, b as int);
        if b >= 2 {
            vstd::arithmetic::div_mod::lemma_div_is_ordered_by_denominator(a as int, 2, b as int);
        }
    }
    if (x < 0) == (y < 0) {
        q as i64
    } else {
        (-(q as i128)) as i64
    }
}

/// Integers that doubles hold exactly are subtracted and multiplied exactly.
pub proof fn law_small_integers_exact(x: i64, y: i64)
    requires
        -TWO53 < x < TWO53,
        -TWO53 < y < TWO53,
    ensures
        -TWO53 < x - y < TWO53 ==> int_sub(x, y) == x - y,
        -TWO53 < x * y < TWO53 ==> int_mul(x, y) == x * y,
{
    lemma_small_exact(x as int);
    lemma_small_exact(y as int);
    if -TWO53 < x - y < TWO53 {
        lemma_small_exact(x - y);
    }
    if -TWO53 < x * y < TWO53 {
        lemma_small_exact(x * y);
    }
}

proof fn lemma_small_exact(n: int)
    requires
        -TWO53 < n < TWO53,
    ensures
        to_double(n) == n,
{
    let m = if n < 0 {
        (-n) as nat
    } else {
        n as nat
    };
    assert(spacing(m) == 1);
    assert(m / 1 == m);
    assert(m % 1 == 0);
}

// ---------------------------------------------------------------------------
// Bit patterns of doubles
// ---------------------------------------------------------------------------

/// The sign bit.
pub const SIGN: u64 = 0x8000_0000_0000_0000;

/// The bit pattern of positive infinity; larger magnitudes are not numbers.
pub const INFINITY: u64 = 0x7ff0_0000_0000_0000;

/// The bit pattern of the distance from one to the next double.
pub const EPSILON: u64 = 0x3cb0_0000_0000_0000;

/// The bits without the sign.
pub open spec fn magnitude(bits: u64) -> u64 {
    if bits >= SIGN {
        (bits - SIGN) as u64
    } else {
        bits
    }
}

pub open spec fn is_nan(bits: u64) -> bool {
    magnitude(bits) > INFINITY
}

/// An integer that orders doubles as their values are ordered.
pub open spec fn order_key(bits: u64) -> int {
    if bits >= SIGN {
        -(magnitude(bits) as int)
    } else {
        bits as int
    }
}

/// The order of two doubles: negative, zero or positive; zero where one of
/// them is not a number.
pub open spec fn float_order(a: u64, b: u64) -> int {
    if is_nan(a) || is_nan(b) || order_key(a) == order_key(b) {
        0
    } else if order_key(a) < order_key(b) {
        -1
    } else {
        1
    }
}

/// The double of the opposite sign.
pub open spec fn negated(bits: u64) -> u64 {
    if bits >= SIGN {
        (bits - SIGN) as u64
    } else {
        (bits + SIGN) as u64
    }
}

/// The integer part of a double, toward zero, in the range of `i64`; zero for
/// what is not a number.
pub open spec fn float_to_int(bits: u64) -> i64 {
    let m = magnitude(bits);
    let exponent = m / 0x10_0000_0000_0000;
    let significand = 0x10_0000_0000_0000 + m % 0x10_0000_0000_0000;
    if is_nan(bits) || exponent < 1023 {
        0
    } else {
        let whole = if exponent >= 1086 {
            0x8000_0000_0000_0000
        } else if exponent >= 1075 {
            significand * pow2((exponent - 1075) as nat)
        } else {
            significand / (pow2((1075 - exponent) as nat) as int)
        };
        saturate(
            if bits >= SIGN {
                -whole
            } else {
                whole
            },
        )
    }
}

fn exec_magnitude(bits: u64) -> (m: u64)
    ensures
        m == magnitude(bits),
        m < SIGN,
{
    if bits >= SIGN {
        bits - SIGN
    } else {
        bits
    }
}

/// Whether a double is other than zero.
pub fn float_truthy(bits: u64) -> (r: bool)
    ensures
        r == (magnitude(bits) != 0),
{
    exec_magnitude(bits) != 0
}

/// Whether a difference counts as none.
pub fn float_negligible(bits: u64) -> (r: bool)
    ensures
        r == (magnitude(bits) < EPSILON),
{
    exec_magnitude(bits) < EPSILON
}

pub fn float_negate(bits: u64) -> (r: u64)
    ensures
        r == negated(bits),
{
    if bits >= SIGN {
        bits - SIGN
    } else {
        bits + SIGN
    }
}

pub fn compare_floats(a: u64, b: u64) -> (r: i32)
    ensures
        r == float_order(a, b),
{
    let x: u64 = exec_magnitude(a);
    let y: u64 = exec_magnitude(b);
    if x > INFINITY || y > INFINITY {
        return 0;
    }
    let i: i128 = if a >= SIGN {
        -(x as i128)
    } else {
        x as i128
    };
    let j: i128 = if b >= SIGN {
        -(y as i128)
    } else {
        y as i128
    };
    if i == j {
        0
    } else if i < j {
        -1
    } else {
        1
    }
}

/// The integer part of a double.
pub fn truncate_float(bits: u64) -> (r: i64)
    ensures
        r == float_to_int(bits),
{
    let m: u64 = exec_magnitude(bits);
    let exponent: u64 = m / 0x10_0000_0000_0000;
    if m > INFINITY || exponent < 1023 {
        return 0;
    }
    let significand: u64 = 0x10_0000_0000_0000 + m % 0x10_0000_0000_0000;
    let whole: u64 = if exponent >= 1086 {
        0x8000_0000_0000_0000
    } else if exponent >= 1075 {
        let shift: u64 = exponent - 1075;
        proof {
            lemma2_to64();
            vstd::arithmetic::power2::lemma_pow2_strictly_increases(shift as nat, 11);
            assert(significand * pow2(shift as nat) <= 0x20_0000_0000_0000 * 0x400) by (nonlinear_arith)
                requires
                    significand < 0x20_0000_0000_0000,
                    pow2(shift as nat) <= 0x400,
            ;
            vstd::bits::lemma_u64_shl_is_mul(significand, shift);
        }
        significand << shift
    } else {
        let shift: u64 = 1075 - exponent;
        proof {
            vstd::bits::lemma_u64_shr_is_div(significand, shift);
        }
        significand >> shift
    };
    if bits >= SIGN {
        saturate_int(-(whole as i128))
    } else {
        saturate_int(whole as i128)
    }
}

} // verus!
