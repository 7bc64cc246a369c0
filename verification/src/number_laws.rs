//! Laws of numbers and of the order of texts.

use crate::number;
use crate::order;
use crate::order::SortKey;
use crate::value::{Type, Value};
use vstd::arithmetic::power2::{lemma_pow2_pos, pow2};
use vstd::prelude::*;

verus! {

// ---------------------------------------------------------------------------
// Integers in double precision
// ---------------------------------------------------------------------------

/// Doubles of a magnitude lie so close that there are between two to the power of 52
/// and two to the power of 53 of them below it.
pub proof fn law_spacing(m: nat)
    ensures
        number::spacing(m) >= 1,
        m < number::spacing(m) * 0x20_0000_0000_0000,
        m >= 0x20_0000_0000_0000 ==> m >= number::spacing(m) * 0x10_0000_0000_0000,
    decreases m,
{
    if m >= number::TWO53 {
        law_spacing(m / 2);
    }
}

proof fn lemma_nearest(m: nat, u: nat)
    requires
        u >= 1,
    ensures
        ({
            let r = number::round_half_even(m, u);
            &&& r % u == 0
            &&& 2 * (r - m) <= u
            &&& 2 * (m - r) <= u
            &&& 2 * (r - m) == u || 2 * (m - r) == u ==> (r / u) % 2 == 0
        }),
{
    let q = m / u;
    let r = m % u;
    assert(m == q * u + r && 0 <= r < u) by (nonlinear_arith)
        requires
            q == m / u,
            r == m % u,
            u >= 1,
    ;
    assert((q + 1) * u == q * u + u) by (nonlinear_arith);
    assert((q * u) % u == 0 && (q * u) / u == q) by (nonlinear_arith)
        requires
            u >= 1,
    ;
    assert(((q + 1) * u) % u == 0 && ((q + 1) * u) / u == q + 1) by (nonlinear_arith)
        requires
            u >= 1,
    ;
}

/// An integer becomes the double nearest to it: one of the doubles of its magnitude, at
/// most half their distance away, and of two that are as near the even one.
pub proof fn law_nearest_double(n: nat)
    ensures
        ({
            let u = number::spacing(n);
            let r = number::to_double(n as int);
            &&& r % (u as int) == 0
            &&& -(u as int) <= 2 * (r - n) <= u
            &&& 2 * (r - n) == u || 2 * (n - r) == u ==> (r / (u as int)) % 2 == 0
        }),
        number::to_double(-(n as int)) == -number::to_double(n as int),
{
    law_spacing(n);
    lemma_nearest(n, number::spacing(n));
}

/// A number that is too large becomes the largest, one that is too small the smallest,
/// and any other stays.
pub proof fn law_saturate(n: int)
    ensures
        i64::MIN <= n <= i64::MAX ==> number::saturate(n) == n,
        n > i64::MAX ==> number::saturate(n) == 0x7fff_ffff_ffff_ffff,
        n < i64::MIN ==> number::saturate(n) == -0x8000_0000_0000_0000,
{
}

// ---------------------------------------------------------------------------
// Doubles
// ---------------------------------------------------------------------------

/// The order of doubles: what is less one way is greater the other way, zero is zero
/// with either sign, negative numbers come first, and the larger magnitude comes later
/// among the positive and earlier among the negative.
pub proof fn law_float_order(a: u64, b: u64)
    ensures
        number::float_order(a, b) == -number::float_order(b, a),
        number::float_order(a, a) == 0,
        number::float_order(0, 0x8000_0000_0000_0000) == 0,
        a < b <= 0x7ff0_0000_0000_0000 ==> number::float_order(a, b) == -1,
        !number::is_nan(a) && !number::is_nan(b) ==> number::float_order(
            number::negated(a),
            number::negated(b),
        ) == number::float_order(b, a),
        0 < a <= 0x7ff0_0000_0000_0000 ==> number::float_order(number::negated(a), a) == -1,
        number::is_nan(a) ==> number::float_order(a, b) == 0,
{
}

/// What is not a number: every pattern beyond that of infinity, with either sign.
pub proof fn law_not_a_number(a: u64)
    ensures
        a <= 0x7ff0_0000_0000_0000 ==> !number::is_nan(a),
        0x7ff0_0000_0000_0000 < a < 0x8000_0000_0000_0000 ==> number::is_nan(a),
        number::is_nan(number::negated(a)) == number::is_nan(a),
        number::negated(number::negated(a)) == a,
        number::negated(a) != a,
        number::magnitude(number::negated(a)) == number::magnitude(a),
{
}

/// The integer part of a double is the number cut off behind its point.
pub proof fn law_whole_part(bits: u64)
    requires
        bits < 0x8000_0000_0000_0000,
        !number::is_nan(bits),
    ensures
        ({
            let e = bits as int / 0x10_0000_0000_0000;
            let s = 0x10_0000_0000_0000 + bits as int % 0x10_0000_0000_0000;
            let r = number::float_to_int(bits) as int;
            &&& e < 1023 ==> r == 0
            &&& 1023 <= e < 1075 ==> r * pow2((1075 - e) as nat) <= s < (r + 1) * pow2(
                (1075 - e) as nat,
            )
            &&& 1075 <= e < 1086 ==> r == s * pow2((e - 1075) as nat)
            &&& e >= 1086 ==> r == 0x7fff_ffff_ffff_ffff
        }),
{
    let e = bits as int / 0x10_0000_0000_0000;
    let s = 0x10_0000_0000_0000 + bits as int % 0x10_0000_0000_0000;
    if 1023 <= e < 1075 {
        let p = pow2((1075 - e) as nat) as int;
        lemma_pow2_pos((1075 - e) as nat);
        let q = s / p;
        assert(q * p <= s < (q + 1) * p && 0 <= q <= s) by (nonlinear_arith)
            requires
                q == s / p,
                p > 0,
                s >= 0,
        ;
    } else if 1075 <= e < 1086 {
        number_pow2(e - 1075);
        let p = pow2((e - 1075) as nat) as int;
        assert(s * p <= i64::MAX) by (nonlinear_arith)
            requires
                0 <= s < 0x20_0000_0000_0000,
                0 < p <= 1024,
        ;
        assert(s * p >= 0) by (nonlinear_arith)
            requires
                0 <= s,
                0 < p,
        ;
    }
}

proof fn number_pow2(k: int)
    requires
        0 <= k <= 10,
    ensures
        0 < pow2(k as nat) <= 1024,
{
    vstd::arithmetic::power2::lemma2_to64();
}

/// A number of the opposite sign has the opposite integer part, where it is one.
pub proof fn law_whole_part_of_opposite(bits: u64)
    requires
        bits < 0x8000_0000_0000_0000,
        number::float_to_int(bits) < i64::MAX,
    ensures
        number::float_to_int(number::negated(bits)) == -number::float_to_int(bits),
{
    if !number::is_nan(bits) {
        law_whole_part(bits);
        let e = bits as int / 0x10_0000_0000_0000;
        let s = 0x10_0000_0000_0000 + bits as int % 0x10_0000_0000_0000;
        if 1023 <= e < 1075 {
            let p = pow2((1075 - e) as nat) as int;
            lemma_pow2_pos((1075 - e) as nat);
            let q = s / p;
            assert(0 <= q <= s) by (nonlinear_arith)
                requires
                    q == s / p,
                    p > 0,
                    s >= 0,
            ;
        } else if 1075 <= e < 1086 {
            number_pow2(e - 1075);
            let p = pow2((e - 1075) as nat) as int;
            assert(0 <= s * p <= i64::MAX) by (nonlinear_arith)
                requires
                    0 <= s < 0x20_0000_0000_0000,
                    0 < p <= 1024,
            ;
        }
    }
}

// ---------------------------------------------------------------------------
// Kinds
// ---------------------------------------------------------------------------

/// A value has the name of its type.
pub proof fn law_kind_names(v: Value<Seq<char>>)
    ensures
        v is Int ==> v.kind_name() == Type::Int.type_text(),
        v is Float ==> v.kind_name() == Type::Float.type_text(),
        v is Str ==> v.kind_name() == Type::Str.type_text(),
        v is Bool ==> v.kind_name() == Type::Bool.type_text(),
        v is Null ==> v.kind_name() == "null"@,
        Type::Int.type_text() == "int"@,
        Type::Float.type_text() == "float"@,
        Type::Str.type_text() == "string"@,
        Type::Bool.type_text() == "bool"@,
        Type::Unknown.type_text() == "unknown"@,
{
}

/// Which types may meet: numbers with numbers, texts with texts, truth values with truth
/// values, and an unknown type with every type.
pub proof fn law_types_that_fit()
    ensures
        Type::Int.fits(Type::Float),
        Type::Float.fits(Type::Int),
        !Type::Int.fits(Type::Str),
        !Type::Int.fits(Type::Bool),
        !Type::Float.fits(Type::Str),
        !Type::Float.fits(Type::Bool),
        !Type::Str.fits(Type::Bool),
        forall|t: Type| Type::Unknown.fits(t) && #[trigger] t.fits(Type::Unknown),
        forall|t: Type| #[trigger] t.fits(t),
{
}

// ---------------------------------------------------------------------------
// Texts
// ---------------------------------------------------------------------------

/// The first character in which two texts differ decides their order, and a text comes
/// before those that go on after it.
pub proof fn law_first_difference_decides(
    p: Seq<char>,
    c: char,
    a: Seq<char>,
    d: char,
    b: Seq<char>,
)
    requires
        c < d,
    ensures
        order::text_order(p + seq![c] + a, p + seq![d] + b) == -1,
        order::text_order(p + seq![d] + b, p + seq![c] + a) == 1,
        order::text_order(p, p + seq![c] + a) == -1,
        order::text_order(p + seq![c] + a, p) == 1,
        order::text_order(p, p) == 0,
    decreases p.len(),
{
    let x = p + seq![c] + a;
    let y = p + seq![d] + b;
    if p.len() > 0 {
        let q = p.drop_first();
        law_first_difference_decides(q, c, a, d, b);
        assert(x.drop_first() =~= q + seq![c] + a);
        assert(y.drop_first() =~= q + seq![d] + b);
    }
}

/// What is to be in front comes first; the rest goes by its text.
pub proof fn law_front_first(a: SortKey<Seq<char>>, b: SortKey<Seq<char>>)
    ensures
        a.front && !b.front ==> order::key_order(a, b) < 0,
        b.front && !a.front ==> order::key_order(a, b) > 0,
        a.front == b.front ==> order::key_order(a, b) == order::text_order(a.text, b.text),
{
}

} // verus!
