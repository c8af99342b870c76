//! What amounts mean: the numbers that doubles stand for, their sums, and cost units.

use crate::binary64;
use crate::binary64::Binary64;
use crate::binary64_sum;
use vstd::arithmetic::div_mod::*;
use vstd::arithmetic::mul::*;
use vstd::arithmetic::power2::*;
use vstd::prelude::*;

verus! {

/// Bits are read as IEEE 754 says: a sign, eleven bits of exponent and fifty-two of fraction. The
/// exponent of all ones is that of infinities and of what is no number, that of zeros has no leading
/// one.
pub proof fn bits_are_read_as_ieee_754_says(x: Binary64)
    ensures
        ({
            let exponent = (x.bits as int / 0x10_0000_0000_0000) % 2048;
            let fraction = x.bits as int % 0x10_0000_0000_0000;
            &&& x.signed() <==> x.bits >= 0x8000_0000_0000_0000
            &&& x.finite() <==> exponent != 2047
            &&& x.undefined() <==> exponent == 2047 && fraction != 0
            &&& exponent == 0 ==> x.magnitude() == fraction
            &&& exponent > 0 ==> x.magnitude() == (0x10_0000_0000_0000 + fraction) * pow2(
                (exponent - 1) as nat,
            )
            &&& x.value() == if x.bits >= 0x8000_0000_0000_0000 {
                -(x.magnitude() as int)
            } else {
                x.magnitude() as int
            }
            &&& x.positive() <==> x.finite() && x.value() > 0
            &&& x.nonnegative() <==> x.finite() && x.value() >= 0
        }),
{
    let b = x.bits;
    assert((b % 0x8000_0000_0000_0000) / 0x10_0000_0000_0000 == (b / 0x10_0000_0000_0000) % 2048)
        by (bit_vector);
    lemma2_to64();
    let fraction = b as int % 0x10_0000_0000_0000;
    assert(fraction * 1 == fraction);
}

/// A number counts as an integer exactly if it is one, from one up to the bound; and then as that one.
pub proof fn only_exact_integers_are_integers(x: Binary64, max: u64, n: u64)
    ensures
        x.positive_integer(max) == Some(n) <==> {
            &&& x.finite()
            &&& x.bits < 0x8000_0000_0000_0000
            &&& x.magnitude() == n * pow2(1074)
            &&& 1 <= n <= max
        },
{
    lemma_pow2_pos(1074);
    let one = pow2(1074) as int;
    let m = x.magnitude() as int;
    if x.positive_integer(max) == Some(n) {
        binary64::a_positive_integer_is_at_least_one(x, max);
        lemma_fundamental_div_mod(m, one);
        lemma_mul_is_commutative(one, m / one);
    }
    if x.finite() && x.bits < 0x8000_0000_0000_0000 && x.magnitude() == n * pow2(1074) && 1 <= n
        <= max {
        lemma_div_by_multiple(n as int, one);
        lemma_mod_multiples_basic(n as int, one);
        assert(n * one > 0) by (nonlinear_arith)
            requires
                n >= 1,
                one > 0,
        ;
    }
}

/// Rounding gives the nearest number with fifty-three digits, the even one of two: a multiple of a
/// power of two that leaves no more digits than that, at most half of that power away.
pub proof fn rounding_gives_the_nearest_double(n: nat) -> (k: nat)
    ensures
        n < 0x20_0000_0000_0000 * pow2(k),
        k == 0 || 0x10_0000_0000_0000 * pow2(k) <= n,
        ({
            let r = binary64::nearest_double(n);
            let q = pow2(k);
            &&& r % q == 0
            &&& -(q as int) <= 2 * (r - n) <= q
            &&& (2 * (r - n) == q || 2 * (n - r) == q) ==> (r / q) % 2 == 0
        }),
{
    let k = binary64_sum::scale(n);
    binary64_sum::lemma_spacing_is_power(n);
    binary64_sum::lemma_digits_of(n);
    lemma_pow2_pos(k);
    let q = pow2(k) as int;
    let below = n as int / q;
    let rest = n as int % q;
    lemma_fundamental_div_mod(n as int, q);
    lemma_mul_is_commutative(q, below);
    lemma_mod_multiples_basic(below, q);
    lemma_mod_multiples_basic(below + 1, q);
    lemma_div_by_multiple(below, q);
    lemma_div_by_multiple(below + 1, q);
    assert((below + 1) * q == below * q + q) by (nonlinear_arith);
    assert(n < 0x20_0000_0000_0000 * q) by (nonlinear_arith)
        requires
            n == q * below + rest,
            rest < q,
            below < 0x20_0000_0000_0000,
            q > 0,
    ;
    if k > 0 {
        assert(0x10_0000_0000_0000 * q <= n) by (nonlinear_arith)
            requires
                n == q * below + rest,
                rest >= 0,
                below >= 0x10_0000_0000_0000,
                q > 0,
        ;
    }
    k
}

/// A number with at most fifty-three digits is not rounded.
pub proof fn what_has_few_digits_is_exact(d: nat, k: nat)
    requires
        d < 0x20_0000_0000_0000,
    ensures
        binary64::nearest_double(d * pow2(k)) == d * pow2(k),
{
    binary64::lemma_nearest_double_scaled(d, k);
    binary64::lemma_nearest_double_small(d);
}

/// An amount has `u` cost units exactly if it is not negative and its dollars times a hundred million,
/// as a double, are nearest to `u`, halves up, and the database holds that many. A limit must also be
/// positive and at least half a unit.
pub proof fn a_cost_unit_is_a_hundred_millionth_of_a_dollar(x: Binary64, u: u64)
    ensures
        ({
            let scaled = binary64::nearest_double(x.magnitude() * 100_000_000);
            let one = pow2(1074);
            let nearest = 2 * u * one <= 2 * scaled + one && 2 * scaled + one < 2 * u * one + 2
                * one && u < 0x8000_0000_0000_0000;
            &&& binary64::nonnegative_cost_units(x) == Some(u) <==> x.finite() && x.value() >= 0
                && nearest
            &&& binary64::cost_units(x) == Some(u) <==> x.finite() && x.value() > 0 && 2 * scaled
                >= one && nearest
        }),
{
    lemma_pow2_pos(1074);
    let one = pow2(1074) as int;
    let scaled = binary64::nearest_double(x.magnitude() * 100_000_000) as int;
    let t = 2 * scaled + one;
    let d = 2 * one;
    bits_are_read_as_ieee_754_says(x);
    lemma_fundamental_div_mod(t, d);
    let q = t / d;
    lemma_mod_bound(t, d);
    assert(2 * u * one == u * d) by (nonlinear_arith)
        requires
            d == 2 * one,
    ;
    if u == q {
        lemma_mul_is_commutative(d, q);
    }
    if u * d <= t < u * d + d {
        lemma_fundamental_div_mod_converse(t, d, u as int, t - u * d);
    }
}

/// Counting in cost units keeps the order of amounts: what costs no more has no more units.
pub proof fn more_dollars_are_no_fewer_units(a: Binary64, b: Binary64)
    requires
        binary64::nonnegative_cost_units(a) is Some,
        binary64::nonnegative_cost_units(b) is Some,
        binary64::nearest_double(a.magnitude() * 100_000_000) <= binary64::nearest_double(
            b.magnitude() * 100_000_000,
        ),
    ensures
        binary64::nonnegative_cost_units(a)->0 <= binary64::nonnegative_cost_units(b)->0,
{
    lemma_pow2_pos(1074);
    let one = pow2(1074) as int;
    lemma_div_is_ordered(
        2 * binary64::nearest_double(a.magnitude() * 100_000_000) as int + one,
        2 * binary64::nearest_double(b.magnitude() * 100_000_000) as int + one,
        2 * one,
    );
}

/// The double nearest to a number that may be negative, by its value.
pub open spec fn nearest(v: int) -> int {
    if v < 0 {
        -(binary64::nearest_double(-v as nat) as int)
    } else {
        binary64::nearest_double(v as nat) as int
    }
}

/// The value of a double of so many bits, infinity excluded, is rounded from a number.
proof fn lemma_rounded(v: int, negative_zero: bool)
    requires
        binary64_sum::double_bits(if v < 0 {
            -v as nat
        } else {
            v as nat
        }) < 0x7ff0_0000_0000_0000,
    ensures
        binary64_sum::rounded(v, negative_zero).finite(),
        binary64_sum::rounded(v, negative_zero).value() == nearest(v),
{
    let n = if v < 0 {
        -v as nat
    } else {
        v as nat
    };
    binary64_sum::rounding_yields_the_nearest_double(n);
    let x = Binary64 { bits: binary64_sum::double_bits(n) };
    let r = binary64_sum::rounded(v, negative_zero);
    if v > 0 || (v == 0 && !negative_zero) {
        assert(r == x);
    } else {
        let b = x.bits;
        assert(b < 0x8000_0000_0000_0000);
        let c = (0x8000_0000_0000_0000 + b) as u64;
        assert(r.bits == c);
        assert(c % 0x8000_0000_0000_0000 == b && c % 0x10_0000_0000_0000 == b % 0x10_0000_0000_0000)
            by (bit_vector)
            requires
                b < 0x8000_0000_0000_0000,
                c == (0x8000_0000_0000_0000 + b) as u64,
        ;
        assert(b % 0x8000_0000_0000_0000 == b);
        assert(r.exponent() == x.exponent());
        assert(r.significand() == x.significand());
        assert(r.magnitude() == x.magnitude());
    }
}

/// The other sign changes the sign of the value and nothing else.
proof fn lemma_negated(x: Binary64)
    ensures
        x.negated().value() == -x.value(),
        x.negated().finite() == x.finite(),
        x.negated().undefined() == x.undefined(),
{
    let b = x.bits;
    let c = x.negated().bits;
    assert(b >= 0x8000_0000_0000_0000 ==> (b - 0x8000_0000_0000_0000) as u64
        % 0x8000_0000_0000_0000 == b % 0x8000_0000_0000_0000 && (b - 0x8000_0000_0000_0000) as u64
        % 0x10_0000_0000_0000 == b % 0x10_0000_0000_0000) by (bit_vector);
    assert(b < 0x8000_0000_0000_0000 ==> (b + 0x8000_0000_0000_0000) as u64
        % 0x8000_0000_0000_0000 == b % 0x8000_0000_0000_0000 && (b + 0x8000_0000_0000_0000) as u64
        % 0x10_0000_0000_0000 == b % 0x10_0000_0000_0000) by (bit_vector);
    assert(x.negated().exponent() == x.exponent());
    assert(x.negated().significand() == x.significand());
}

/// The sum and the difference of two numbers are the doubles nearest to them, as long as these are not
/// beyond the largest double.
pub proof fn sums_are_rounded_to_the_nearest_double(a: Binary64, b: Binary64)
    requires
        a.finite(),
        b.finite(),
    ensures
        ({
            let v = a.value() + b.value();
            let s = binary64_sum::sum(a, b);
            s.finite() ==> s.value() == nearest(v)
        }),
        ({
            let v = a.value() - b.value();
            let d = binary64_sum::difference(a, b);
            d.finite() ==> d.value() == nearest(v)
        }),
        a.value() + b.value() < 0x20_0000_0000_0000 * pow2(2045) && a.value() + b.value() > -(
        0x20_0000_0000_0000 * pow2(2045)) && nearest(a.value() + b.value()) == a.value()
            + b.value() ==> binary64_sum::sum(a, b).finite(),
{
    lemma_sum(a, b);
    lemma_negated(b);
    lemma_sum(a, b.negated());
    if a.value() + b.value() < 0x20_0000_0000_0000 * pow2(2045) && a.value() + b.value() > -(
    0x20_0000_0000_0000 * pow2(2045)) && nearest(a.value() + b.value()) == a.value() + b.value() {
        let v = a.value() + b.value();
        let n = if v < 0 {
            -v as nat
        } else {
            v as nat
        };
        lemma_small_is_finite(n);
        lemma_rounded(v, a.signed() && b.signed());
    }
}

proof fn lemma_small_is_finite(n: nat)
    requires
        n < 0x20_0000_0000_0000 * pow2(2045),
        binary64::nearest_double(n) == n,
    ensures
        binary64_sum::double_bits(n) < 0x7ff0_0000_0000_0000,
{
    let k = binary64_sum::scale(n);
    binary64_sum::lemma_spacing_is_power(n);
    binary64_sum::lemma_digits_of(n);
    lemma_pow2_pos(k);
    let q = pow2(k) as int;
    let below = n as int / q;
    lemma_fundamental_div_mod(n as int, q);
    if k > 2045 {
        lemma_pow2_strictly_increases(2045, k);
        lemma_pow2_unfold(k);
        let h = pow2((k - 1) as nat) as int;
        if k - 1 > 2045 {
            lemma_pow2_strictly_increases(2045, (k - 1) as nat);
        }
        assert(q == 2 * h);
        assert(h >= pow2(2045));
        assert(n >= 0x20_0000_0000_0000 * h) by (nonlinear_arith)
            requires
                n == q * below + n as int % q,
                n as int % q >= 0,
                below >= 0x10_0000_0000_0000,
                q == 2 * h,
                h > 0,
        ;
        assert(0x20_0000_0000_0000 * h >= 0x20_0000_0000_0000 * pow2(2045)) by (nonlinear_arith)
            requires
                h >= pow2(2045),
        ;
    }
    assert(below < 0x20_0000_0000_0000);
    assert(k * 0x10_0000_0000_0000 + below < 0x7ff0_0000_0000_0000) by (nonlinear_arith)
        requires
            k <= 2045,
            below < 0x20_0000_0000_0000,
    ;
}

proof fn lemma_sum(a: Binary64, b: Binary64)
    requires
        a.finite(),
        b.finite(),
    ensures
        binary64_sum::sum(a, b).finite() ==> binary64_sum::sum(a, b).value() == nearest(
            a.value() + b.value(),
        ),
{
    let v = a.value() + b.value();
    let n = if v < 0 {
        -v as nat
    } else {
        v as nat
    };
    bits_are_read_as_ieee_754_says(a);
    bits_are_read_as_ieee_754_says(b);
    let negative = a.signed() && b.signed();
    if binary64_sum::double_bits(n) < 0x7ff0_0000_0000_0000 {
        lemma_rounded(v, negative);
    } else {
        let r = binary64_sum::rounded(v, negative);
        let c = r.bits;
        assert(c == 0x7ff0_0000_0000_0000 || c == 0xfff0_0000_0000_0000);
        assert(0x7ff0_0000_0000_0000u64 % 0x8000_0000_0000_0000u64 / 0x10_0000_0000_0000u64 == 2047
            && 0xfff0_0000_0000_0000u64 % 0x8000_0000_0000_0000u64 / 0x10_0000_0000_0000u64
            == 2047) by (bit_vector);
        assert(!r.finite());
    }
}

/// Numbers that are multiples of one power of two, and together less than two to the fifty-third of
/// them, are added and taken from each other without loss.
pub proof fn small_amounts_are_added_without_loss(a: Binary64, b: Binary64, x: int, y: int, k: nat)
    requires
        a.finite(),
        b.finite(),
        a.value() == x * pow2(k),
        b.value() == y * pow2(k),
        -0x20_0000_0000_0000 < x + y < 0x20_0000_0000_0000,
        -0x20_0000_0000_0000 < x - y < 0x20_0000_0000_0000,
        k <= 2045,
    ensures
        binary64_sum::sum(a, b).finite(),
        binary64_sum::sum(a, b).value() == (x + y) * pow2(k),
        binary64_sum::difference(a, b).finite(),
        binary64_sum::difference(a, b).value() == (x - y) * pow2(k),
{
    lemma_pow2_pos(k);
    let q = pow2(k) as int;
    assert(x * q + y * q == (x + y) * q) by (nonlinear_arith);
    assert(x * q - y * q == (x - y) * q) by (nonlinear_arith);
    lemma_exact(x + y, k);
    lemma_exact(x - y, k);
    lemma_negated(b);
    sums_are_rounded_to_the_nearest_double(a, b);
    sums_are_rounded_to_the_nearest_double(a, b.negated());
}

proof fn lemma_exact(d: int, k: nat)
    requires
        -0x20_0000_0000_0000 < d < 0x20_0000_0000_0000,
        k <= 2045,
    ensures
        nearest(d * pow2(k)) == d * pow2(k),
        -(0x20_0000_0000_0000 * pow2(2045)) < d * pow2(k) < 0x20_0000_0000_0000 * pow2(2045),
{
    lemma_pow2_pos(k);
    if k < 2045 {
        lemma_pow2_strictly_increases(k, 2045);
    }
    let q = pow2(k) as int;
    let p = pow2(2045) as int;
    assert(-(0x20_0000_0000_0000 * p) < d * q < 0x20_0000_0000_0000 * p) by (nonlinear_arith)
        requires
            -0x20_0000_0000_0000 < d < 0x20_0000_0000_0000,
            0 < q <= p,
    ;
    if d < 0 {
        let m = -d;
        what_has_few_digits_is_exact(m as nat, k);
        assert(-(d * q) == m * q) by (nonlinear_arith)
            requires
                m == -d,
        ;
        assert(d * q < 0) by (nonlinear_arith)
            requires
                d < 0,
                q > 0,
        ;
    } else {
        what_has_few_digits_is_exact(d as nat, k);
        assert(d * q >= 0) by (nonlinear_arith)
            requires
                d >= 0,
                q > 0,
        ;
    }
}

/// Of two numbers the greater is at least each of them and the lesser at most, and both are one of the
/// two; what is no number loses.
pub proof fn the_greater_and_the_lesser_are_of_the_two(a: Binary64, b: Binary64)
    ensures
        ({
            let g = binary64_sum::greater(a, b);
            let l = binary64_sum::lesser(a, b);
            &&& g == a || g == b
            &&& l == a || l == b
            &&& !a.undefined() && !b.undefined() ==> {
                &&& g.value() >= a.value() && g.value() >= b.value()
                &&& l.value() <= a.value() && l.value() <= b.value()
            }
            &&& a.undefined() ==> g == b && l == b
            &&& b.undefined() && !a.undefined() ==> g == a && l == a
        }),
{
}

/// What is undefined stays so; what is infinite stays so, whatever finite amount is added to it or
/// taken from it; and two opposite infinities have no sum.
pub proof fn what_is_infinite_stays_so(a: Binary64, b: Binary64)
    ensures
        a.undefined() || b.undefined() ==> binary64_sum::sum(a, b).undefined()
            && binary64_sum::difference(a, b).undefined(),
        a.bits == 0x7FF0_0000_0000_0000 && b.finite() ==> {
            &&& binary64_sum::sum(a, b) == a
            &&& binary64_sum::sum(b, a) == a
            &&& binary64_sum::difference(a, b) == a
            &&& binary64_sum::difference(b, a).bits == 0xFFF0_0000_0000_0000
        },
        a.bits == 0xFFF0_0000_0000_0000 && b.finite() ==> {
            &&& binary64_sum::sum(a, b) == a
            &&& binary64_sum::sum(b, a) == a
            &&& binary64_sum::difference(a, b) == a
            &&& binary64_sum::difference(b, a).bits == 0x7FF0_0000_0000_0000
        },
        a.bits == 0x7FF0_0000_0000_0000 && b.bits == 0xFFF0_0000_0000_0000 ==> {
            &&& binary64_sum::sum(a, b).undefined()
            &&& binary64_sum::sum(b, a).undefined()
            &&& binary64_sum::sum(a, a) == a
            &&& binary64_sum::sum(b, b) == b
            &&& binary64_sum::difference(a, b) == a
            &&& binary64_sum::difference(b, a) == b
            &&& binary64_sum::difference(a, a).undefined()
        },
{
    let up = Binary64 { bits: 0x7FF0_0000_0000_0000 };
    let down = Binary64 { bits: 0xFFF0_0000_0000_0000 };
    assert(!up.finite() && !up.undefined() && !up.signed() && up.negated() == down);
    assert(!down.finite() && !down.undefined() && down.signed() && down.negated() == up);
    assert((Binary64 { bits: binary64_sum::UNDEFINED_BITS }).undefined());
    lemma_negated(a);
    lemma_negated(b);
}

} // verus!
