//! Sums, differences and comparisons of doubles.

use crate::binary64;
use crate::binary64::{Binary64, FRACTION_LIMIT, SIGN_WEIGHT};
use vstd::arithmetic::div_mod::*;
use vstd::arithmetic::mul::*;
use vstd::arithmetic::power2::*;
use vstd::prelude::*;

verus! {

/// The bits of positive infinity.
pub const INFINITY_BITS: u64 = 0x7ff0_0000_0000_0000;

/// The bits of the undefined result.
pub const UNDEFINED_BITS: u64 = 0x7ff8_0000_0000_0000;

impl Binary64 {
    /// The bits stand for no number.
    pub open spec fn undefined(self) -> bool {
        !self.finite() && self.bits % FRACTION_LIMIT != 0
    }

    /// The number in units of 2^-1074. An infinity counts as more than every finite number.
    pub open spec fn value(self) -> int {
        if self.signed() {
            -(self.magnitude() as int)
        } else {
            self.magnitude() as int
        }
    }

    /// The number with the other sign.
    pub open spec fn negated(self) -> Binary64 {
        if self.signed() {
            Binary64 { bits: (self.bits - SIGN_WEIGHT) as u64 }
        } else {
            Binary64 { bits: (self.bits + SIGN_WEIGHT) as u64 }
        }
    }
}

/// The exponent of the spacing of doubles around a number of `n` smallest units.
pub open spec fn scale(n: nat) -> nat
    decreases n,
{
    if n < 2 * FRACTION_LIMIT {
        0
    } else {
        scale(n / 2) + 1
    }
}

/// The bits of the double nearest to a number of `n` smallest units; infinity beyond the largest.
pub open spec fn double_bits(n: nat) -> u64 {
    let bits = scale(n) * FRACTION_LIMIT as nat + binary64::nearest_double(n)
        / binary64::spacing(n);
    if bits < INFINITY_BITS {
        bits as u64
    } else {
        INFINITY_BITS
    }
}

/// The double nearest to a number of `v` smallest units. A zero has the sign `negative_zero`.
pub open spec fn rounded(v: int, negative_zero: bool) -> Binary64 {
    if v > 0 || (v == 0 && !negative_zero) {
        Binary64 { bits: double_bits(v as nat) }
    } else {
        Binary64 { bits: (SIGN_WEIGHT + double_bits(-v as nat)) as u64 }
    }
}

/// The sum of two doubles.
pub open spec fn sum(a: Binary64, b: Binary64) -> Binary64 {
    if a.undefined() || b.undefined() || (!a.finite() && !b.finite() && a.signed() != b.signed()) {
        Binary64 { bits: UNDEFINED_BITS }
    } else if !a.finite() {
        a
    } else if !b.finite() {
        b
    } else {
        rounded(a.value() + b.value(), a.signed() && b.signed())
    }
}

/// The difference of two doubles.
pub open spec fn difference(a: Binary64, b: Binary64) -> Binary64 {
    sum(a, b.negated())
}

/// The greater of two numbers; the other one where one is undefined.
pub open spec fn greater(a: Binary64, b: Binary64) -> Binary64 {
    if a.undefined() {
        b
    } else if b.undefined() || a.value() > b.value() {
        a
    } else {
        b
    }
}

/// The lesser of two numbers; the other one where one is undefined.
pub open spec fn lesser(a: Binary64, b: Binary64) -> Binary64 {
    if a.undefined() {
        b
    } else if b.undefined() || a.value() < b.value() {
        a
    } else {
        b
    }
}

pub(crate) proof fn lemma_spacing_is_power(n: nat)
    ensures
        binary64::spacing(n) == pow2(scale(n)),
    decreases n,
{
    if n < 2 * FRACTION_LIMIT {
        lemma2_to64();
    } else {
        lemma_spacing_is_power(n / 2);
        lemma_pow2_unfold(scale(n));
    }
}

/// A number with `d` times 2^k smallest units whose leading digit fills the significand.
proof fn lemma_scale(d: nat, k: nat, rest: nat)
    requires
        FRACTION_LIMIT <= d < 2 * FRACTION_LIMIT || (k == 0 && d < 2 * FRACTION_LIMIT),
        rest < pow2(k),
    ensures
        scale(d * pow2(k) + rest) == k,
    decreases k,
{
    lemma2_to64();
    if k > 0 {
        let j = (k - 1) as nat;
        lemma_pow2_unfold(k);
        lemma_pow2_pos(j);
        let n = d * pow2(k) + rest;
        assert(n >= 2 * FRACTION_LIMIT) by (nonlinear_arith)
            requires
                n >= d * (2 * pow2(j)),
                d >= FRACTION_LIMIT,
                pow2(j) >= 1,
        ;
        assert(n / 2 == d * pow2(j) + rest / 2) by {
            assert(d * (2 * pow2(j)) == 2 * (d * pow2(j))) by (nonlinear_arith);
        }
        lemma_scale(d, j, rest / 2);
    } else {
        assert(d * 1 == d);
    }
}

/// A number that is a double: `d` times 2^k smallest units.
proof fn lemma_exact(d: nat, k: nat)
    requires
        FRACTION_LIMIT <= d < 2 * FRACTION_LIMIT || (k == 0 && d < 2 * FRACTION_LIMIT),
    ensures
        scale(d * pow2(k)) == k,
        binary64::spacing(d * pow2(k)) == pow2(k),
        binary64::nearest_double(d * pow2(k)) == d * pow2(k),
        (d * pow2(k)) / pow2(k) == d,
{
    lemma_pow2_pos(k);
    lemma_scale(d, k, 0);
    let n = d * pow2(k);
    lemma_spacing_is_power(n);
    lemma_div_by_multiple(d as int, pow2(k) as int);
    lemma_mod_multiples_basic(d as int, pow2(k) as int);
    assert(n % pow2(k) == 0);
}

proof fn lemma_scale_shifted(n: nat, s: nat)
    requires
        n >= 2 * FRACTION_LIMIT,
    ensures
        scale(n * pow2(s)) == scale(n) + s,
        n * pow2(s) >= n,
    decreases s,
{
    lemma2_to64();
    if s > 0 {
        let t = (s - 1) as nat;
        lemma_pow2_unfold(s);
        lemma_scale_shifted(n, t);
        assert(n * (2 * pow2(t)) == 2 * (n * pow2(t))) by (nonlinear_arith);
        assert((2 * (n * pow2(t))) / 2 == n * pow2(t));
    }
}

/// The bits of the double nearest to `n` times 2^s smallest units.
fn assemble(n: u128, s: u64) -> (r: u64)
    requires
        n < 0x1000_0000_0000_0000_0000_0000_0000_0000,
        s <= 2046,
    ensures
        r == double_bits((n * pow2(s as nat)) as nat),
{
    let ghost whole: nat = (n * pow2(s as nat)) as nat;
    if n < 0x20_0000_0000_0000 {
        let mut d: u64 = n as u64;
        let mut k: u64 = s;
        if d == 0 {
            proof {
                assert(0 * pow2(s as nat) == 0);
                lemma2_to64();
                lemma_exact(0, 0);
                assert(0 * pow2(0) == 0);
            }
            return 0;
        }
        while d < FRACTION_LIMIT && k > 0
            invariant
                0 < d < 2 * FRACTION_LIMIT,
                k <= s <= 2046,
                whole == d * pow2(k as nat),
            decreases k,
        {
            proof {
                lemma_pow2_unfold(k as nat);
                let p = pow2((k - 1) as nat);
                assert(d * (2 * p) == (d * 2) * p) by (nonlinear_arith);
            }
            d = d * 2;
            k = k - 1;
        }
        proof {
            lemma_exact(d as nat, k as nat);
        }
        let bits: u64 = k * FRACTION_LIMIT + d;
        if bits < INFINITY_BITS {
            bits
        } else {
            INFINITY_BITS
        }
    } else {
        let mut q: u128 = 1;
        let mut k: u64 = 0;
        let mut below: u128 = n;
        proof {
            lemma2_to64();
            lemma2_to64_rest();
            lemma_pow2_adds(64, 60);
        }
        while below >= 0x20_0000_0000_0000
            invariant
                q >= 1,
                below >= FRACTION_LIMIT,
                q * below <= n,
                n < 0x1000_0000_0000_0000_0000_0000_0000_0000,
                below == n / q,
                binary64::spacing(n as nat) == q * binary64::spacing(below as nat),
                scale(n as nat) == k + scale(below as nat),
                k <= 124,
                below < pow2((124 - k) as nat),
            decreases below,
        {
            proof {
                assert(q <= n) by (nonlinear_arith)
                    requires
                        q * below <= n,
                        below >= 1,
                        q >= 1,
                ;
                lemma_div_denominator(n as int, q as int, 2);
                let half = binary64::spacing((below / 2) as nat);
                assert(q * (2 * half) == (q * 2) * half) by (nonlinear_arith);
                assert((q * 2) * (below / 2) <= n) by (nonlinear_arith)
                    requires
                        q * below <= n,
                        below >= 2 * (below / 2),
                        q >= 1,
                ;
                lemma2_to64();
                assert(k < 124);
                lemma_pow2_unfold((124 - k) as nat);
            }
            q = q * 2;
            k = k + 1;
            below = below / 2;
        }
        assert(binary64::spacing(n as nat) == q) by (nonlinear_arith)
            requires
                binary64::spacing(n as nat) == q * binary64::spacing(below as nat),
                binary64::spacing(below as nat) == 1,
        ;
        let rest: u128 = n % q;
        assert(q <= n) by (nonlinear_arith)
            requires
                q * below <= n,
                below >= 1,
                q >= 1,
        ;
        let up: bool = !(2 * rest < q || (2 * rest == q && below % 2 == 0));
        let d: u64 = if up {
            below as u64 + 1
        } else {
            below as u64
        };
        proof {
            assert(binary64::nearest_double(n as nat) == d * q);
            lemma_scale_shifted(n as nat, s as nat);
            binary64::lemma_nearest_double_scaled(n as nat, s as nat);
            lemma_spacing_is_power(n as nat);
            lemma_spacing_is_power(whole);
            lemma_pow2_adds(k as nat, s as nat);
            let p = pow2(s as nat);
            assert((d * q) * p == d * (q * p)) by (nonlinear_arith);
            lemma_pow2_pos((k + s) as nat);
            lemma_div_by_multiple(d as int, pow2((k + s) as nat) as int);
        }
        let bits: u64 = (k + s) * FRACTION_LIMIT + d;
        if bits < INFINITY_BITS {
            bits
        } else {
            INFINITY_BITS
        }
    }
}

/// The first of two numbers is so much larger that the second does not change it.
proof fn lemma_absorbed(d: nat, k: nat, small: nat)
    requires
        FRACTION_LIMIT <= d < 2 * FRACTION_LIMIT,
        k >= 3,
        small < pow2((k - 2) as nat),
    ensures
        small <= d * pow2(k),
        double_bits(d * pow2(k) + small) == double_bits(d * pow2(k)),
        double_bits((d * pow2(k) - small) as nat) == double_bits(d * pow2(k)),
        d * pow2(k) - small > 0,
{
    let j = (k - 1) as nat;
    let q = pow2(k);
    let h = pow2(j);
    let big = d * q;
    lemma_pow2_unfold(k);
    lemma_pow2_unfold(j);
    lemma_pow2_pos((k - 2) as nat);
    lemma_exact(d, k);
    assert(big >= q) by (nonlinear_arith)
        requires
            big == d * q,
            d >= 1,
            q >= 0,
    ;
    // Above.
    lemma_scale(d, k, small);
    lemma_spacing_is_power(big + small);
    lemma_fundamental_div_mod_converse((big + small) as int, q as int, d as int, small as int);
    assert(binary64::nearest_double(big + small) == big);
    // Below.
    if small > 0 {
        let lower = (big - small) as nat;
        if d > FRACTION_LIMIT {
            let e = (d - 1) as nat;
            let rest = (q - small) as nat;
            assert(lower == e * q + rest) by (nonlinear_arith)
                requires
                    lower == d * q - small,
                    e == d - 1,
                    rest == q - small,
            ;
            lemma_scale(e, k, rest);
            lemma_spacing_is_power(lower);
            lemma_fundamental_div_mod_converse(lower as int, q as int, e as int, rest as int);
            assert(binary64::nearest_double(lower) == big);
        } else {
            let e = (2 * d - 1) as nat;
            let rest = (h - small) as nat;
            assert(lower == e * h + rest) by (nonlinear_arith)
                requires
                    lower == d * q - small,
                    q == 2 * h,
                    e == 2 * d - 1,
                    rest == h - small,
            ;
            lemma_scale(e, j, rest);
            lemma_spacing_is_power(lower);
            lemma_fundamental_div_mod_converse(lower as int, h as int, e as int, rest as int);
            assert(binary64::nearest_double(lower) == (e + 1) * h);
            assert((e + 1) * h == big) by (nonlinear_arith)
                requires
                    e == 2 * d - 1,
                    q == 2 * h,
                    big == d * q,
            ;
            lemma_pow2_pos(j);
            lemma_div_by_multiple(2 * d as int, h as int);
            assert(binary64::nearest_double(lower) / binary64::spacing(lower) == 2 * d);
            assert(scale(lower) * FRACTION_LIMIT + 2 * d == scale(big) * FRACTION_LIMIT + d)
                by (nonlinear_arith)
                requires
                    scale(lower) == k - 1,
                    scale(big) == k,
                    d == FRACTION_LIMIT,
            ;
        }
    }
}

/// The bits of a double without its sign, from its significand and shift.
proof fn lemma_double_bits_of(x: Binary64)
    requires
        !x.undefined(),
    ensures
        double_bits(x.magnitude()) == x.bits % SIGN_WEIGHT,
{
    lemma_exact(x.significand(), x.shift());
    let e = x.exponent();
    let body = x.bits % SIGN_WEIGHT;
    assert(body == e * FRACTION_LIMIT + body % FRACTION_LIMIT);
    assert(x.bits % FRACTION_LIMIT == body % FRACTION_LIMIT) by {
        let b = x.bits;
        assert((b % 0x8000_0000_0000_0000) % 0x10_0000_0000_0000 == b % 0x10_0000_0000_0000)
            by (bit_vector);
    }
}

impl Binary64 {
    fn is_signed(&self) -> (r: bool)
        ensures
            r == self.signed(),
    {
        self.bits >= SIGN_WEIGHT
    }

    /// Whether the bits stand for no number.
    pub fn is_undefined(&self) -> (r: bool)
        ensures
            r == self.undefined(),
    {
        !self.is_finite() && self.bits % FRACTION_LIMIT != 0
    }

    fn shift_field(&self) -> (r: u64)
        ensures
            r == self.shift(),
            r <= 2046,
    {
        let e: u64 = self.exponent_field();
        if e == 0 {
            0
        } else {
            e - 1
        }
    }

    /// The sum of the number and `other`.
    pub fn plus(&self, other: Binary64) -> (r: Binary64)
        ensures
            r == sum(*self, other),
    {
        if self.is_undefined() || other.is_undefined() {
            return Binary64 { bits: UNDEFINED_BITS };
        }
        if !self.is_finite() {
            if !other.is_finite() && self.is_signed() != other.is_signed() {
                return Binary64 { bits: UNDEFINED_BITS };
            }
            return *self;
        }
        if !other.is_finite() {
            return other;
        }
        if self.shift_field() >= other.shift_field() {
            finite_sum(self, &other)
        } else {
            finite_sum(&other, self)
        }
    }

    /// The difference of the number and `other`.
    pub fn minus(&self, other: Binary64) -> (r: Binary64)
        ensures
            r == difference(*self, other),
    {
        let negated: Binary64 = if other.bits >= SIGN_WEIGHT {
            Binary64 { bits: other.bits - SIGN_WEIGHT }
        } else {
            Binary64 { bits: other.bits + SIGN_WEIGHT }
        };
        self.plus(negated)
    }
}

/// The sum of two finite doubles, the one with the greater exponent first.
fn finite_sum(a: &Binary64, b: &Binary64) -> (r: Binary64)
    requires
        a.finite(),
        b.finite(),
        a.shift() >= b.shift(),
    ensures
        r == rounded(a.value() + b.value(), a.signed() && b.signed()),
{
    let gap: u64 = a.shift_field() - b.shift_field();
    let same: bool = a.is_signed() == b.is_signed();
    if gap > 64 {
        proof {
            lemma_absorbed_operand(*a, *b);
            lemma_double_bits_of(*a);
        }
        return *a;
    }
    let unit: u128 = binary64::power_of_two(gap as u32);
    let x: u128 = binary64::widened(a.digits(), unit, gap as u32);
    let y: u128 = b.digits() as u128;
    let s: u64 = b.shift_field();
    proof {
        lemma_pow2_adds(gap as nat, s as nat);
        let p = pow2(s as nat);
        let w = pow2(gap as nat);
        let m = a.significand();
        assert(m * (w * p) == (m * w) * p) by (nonlinear_arith);
        assert(a.magnitude() == x * p);
        assert(b.magnitude() == y * p);
        assert((x + y) * p == x * p + y * p) by (nonlinear_arith);
        assert((x - y) * p == x * p - y * p) by (nonlinear_arith);
        assert((y - x) * p == y * p - x * p) by (nonlinear_arith);
        lemma_pow2_pos(s as nat);
        assert(x >= y ==> x * p >= y * p) by (nonlinear_arith)
            requires
                p > 0,
        ;
        assert(x > y ==> x * p > y * p) by (nonlinear_arith)
            requires
                p > 0,
        ;
        assert(y > x ==> y * p > x * p) by (nonlinear_arith)
            requires
                p > 0,
        ;
    }
    if same {
        let bits: u64 = assemble(x + y, s);
        if a.is_signed() {
            Binary64 { bits: SIGN_WEIGHT + bits }
        } else {
            Binary64 { bits }
        }
    } else if x >= y {
        let bits: u64 = assemble(x - y, s);
        if a.is_signed() && x > y {
            Binary64 { bits: SIGN_WEIGHT + bits }
        } else {
            Binary64 { bits }
        }
    } else {
        let bits: u64 = assemble(y - x, s);
        if b.is_signed() {
            Binary64 { bits: SIGN_WEIGHT + bits }
        } else {
            Binary64 { bits }
        }
    }
}

proof fn lemma_absorbed_operand(a: Binary64, b: Binary64)
    requires
        a.finite(),
        b.finite(),
        a.shift() > b.shift() + 64,
    ensures
        rounded(a.value() + b.value(), a.signed() && b.signed()) == (if a.signed() {
            Binary64 { bits: (SIGN_WEIGHT + double_bits(a.magnitude())) as u64 }
        } else {
            Binary64 { bits: double_bits(a.magnitude()) }
        }),
{
    let k = a.shift();
    let d = a.significand();
    let small = b.magnitude();
    lemma2_to64();
    lemma2_to64_rest();
    lemma_pow2_adds(53, b.shift());
    lemma_pow2_strictly_increases((53 + b.shift()) as nat, (k - 2) as nat);
    let m = b.significand();
    let p = pow2(b.shift());
    lemma_pow2_pos(b.shift());
    assert(m * p < pow2(53) * p) by (nonlinear_arith)
        requires
            m < pow2(53),
            p > 0,
    ;
    lemma_absorbed(d, k, small);
}

/// Bits without a sign order the numbers that they stand for.
proof fn lemma_bits_order(a: Binary64, b: Binary64)
    requires
        a.bits % SIGN_WEIGHT < b.bits % SIGN_WEIGHT,
    ensures
        a.magnitude() < b.magnitude(),
{
    let x = a.bits;
    let y = b.bits;
    assert((x % 0x8000_0000_0000_0000) % 0x10_0000_0000_0000 == x % 0x10_0000_0000_0000)
        by (bit_vector);
    assert((y % 0x8000_0000_0000_0000) % 0x10_0000_0000_0000 == y % 0x10_0000_0000_0000)
        by (bit_vector);
    let m = a.significand();
    let n = b.significand();
    let p = pow2(a.shift());
    let q = pow2(b.shift());
    lemma_pow2_pos(a.shift());
    lemma_pow2_pos(b.shift());
    if a.exponent() == b.exponent() {
        assert(m < n);
        assert(m * p < n * p) by (nonlinear_arith)
            requires
                m < n,
                p > 0,
        ;
    } else {
        assert(a.exponent() < b.exponent());
        if a.shift() == b.shift() {
            assert(m * p < n * p) by (nonlinear_arith)
                requires
                    m < n,
                    p > 0,
            ;
        } else {
            lemma_pow2_unfold(b.shift());
            let h = pow2((b.shift() - 1) as nat);
            if a.shift() < b.shift() - 1 {
                lemma_pow2_strictly_increases(a.shift(), (b.shift() - 1) as nat);
            }
            assert(m * p < n * q) by (nonlinear_arith)
                requires
                    m < 2 * FRACTION_LIMIT,
                    n >= FRACTION_LIMIT,
                    q == 2 * h,
                    0 < p <= h,
            ;
        }
    }
}

proof fn lemma_same_bits(a: Binary64, b: Binary64)
    requires
        a.bits % SIGN_WEIGHT == b.bits % SIGN_WEIGHT,
    ensures
        a.magnitude() == b.magnitude(),
{
    let x = a.bits;
    let y = b.bits;
    assert((x % 0x8000_0000_0000_0000) % 0x10_0000_0000_0000 == x % 0x10_0000_0000_0000)
        by (bit_vector);
    assert((y % 0x8000_0000_0000_0000) % 0x10_0000_0000_0000 == y % 0x10_0000_0000_0000)
        by (bit_vector);
}

impl Binary64 {
    /// Whether the number is greater than `other`. An undefined operand is not greater.
    pub fn exceeds(&self, other: Binary64) -> (r: bool)
        ensures
            r == (!self.undefined() && !other.undefined() && self.value() > other.value()),
    {
        if self.is_undefined() || other.is_undefined() {
            return false;
        }
        let x: u64 = self.bits % SIGN_WEIGHT;
        let y: u64 = other.bits % SIGN_WEIGHT;
        proof {
            let zero = Binary64 { bits: 0 };
            assert(zero.magnitude() == 0) by {
                assert(zero.significand() == 0);
                assert(0 * pow2(zero.shift()) == 0) by (nonlinear_arith);
            }
            if x < y {
                lemma_bits_order(*self, other);
            } else if y < x {
                lemma_bits_order(other, *self);
            } else {
                lemma_same_bits(*self, other);
            }
            if x > 0 {
                lemma_bits_order(zero, *self);
            } else {
                lemma_same_bits(zero, *self);
            }
            if y > 0 {
                lemma_bits_order(zero, other);
            } else {
                lemma_same_bits(zero, other);
            }
        }
        if self.is_signed() {
            other.is_signed() && x < y
        } else {
            if other.is_signed() {
                x > 0 || y > 0
            } else {
                x > y
            }
        }
    }

    /// The greater of the number and `other`.
    pub fn max(&self, other: Binary64) -> (r: Binary64)
        ensures
            r == greater(*self, other),
    {
        if self.is_undefined() {
            other
        } else if other.is_undefined() || self.exceeds(other) {
            *self
        } else {
            other
        }
    }

    /// The lesser of the number and `other`.
    pub fn min(&self, other: Binary64) -> (r: Binary64)
        ensures
            r == lesser(*self, other),
    {
        if self.is_undefined() {
            other
        } else if other.is_undefined() || other.exceeds(*self) {
            *self
        } else {
            other
        }
    }
}

/// Rounding yields a number: the bits that the rounding of `n` smallest units gives stand for the
/// double nearest to it, as long as that is not beyond the largest one.
pub proof fn rounding_yields_the_nearest_double(n: nat)
    ensures
        double_bits(n) < INFINITY_BITS ==> ({
            let x = Binary64 { bits: double_bits(n) };
            x.finite() && !x.signed() && x.magnitude() == binary64::nearest_double(n)
        }),
{
    if double_bits(n) < INFINITY_BITS {
        let x = Binary64 { bits: double_bits(n) };
        let k = scale(n);
        let q = binary64::spacing(n);
        let d = binary64::nearest_double(n) / q;
        lemma_spacing_is_power(n);
        lemma_pow2_pos(k);
        lemma_quotient(n);
        lemma_digits_of(n);
        assert(binary64::nearest_double(n) == d * q);
        lemma2_to64();
        if d == 2 * FRACTION_LIMIT {
            assert(x.bits == (k + 2) * FRACTION_LIMIT);
            assert(x.exponent() == k + 2);
            assert(x.significand() == FRACTION_LIMIT);
            lemma_pow2_unfold(k + 1);
            assert(FRACTION_LIMIT * (2 * q) == (2 * FRACTION_LIMIT) * q) by (nonlinear_arith);
        } else if d >= FRACTION_LIMIT {
            assert(x.bits == (k + 1) * FRACTION_LIMIT + (d - FRACTION_LIMIT));
            assert(x.exponent() == k + 1);
            assert(x.significand() == d);
        } else {
            assert(k == 0);
            assert(x.bits == d);
            assert(x.exponent() == 0);
            assert(x.significand() == d);
        }
    }
}

/// The nearest double is a multiple of the spacing.
pub(crate) proof fn lemma_quotient(n: nat)
    ensures
        binary64::nearest_double(n) == (binary64::nearest_double(n) / binary64::spacing(n))
            * binary64::spacing(n),
        binary64::nearest_double(n) / binary64::spacing(n) == n / binary64::spacing(n)
            || binary64::nearest_double(n) / binary64::spacing(n) == n / binary64::spacing(n) + 1,
{
    lemma_spacing_is_power(n);
    lemma_pow2_pos(scale(n));
    let q = binary64::spacing(n) as int;
    let below = n as int / q;
    lemma_div_by_multiple(below, q);
    lemma_div_by_multiple(below + 1, q);
}

/// A number fills the significand, or is so small that it has the smallest spacing.
pub(crate) proof fn lemma_digits_of(n: nat)
    ensures
        n / binary64::spacing(n) < 2 * FRACTION_LIMIT,
        scale(n) > 0 ==> n / binary64::spacing(n) >= FRACTION_LIMIT,
    decreases n,
{
    if n < 2 * FRACTION_LIMIT {
        assert(n / 1 == n) by (nonlinear_arith);
    } else {
        lemma_digits_of(n / 2);
        lemma_spacing_is_power(n / 2);
        lemma_pow2_pos(scale(n / 2));
        lemma_div_denominator(n as int, 2, binary64::spacing(n / 2) as int);
        if scale(n / 2) == 0 {
            assert(binary64::spacing(n / 2) == 1) by {
                lemma2_to64();
            }
            assert((n / 2) / 1 == n / 2) by (nonlinear_arith);
        }
    }
}

/// A finite amount less itself is zero; an infinite one less itself is undefined.
pub proof fn an_amount_less_itself_is_zero(a: Binary64, b: Binary64)
    requires
        !a.undefined(),
        !b.undefined(),
        a.value() == b.value(),
    ensures
        difference(a, b).undefined() || difference(a, b).value() == 0,
{
    let c = b.negated();
    let zero = Binary64 { bits: 0 };
    let signed_zero = Binary64 { bits: SIGN_WEIGHT };
    assert(a.magnitude() == b.magnitude());
    if a.bits % SIGN_WEIGHT < b.bits % SIGN_WEIGHT {
        lemma_bits_order(a, b);
    } else if b.bits % SIGN_WEIGHT < a.bits % SIGN_WEIGHT {
        lemma_bits_order(b, a);
    }
    lemma_same_bits(b, c);
    let x = b.bits;
    let y = c.bits;
    assert((x % 0x8000_0000_0000_0000) % 0x10_0000_0000_0000 == x % 0x10_0000_0000_0000)
        by (bit_vector);
    assert((y % 0x8000_0000_0000_0000) % 0x10_0000_0000_0000 == y % 0x10_0000_0000_0000)
        by (bit_vector);
    if a.finite() {
        assert(scale(0) == 0);
        assert(binary64::spacing(0) == 1);
        assert(binary64::nearest_double(0) == 0) by {
            assert(0nat / 1nat == 0 && 0nat % 1nat == 0);
        }
        assert(double_bits(0) == 0);
        assert(zero.magnitude() == 0) by {
            assert(zero.significand() == 0);
            assert(0 * pow2(zero.shift()) == 0) by (nonlinear_arith);
        }
        lemma_same_bits(zero, signed_zero);
    } else if a.signed() != b.signed() {
        assert(a.magnitude() == 0);
        if 0 < a.bits % SIGN_WEIGHT {
            lemma_bits_order(zero, a);
        }
    } else {
        assert(Binary64 { bits: UNDEFINED_BITS }.undefined());
    }
}

} // verus!
