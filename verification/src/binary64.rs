//! Amounts that arrive as IEEE 754 doubles, held as their bits and read exactly.

use vstd::arithmetic::div_mod::*;
use vstd::arithmetic::mul::*;
use vstd::arithmetic::power2::*;
use vstd::prelude::*;

verus! {

/// The weight of the lowest exponent bit.
pub const FRACTION_LIMIT: u64 = 0x10_0000_0000_0000;

/// The exponent field of infinities and of what is not a number.
pub const SPECIAL_EXPONENT: u64 = 2047;

/// The weight of the sign bit.
pub const SIGN_WEIGHT: u64 = 0x8000_0000_0000_0000;

/// A double precision number, by its IEEE 754 bits.
#[derive(Debug, Clone, Copy, PartialEq, Eq, Structural)]
pub struct Binary64 {
    pub bits: u64,
}

impl Binary64 {
    /// The sign bit is set.
    pub open spec fn signed(self) -> bool {
        self.bits >= SIGN_WEIGHT
    }

    /// The biased exponent.
    pub open spec fn exponent(self) -> nat {
        ((self.bits % SIGN_WEIGHT) / FRACTION_LIMIT) as nat
    }

    /// The number is finite.
    pub open spec fn finite(self) -> bool {
        self.exponent() != SPECIAL_EXPONENT
    }

    /// The digits of the number, with the implicit leading one of a normal number.
    pub open spec fn significand(self) -> nat {
        let fraction = (self.bits % FRACTION_LIMIT) as nat;
        if self.exponent() == 0 {
            fraction
        } else {
            FRACTION_LIMIT as nat + fraction
        }
    }

    /// How far the significand stands above the smallest unit, 2^-1074.
    pub open spec fn shift(self) -> nat {
        if self.exponent() == 0 {
            0
        } else {
            (self.exponent() - 1) as nat
        }
    }

    /// The absolute value of a finite number, counted in units of 2^-1074. It is exact.
    pub open spec fn magnitude(self) -> nat {
        self.significand() * pow2(self.shift())
    }

    /// The number is finite and greater than zero.
    pub open spec fn positive(self) -> bool {
        self.finite() && !self.signed() && self.magnitude() > 0
    }

    /// The number is finite and not less than zero.
    pub open spec fn nonnegative(self) -> bool {
        self.finite() && (!self.signed() || self.magnitude() == 0)
    }

    /// The number, where it is exactly an integer from 1 to `max`.
    pub open spec fn positive_integer(self, max: u64) -> Option<u64> {
        if self.positive() && self.magnitude() % one() == 0 && self.magnitude() / one() <= max {
            Some((self.magnitude() / one()) as u64)
        } else {
            None
        }
    }

    /// The number is exactly the positive integer `n`.
    spec fn is_integer(self, n: nat) -> bool {
        self.positive() && self.magnitude() == n * one()
    }
}

/// The number one, counted in units of 2^-1074.
pub open spec fn one() -> nat {
    pow2(1074)
}

/// The spacing of the doubles around a number of `n` smallest units.
pub open spec fn spacing(n: nat) -> nat
    decreases n,
{
    if n < 2 * FRACTION_LIMIT {
        1
    } else {
        2 * spacing(n / 2)
    }
}

/// The double that is nearest to a number of `n` smallest units, the even one of two.
pub open spec fn nearest_double(n: nat) -> nat {
    let q = spacing(n);
    let below = n / q;
    let rest = n % q;
    if 2 * rest < q || (2 * rest == q && below % 2 == 0) {
        below * q
    } else {
        (below + 1) * q
    }
}

/// The integer nearest to a number of `n` smallest units, halves up.
pub open spec fn nearest_integer(n: nat) -> nat {
    (2 * n + one()) / (2 * one())
}

proof fn lemma_spacing_positive(n: nat)
    ensures
        spacing(n) >= 1,
    decreases n,
{
    if n >= 2 * FRACTION_LIMIT {
        lemma_spacing_positive(n / 2);
    }
}

/// A small number is a double itself.
pub(crate) proof fn lemma_nearest_double_small(n: nat)
    requires
        n < 2 * FRACTION_LIMIT,
    ensures
        nearest_double(n) == n,
{
    assert(n / 1 == n && n % 1 == 0) by (nonlinear_arith);
    assert(n * 1 == n);
}

/// Doubling commutes with rounding to a double.
proof fn lemma_nearest_double_doubled(n: nat)
    ensures
        nearest_double(2 * n) == 2 * nearest_double(n),
{
    lemma_spacing_positive(n);
    let q = spacing(n);
    if n >= 2 * FRACTION_LIMIT {
        assert((2 * n) / 2 == n);
        assert(spacing(2 * n) == 2 * q);
        lemma_fundamental_div_mod(n as int, q as int);
        let below = n / q;
        let rest = n % q;
        assert(2 * n == (2 * q) * below + 2 * rest) by (nonlinear_arith)
            requires
                n == q * below + rest,
        ;
        assert(2 * rest < 2 * q);
        lemma_fundamental_div_mod_converse(2 * n as int, 2 * q as int, below as int, 2 * rest as int);
        assert(below * (2 * q) == 2 * (below * q)) by (nonlinear_arith);
        assert((below + 1) * (2 * q) == 2 * ((below + 1) * q)) by (nonlinear_arith);
    } else {
        lemma_nearest_double_small(n);
        if 2 * n < 2 * FRACTION_LIMIT {
            lemma_nearest_double_small(2 * n);
        } else {
            assert((2 * n) / 2 == n);
            assert(spacing(2 * n) == 2);
            assert((2 * n) % 2 == 0);
        }
    }
}

/// Scaling by a power of two commutes with rounding to a double.
pub proof fn lemma_nearest_double_scaled(n: nat, s: nat)
    ensures
        nearest_double(n * pow2(s)) == nearest_double(n) * pow2(s),
    decreases s,
{
    if s == 0 {
        lemma2_to64();
    } else {
        let t = (s - 1) as nat;
        lemma_pow2_unfold(s);
        lemma_nearest_double_scaled(n, t);
        lemma_nearest_double_doubled(n * pow2(t));
        assert(n * (2 * pow2(t)) == 2 * (n * pow2(t))) by (nonlinear_arith);
        assert(nearest_double(n) * (2 * pow2(t)) == 2 * (nearest_double(n) * pow2(t)))
            by (nonlinear_arith);
    }
}

/// Rounding moves a number by less than its spacing.
proof fn lemma_nearest_double_bound(n: nat)
    ensures
        nearest_double(n) <= 2 * n,
{
    lemma_spacing_positive(n);
    lemma_spacing_below(n);
    let q = spacing(n);
    lemma_fundamental_div_mod(n as int, q as int);
    let below = n / q;
    let rest = n % q;
    assert(below * q <= n) by (nonlinear_arith)
        requires
            n == q * below + rest,
            rest >= 0,
    ;
    assert((below + 1) * q == below * q + q) by (nonlinear_arith);
}

proof fn lemma_spacing_below(n: nat)
    ensures
        n == 0 || spacing(n) <= n,
    decreases n,
{
    if n >= 2 * FRACTION_LIMIT {
        lemma_spacing_below(n / 2);
    }
}

pub(crate) fn power_of_two(k: u32) -> (r: u128)
    requires
        k < 128,
    ensures
        r == pow2(k as nat),
{
    let mut r: u128 = 1;
    let mut i: u32 = 0;
    proof {
        lemma2_to64();
        lemma2_to64_rest();
    }
    while i < k
        invariant
            i <= k < 128,
            r == pow2(i as nat),
        decreases k - i,
    {
        proof {
            lemma_pow2_unfold((i + 1) as nat);
            lemma_pow2_127((i + 1) as nat);
        }
        r = r * 2;
        i += 1;
    }
    r
}

/// `digits` times `unit`, where `unit` is at most 2^64.
pub(crate) fn widened(digits: u64, unit: u128, k: u32) -> (r: u128)
    requires
        digits < 2 * FRACTION_LIMIT,
        k <= 64,
        unit == pow2(k as nat),
    ensures
        r == digits * unit,
        r < 0x20_0000_0000_0000_0000_0000_0000_0000,
{
    proof {
        lemma2_to64();
        lemma2_to64_rest();
        if k < 64 {
            lemma_pow2_strictly_increases(k as nat, 64);
        }
        assert(digits * unit < 0x20_0000_0000_0000_0000_0000_0000_0000) by (nonlinear_arith)
            requires
                digits < 0x20_0000_0000_0000,
                unit <= 0x1_0000_0000_0000_0000,
        ;
    }
    digits as u128 * unit
}

proof fn lemma_pow2_127(k: nat)
    requires
        k <= 127,
    ensures
        pow2(k) <= 0x8000_0000_0000_0000_0000_0000_0000_0000,
{
    lemma2_to64();
    lemma2_to64_rest();
    lemma_pow2_adds(63, 64);
    if k < 127 {
        lemma_pow2_strictly_increases(k, 127);
    }
}

/// Rounds `n` to a double.
fn round_to_double(n: u128) -> (r: u128)
    requires
        n < 0x1_0000_0000_0000_0000_0000_0000,
    ensures
        r == nearest_double(n as nat),
        r <= 2 * n,
{
    let mut q: u128 = 1;
    let mut below: u128 = n;
    assert(n == q * below + 0);
    while below >= 0x20_0000_0000_0000
        invariant
            q >= 1,
            q * below <= n,
            n < 0x1_0000_0000_0000_0000_0000_0000,
            below == n / q,
            spacing(n as nat) == q * spacing(below as nat),
        decreases below,
    {
        proof {
            assert(q <= n) by (nonlinear_arith)
                requires
                    q * below <= n,
                    below >= 1,
                    q >= 1,
            ;
            lemma_div_denominator(n as int, q as int, 2);
            assert(q * (2 * spacing((below / 2) as nat)) == (q * 2) * spacing((below / 2) as nat))
                by (nonlinear_arith);
            assert((q * 2) * (below / 2) <= n) by (nonlinear_arith)
                requires
                    q * below <= n,
                    below >= 2 * (below / 2),
                    q >= 1,
            ;
        }
        q = q * 2;
        below = below / 2;
    }
    assert(spacing(n as nat) == q) by (nonlinear_arith)
        requires
            spacing(n as nat) == q * spacing(below as nat),
            spacing(below as nat) == 1,
    ;
    let rest: u128 = n % q;
    proof {
        lemma_nearest_double_bound(n as nat);
        lemma_fundamental_div_mod(n as int, q as int);
        assert(q <= n || n == 0) by {
            lemma_spacing_below(n as nat);
        }
        assert(below * q <= n && (below + 1) * q <= n + q) by (nonlinear_arith)
            requires
                n == q * below + rest,
                rest >= 0,
        ;
    }
    if 2 * rest < q || (2 * rest == q && below % 2 == 0) {
        below * q
    } else {
        (below + 1) * q
    }
}

impl Binary64 {
    pub(crate) fn exponent_field(&self) -> (r: u64)
        ensures
            r == self.exponent(),
            r <= 2047,
    {
        (self.bits % SIGN_WEIGHT) / FRACTION_LIMIT
    }

    pub(crate) fn digits(&self) -> (r: u64)
        ensures
            r == self.significand(),
            r < 2 * FRACTION_LIMIT,
    {
        let fraction: u64 = self.bits % FRACTION_LIMIT;
        if self.exponent_field() == 0 {
            fraction
        } else {
            FRACTION_LIMIT + fraction
        }
    }

    /// Whether the number is neither infinite nor undefined.
    pub fn is_finite(&self) -> (r: bool)
        ensures
            r == self.finite(),
    {
        self.exponent_field() != SPECIAL_EXPONENT
    }

    /// The magnitude is zero exactly when the significand is.
    proof fn lemma_zero(self)
        ensures
            (self.magnitude() == 0) == (self.significand() == 0),
    {
        lemma_pow2_pos(self.shift());
        let m = self.significand();
        let p = pow2(self.shift());
        assert((m * p == 0) == (m == 0)) by (nonlinear_arith)
            requires
                p > 0,
        ;
    }

    /// Whether the number is finite and greater than zero.
    pub fn is_positive(&self) -> (r: bool)
        ensures
            r == self.positive(),
    {
        proof {
            self.lemma_zero();
        }
        self.is_finite() && self.bits < SIGN_WEIGHT && self.digits() > 0
    }

    /// Whether the number is finite and not less than zero.
    pub fn is_nonnegative(&self) -> (r: bool)
        ensures
            r == self.nonnegative(),
    {
        proof {
            self.lemma_zero();
        }
        self.is_finite() && (self.bits < SIGN_WEIGHT || self.digits() == 0)
    }

    /// The number as a positive integer of at most `max`, where it is one.
    pub fn to_positive_integer(&self, max: u64) -> (r: Option<u64>)
        requires
            max < 2 * FRACTION_LIMIT,
        ensures
            r == self.positive_integer(max),
    {
        let r = self.find_positive_integer(max);
        proof {
            lemma_pow2_pos(1074);
            let v = self.magnitude() as int;
            let u = one() as int;
            match r {
                Some(n) => {
                    lemma_fundamental_div_mod_converse(v, u, n as int, 0);
                },
                None => {
                    if self.positive_integer(max) is Some {
                        let n = (v / u) as nat;
                        lemma_fundamental_div_mod(v, u);
                        assert(v == n * u) by (nonlinear_arith)
                            requires
                                v == u * n + 0,
                        ;
                        assert(n >= 1) by (nonlinear_arith)
                            requires
                                v == n * u,
                                v > 0,
                                u > 0,
                                n >= 0,
                        ;
                        assert(self.is_integer(n));
                    }
                },
            }
        }
        r
    }

    fn find_positive_integer(&self, max: u64) -> (r: Option<u64>)
        requires
            max < 2 * FRACTION_LIMIT,
        ensures
            match r {
                Some(n) => 1 <= n <= max && self.is_integer(n as nat),
                None => forall|n: nat| 1 <= n <= max ==> !self.is_integer(n),
            },
    {
        proof {
            self.lemma_zero();
        }
        if !self.is_positive() {
            return None;
        }
        let exponent: u64 = self.exponent_field();
        let m: u64 = self.digits();
        let ghost p = pow2(self.shift());
        if exponent > 1075 {
            assert forall|n: nat| 1 <= n <= max implies !self.is_integer(n) by {
                self.lemma_large(n, max as nat);
            }
            return None;
        }
        let below: u64 = if exponent == 0 {
            1074
        } else {
            1075 - exponent
        };
        proof {
            lemma_pow2_adds(self.shift(), below as nat);
            lemma_pow2_pos(self.shift());
            lemma_pow2_pos(below as nat);
        }
        if below > 53 {
            assert forall|n: nat| 1 <= n <= max implies !self.is_integer(n) by {
                lemma_pow2_strictly_increases(53, below as nat);
                lemma2_to64_rest();
                let w = pow2(below as nat);
                assert(n * (p * w) >= p * w && p * w > m * p) by (nonlinear_arith)
                    requires
                        n >= 1,
                        p > 0,
                        w > m,
                ;
            }
            return None;
        }
        let unit: u64 = power_of_two_u64(below as u32);
        let ghost w = pow2(below as nat);
        let n: u64 = m / unit;
        if m % unit == 0 && n <= max {
            proof {
                lemma_fundamental_div_mod(m as int, unit as int);
                assert(m * p == n * (p * w)) by (nonlinear_arith)
                    requires
                        m == w * n,
                ;
                assert(n >= 1) by {
                    assert(m > 0);
                    assert(n > 0) by (nonlinear_arith)
                        requires
                            m == w * n,
                            m > 0,
                            n >= 0,
                    ;
                }
            }
            Some(n)
        } else {
            assert forall|k: nat| 1 <= k <= max implies !self.is_integer(k) by {
                if m * p == k * (p * w) {
                    assert(m == k * w) by (nonlinear_arith)
                        requires
                            m * p == k * (p * w),
                            p > 0,
                    ;
                    lemma_fundamental_div_mod_converse(m as int, w as int, k as int, 0);
                }
            }
            None
        }
    }

    proof fn lemma_large(self, n: nat, max: nat)
        requires
            self.exponent() > 1075,
            n <= max < 2 * FRACTION_LIMIT,
        ensures
            self.magnitude() != n * one(),
    {
        lemma_pow2_strictly_increases(1074, self.shift());
        lemma_pow2_adds(1074, (self.shift() - 1074) as nat);
        lemma_pow2_pos(1074);
        let extra = pow2((self.shift() - 1074) as nat);
        assert(extra >= 2) by {
            lemma2_to64();
            if self.shift() - 1074 > 1 {
                lemma_pow2_strictly_increases(1, (self.shift() - 1074) as nat);
            }
        }
        let m = self.significand();
        assert(m * (one() * extra) > n * one()) by (nonlinear_arith)
            requires
                m >= FRACTION_LIMIT,
                extra >= 2,
                one() > 0,
                n < 2 * FRACTION_LIMIT,
        ;
    }
}

fn power_of_two_u64(k: u32) -> (r: u64)
    requires
        k <= 53,
    ensures
        r == pow2(k as nat),
{
    proof {
        lemma2_to64();
        lemma2_to64_rest();
        if k < 53 {
            lemma_pow2_strictly_increases(k as nat, 53);
        }
    }
    power_of_two(k) as u64
}

/// Cost units in one US dollar.
pub const USAGE_POLICY_COST_UNITS_PER_USD: u64 = 100_000_000;

/// The largest number of cost units: the range of a signed database integer.
pub const MAX_COST_UNITS: u64 = 0x7fff_ffff_ffff_ffff;

/// The product of an amount in dollars and the cost units per dollar, as a double.
pub open spec fn scaled_usd(value: Binary64) -> nat {
    nearest_double(value.magnitude() * USAGE_POLICY_COST_UNITS_PER_USD as nat)
}

/// `n` cost units, where the database can hold them.
pub open spec fn storable_units(n: nat) -> Option<u64> {
    if n <= MAX_COST_UNITS {
        Some(n as u64)
    } else {
        None
    }
}

/// A positive amount in cost units: at least half a unit, and no more than can be stored.
pub open spec fn cost_units(value: Binary64) -> Option<u64> {
    if value.positive() && 2 * scaled_usd(value) >= one() {
        storable_units(nearest_integer(scaled_usd(value)))
    } else {
        None
    }
}

/// An amount that may be zero in cost units.
pub open spec fn nonnegative_cost_units(value: Binary64) -> Option<u64> {
    if value.nonnegative() {
        storable_units(nearest_integer(scaled_usd(value)))
    } else {
        None
    }
}

/// A finite amount in cost units, and whether it is at least half a unit.
fn scaled_units(value: &Binary64) -> (r: (Option<u64>, bool))
    requires
        value.finite(),
    ensures
        r.0 == storable_units(nearest_integer(scaled_usd(*value))),
        r.1 == (2 * scaled_usd(*value) >= one()),
{
    let exponent: u64 = value.exponent_field();
    let m: u64 = value.digits();
    let product: u128 = m as u128 * 100_000_000u128;
    let rounded: u128 = round_to_double(product);
    let ghost s = value.shift();
    let ghost p = pow2(s);
    proof {
        lemma_nearest_double_scaled(product as nat, s);
        assert(value.magnitude() * USAGE_POLICY_COST_UNITS_PER_USD as nat == product * p)
            by (nonlinear_arith)
            requires
                value.magnitude() == m * p,
                product == m * 100_000_000,
                USAGE_POLICY_COST_UNITS_PER_USD == 100_000_000,
        ;
        assert(scaled_usd(*value) == rounded * p);
        lemma_pow2_pos(s);
        lemma_pow2_pos(1074);
    }
    if exponent > 1074 {
        proof {
            lemma_large_units(m as nat, product as nat, rounded as nat, s);
        }
        return (None, true);
    }
    let below: u64 = if exponent == 0 {
        1074
    } else {
        1075 - exponent
    };
    let ghost w = pow2(below as nat);
    proof {
        lemma_pow2_adds(s, below as nat);
        lemma_pow2_pos(below as nat);
        assert(one() == p * w);
        // The common factor `p` cancels.
        assert(2 * (rounded * p) + p * w == p * (2 * rounded + w)) by (nonlinear_arith);
        assert(2 * (p * w) == p * (2 * w)) by (nonlinear_arith);
        lemma_div_multiples_vanish_quotient(
            p as int,
            2 * rounded as int + w as int,
            2 * w as int,
        );
        assert(nearest_integer(scaled_usd(*value)) == (2 * rounded + w) / (2 * w as int));
        assert((2 * (rounded * p) >= p * w) == (2 * rounded >= w)) by (nonlinear_arith)
            requires
                p > 0,
        ;
    }
    if below > 100 {
        proof {
            lemma_pow2_strictly_increases(100, below as nat);
            lemma_pow2_100();
            assert((2 * rounded + w) / (2 * w as int) == 0) by (nonlinear_arith)
                requires
                    2 * rounded + w < 2 * w,
                    w > 0,
            ;
        }
        return (Some(0), false);
    }
    proof {
        lemma_pow2_100();
        if below < 100 {
            lemma_pow2_strictly_increases(below as nat, 100);
        }
    }
    let unit: u128 = power_of_two(below as u32);
    let units: u128 = (2 * rounded + unit) / (2 * unit);
    let enough: bool = 2 * rounded >= unit;
    if units <= 0x7fff_ffff_ffff_ffff {
        (Some(units as u64), enough)
    } else {
        (None, enough)
    }
}

proof fn lemma_pow2_100()
    ensures
        pow2(100) == 0x10_0000_0000_0000_0000_0000_0000,
{
    lemma2_to64();
    lemma2_to64_rest();
    lemma_pow2_adds(64, 36);
}

/// An amount of 2^52 dollars or more has more units than can be stored.
proof fn lemma_large_units(m: nat, product: nat, rounded: nat, s: nat)
    requires
        s >= 1074,
        m >= FRACTION_LIMIT,
        product == m * 100_000_000,
        rounded == nearest_double(product),
    ensures
        nearest_integer(rounded * pow2(s)) > MAX_COST_UNITS,
        2 * (rounded * pow2(s)) >= one(),
{
    lemma_nearest_double_above(product);
    lemma_pow2_pos(1074);
    lemma_pow2_pos((s - 1074) as nat);
    lemma_pow2_adds(1074, (s - 1074) as nat);
    let extra = pow2((s - 1074) as nat);
    let u = one();
    let n = rounded * pow2(s);
    assert(n >= 0x8000_0000_0000_0000 * u) by (nonlinear_arith)
        requires
            n == rounded * (u * extra),
            rounded >= 0x8000_0000_0000_0000,
            extra >= 1,
            u > 0,
    ;
    assert(2 * n + u >= 0x8000_0000_0000_0000 * (2 * u));
    lemma_div_is_ordered(0x8000_0000_0000_0000 * (2 * u) as int, 2 * n as int + u as int, 2 * u as int);
    lemma_div_by_multiple(0x8000_0000_0000_0000, 2 * u as int);
}

proof fn lemma_nearest_double_above(n: nat)
    ensures
        2 * nearest_double(n) >= n,
{
    lemma_spacing_positive(n);
    let q = spacing(n);
    lemma_fundamental_div_mod(n as int, q as int);
    lemma_spacing_below(n);
    let below = n / q;
    let rest = n % q;
    assert(2 * (below * q) >= n && (below + 1) * q >= n) by (nonlinear_arith)
        requires
            n == q * below + rest,
            0 <= rest < q,
            n == 0 || q <= n,
    ;
}

/// An amount in dollars as cost units; the amount is positive and rounds to a storable number.
pub fn usd_to_usage_policy_cost_units(value: Binary64) -> (r: Option<u64>)
    ensures
        r == cost_units(value),
{
    if !value.is_positive() {
        return None;
    }
    let (units, enough) = scaled_units(&value);
    if enough {
        units
    } else {
        None
    }
}

/// An amount in dollars as cost units; the amount may be zero.
pub fn nonnegative_usd_to_usage_policy_cost_units(value: Binary64) -> (r: Option<u64>)
    ensures
        r == nonnegative_cost_units(value),
{
    if !value.is_nonnegative() {
        return None;
    }
    let (units, enough) = scaled_units(&value);
    units
}

/// An integer that is read from a positive number is at least one, and no more than was asked for.
pub proof fn a_positive_integer_is_at_least_one(value: Binary64, max: u64)
    ensures
        value.positive_integer(max) matches Some(n) ==> 1 <= n <= max,
{
    lemma_pow2_pos(1074);
    if value.positive_integer(max) is Some {
        lemma_fundamental_div_mod(value.magnitude() as int, one() as int);
        let q = value.magnitude() / one();
        assert(q >= 1) by (nonlinear_arith)
            requires
                value.magnitude() == one() * q,
                value.magnitude() > 0,
        ;
    }
}

/// A positive amount that has cost units has at least one, and no more than can be stored.
pub proof fn a_positive_amount_is_at_least_a_unit(value: Binary64)
    ensures
        cost_units(value) matches Some(n) ==> 1 <= n <= MAX_COST_UNITS,
{
    lemma_pow2_pos(1074);
    if cost_units(value) is Some {
        let n = scaled_usd(value);
        lemma_div_is_ordered(2 * one() as int, 2 * n as int + one() as int, 2 * one() as int);
        lemma_div_by_multiple(1, 2 * one() as int);
    }
}

/// An amount that has cost units as a limit has the same as a cost.
pub proof fn a_limit_and_a_cost_are_counted_alike(value: Binary64)
    ensures
        cost_units(value) is Some ==> nonnegative_cost_units(value) == cost_units(value),
        value.nonnegative() && value.magnitude() == 0 ==> nonnegative_cost_units(value) == Some(
            0u64,
        ),
{
    if value.nonnegative() && value.magnitude() == 0 {
        lemma_nearest_double_small(0);
        lemma_pow2_pos(1074);
        assert(value.magnitude() * USAGE_POLICY_COST_UNITS_PER_USD as nat == 0);
        lemma_basic_div(one() as int, 2 * one() as int);
    }
}

} // verus!
