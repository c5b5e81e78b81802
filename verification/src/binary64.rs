//! Non-negative binary64 numbers, computed in integers.
//!
//! Usage fractions are binary64 numbers, rounded to nearest with ties to even
//! after every operation. A number is kept as its bit pattern, so that a host
//! can read it back as its native type.
//!
//! Every finite binary64 number is a whole multiple of two to the power of
//! -1074. The specifications measure magnitudes in that unit: they are natural
//! numbers, and one is `Binary64::one()` of them.
use vstd::arithmetic::power2::*;
use vstd::prelude::*;

verus! {

/// Two to the power of 52: the weight of the leading bit of a significand.
pub const LEADING: u64 = 0x0010_0000_0000_0000;

/// Two to the power of 53: the first integer with no room in a significand.
pub const LIMIT: u64 = 0x0020_0000_0000_0000;

/// The bit pattern of positive infinity. Above it lie the patterns of what is
/// not a number, and those with the sign bit set.
pub const INFINITY: u64 = 0x7FF0_0000_0000_0000;

/// The first integer that is too large for a count: two to the power of 80.
pub const COUNTS: u128 = 0x1_0000_0000_0000_0000_0000;

/// The bit patterns of the powers of two that bound every fraction of one count
/// over another: -80 and 80, and of one that bounds 100 times such a fraction:
/// 88.
pub const POWER_MINUS_80: u64 = 0x3AF0_0000_0000_0000;

pub const POWER_80: u64 = 0x44F0_0000_0000_0000;

pub const POWER_88: u64 = 0x4570_0000_0000_0000;

/// The bit pattern of 1.
pub const ONE: u64 = 0x3FF0_0000_0000_0000;

/// The bit pattern of a binary64 number.
#[derive(Debug, Clone, Copy, PartialEq, Eq, Structural)]
pub struct Binary64 {
    pub bits: u64,
}

impl Binary64 {
    /// The number 1, in units.
    pub open spec fn one() -> nat {
        pow2(1074)
    }

    /// The quotient of `n` by `d`, rounded to the nearest integer, ties to the
    /// even one.
    pub open spec fn nearest_integer(n: nat, d: nat) -> nat {
        let q = n / d;
        let r = n % d;
        if 2 * r > d || (2 * r == d && q % 2 == 1) {
            q + 1
        } else {
            q
        }
    }

    /// The magnitude, in units, of the binary64 number nearest to `n / d`
    /// units, ties to even. Below `LIMIT` units the representable numbers lie
    /// one unit apart; from there on their distance doubles with every doubling
    /// of the magnitude.
    pub open spec fn nearest(n: nat, d: nat) -> nat
        decreases n - d,
    {
        if d == 0 {
            0
        } else if n < LIMIT * d {
            Self::nearest_integer(n, d)
        } else {
            2 * Self::nearest(n, 2 * d)
        }
    }

    /// Whether this is a finite number that is not negative.
    pub open spec fn is_magnitude(self) -> bool {
        self.bits < INFINITY
    }

    /// The biased exponent.
    pub open spec fn exponent(self) -> nat {
        (self.bits / LEADING) as nat
    }

    /// The bits of the significand below the leading one.
    pub open spec fn fraction(self) -> nat {
        (self.bits % LEADING) as nat
    }

    /// The magnitude in units, of a finite number that is not negative.
    pub open spec fn units(self) -> nat {
        if self.exponent() == 0 {
            self.fraction()
        } else {
            (LEADING + self.fraction()) as nat * pow2((self.exponent() - 1) as nat)
        }
    }
}

impl Binary64 {
    /// The number nearest to `num / den` times two to the power of `exp`.
    fn rounded(num: u128, den: u64, exp: i32) -> (result: Binary64)
        requires
            0 < num < COUNTS,
            den > 0,
            -200 <= exp <= 200,
        ensures
            result.is_magnitude(),
            result.exponent() > 0,
            result.units() == Self::nearest(num as nat * pow2((exp + 1074) as nat), den as nat),
    {
        let mut n: u128 = num;
        let mut d: u128 = den as u128;
        let mut e: i32 = exp;
        let ghost goal = Self::nearest(num as nat * pow2((exp + 1074) as nat), den as nat);
        proof {
            lemma2_to64();
            lemma2_to64_rest();
        }
        while n >= d * 0x0020_0000_0000_0000
            invariant
                n == num,
                n < 0x1_0000_0000_0000_0000_0000,
                den <= d,
                0 < d < 0x1_0000_0000_0000_0000,
                -200 <= exp <= e <= 1000,
                exp <= 200,
                pow2((e - exp) as nat) <= d,
                goal == Self::nearest(n as nat * pow2((e + 1074) as nat), d as nat),
            decreases n - d,
        {
            proof {
                let w = pow2((e + 1074) as nat);
                lemma_pow2_unfold((e + 1 + 1074) as nat);
                lemma_pow2_unfold((e + 1 - exp) as nat);
                Self::lemma_nearest_scales(n as nat * w, d as nat, 2);
                assert((n as nat * w) * 2 == n as nat * (2 * w)) by (nonlinear_arith);
                lemma2_to64();
                if e - exp > 28 {
                    lemma_pow2_strictly_increases(28, (e - exp) as nat);
                }
            }
            d = d * 2;
            e = e + 1;
        }
        assert(e - exp <= 64) by {
            lemma2_to64_rest();
            if e - exp > 64 {
                lemma_pow2_strictly_increases(64, (e - exp) as nat);
            }
        }
        let ghost raised = e;
        proof {
            lemma2_to64();
        }
        while n < d * 0x0010_0000_0000_0000
            invariant
                0 < n < d * 0x0020_0000_0000_0000,
                0 < d < 0x1_0000_0000_0000_0000,
                -200 <= exp <= raised <= exp + 64,
                exp <= 200,
                raised - 200 <= e <= raised,
                pow2((raised - e) as nat) <= n,
                goal == Self::nearest(n as nat * pow2((e + 1074) as nat), d as nat),
            decreases d * 0x0020_0000_0000_0000 - n,
        {
            proof {
                let w = pow2((e - 1 + 1074) as nat);
                lemma_pow2_unfold((e + 1074) as nat);
                lemma_pow2_unfold((raised - e + 1) as nat);
                assert(n as nat * (2 * w) == (2 * n as nat) * w) by (nonlinear_arith);
                lemma_pow2_adds(64, 53);
                lemma2_to64();
                lemma2_to64_rest();
                if raised - e > 117 {
                    lemma_pow2_strictly_increases(117, (raised - e) as nat);
                }
            }
            n = n * 2;
            e = e - 1;
        }
        let q: u128 = n / d;
        let r: u128 = n % d;
        assert(LEADING * d <= n < LIMIT * d);
        proof {
            Self::lemma_nearest_of_normalized(n as nat, d as nat, (e + 1074) as nat);
            Self::lemma_nearest_integer_monotonic(LEADING as nat, 1, n as nat, d as nat);
            Self::lemma_nearest_integer_monotonic(n as nat, d as nat, LIMIT as nat, 1);
            Self::lemma_nearest_integer_exact(LEADING as nat, 1);
            Self::lemma_nearest_integer_exact(LIMIT as nat, 1);
            vstd::arithmetic::div_mod::lemma_mod_bound(n as int, d as int);
        }
        let m: u128 = if 2 * r > d || (2 * r == d && q % 2 == 1) {
            q + 1
        } else {
            q
        };
        assert(m == Self::nearest_integer(n as nat, d as nat));
        let result = Binary64 { bits: (e + 1074) as u64 * LEADING + m as u64 };
        proof {
            let w = pow2((e + 1074) as nat);
            lemma_pow2_unfold((e + 1075) as nat);
            if m < LIMIT {
                assert(result.exponent() == e + 1075);
                assert(result.fraction() == m - LEADING);
            } else {
                assert(result.exponent() == e + 1076);
                assert(result.fraction() == 0);
                assert(LEADING as nat * (2 * w) == LIMIT as nat * w) by (nonlinear_arith)
                    requires
                        LIMIT == 2 * LEADING,
                ;
            }
        }
        result
    }
}

impl Binary64 {
    /// A count as a binary64 number, in units.
    pub open spec fn count_units(n: nat) -> nat {
        Self::nearest(n * Self::one(), 1)
    }

    /// The fraction `used / budget`, in units: both counts are rounded, then
    /// their quotient is. Nothing is a fraction of an empty budget.
    pub open spec fn ratio_units(used: nat, budget: nat) -> nat {
        if budget == 0 {
            0
        } else {
            Self::nearest(Self::count_units(used) * Self::one(), Self::count_units(budget))
        }
    }

    /// 100 times a number, in units.
    pub open spec fn percent_units(units: nat) -> nat {
        Self::nearest(100 * units, 1)
    }

    /// A number in tenths: the digits that are printed of it with one digit
    /// after the point.
    pub open spec fn tenths_of(units: nat) -> nat {
        Self::nearest_integer(10 * units, Self::one())
    }

    /// Whether this is a number, and not below the positive `threshold`.
    pub open spec fn reaches(self, threshold: Binary64) -> bool {
        self.bits == INFINITY || (self.is_magnitude() && self.units() >= threshold.units())
    }

    /// Whether this is zero, or between two to the power of -80 and 80.
    pub open spec fn is_ratio(self) -> bool {
        self.bits == 0 || POWER_MINUS_80 <= self.bits <= POWER_80
    }

    /// The magnitude of a power of two, from its bit pattern.
    pub proof fn lemma_power_units(e: nat)
        requires
            0 < e < 2047,
        ensures
            (Binary64 { bits: (e * LEADING) as u64 }).units() == pow2((e + 51) as nat),
    {
        let x = Binary64 { bits: (e * LEADING) as u64 };
        assert(x.bits == e * 0x0010_0000_0000_0000);
        assert(x.exponent() == e);
        assert(x.fraction() == 0);
        lemma2_to64_rest();
        lemma_pow2_adds(52, (e - 1) as nat);
    }

    /// The significand, with its leading bit.
    fn significand(self) -> (m: u64)
        requires
            self.is_magnitude(),
            self.exponent() > 0,
        ensures
            m == LEADING + self.fraction(),
            LEADING <= m < LIMIT,
            self.units() == m as nat * pow2((self.exponent() - 1) as nat),
    {
        LEADING + self.bits % LEADING
    }

    /// A count as a binary64 number.
    pub fn from_count(n: u128) -> (result: Binary64)
        requires
            n < COUNTS,
        ensures
            result.is_magnitude(),
            result.units() == Self::count_units(n as nat),
            n == 0 ==> result.bits == 0,
            n > 0 ==> ONE <= result.bits <= POWER_80,
    {
        if n == 0 {
            proof {
                Self::lemma_nearest_integer_exact(0, 1);
            }
            return Binary64 { bits: 0 };
        }
        let result = Self::rounded(n, 1, 0);
        proof {
            let low = Binary64 { bits: ONE };
            let high = Binary64 { bits: POWER_80 };
            Self::lemma_power_units(1023);
            Self::lemma_power_units(1103);
            lemma_pow2_adds(64, 16);
            lemma_pow2_adds(80, 1074);
            lemma2_to64();
            lemma2_to64_rest();
            assert(low.units() <= n as nat * Self::one() <= high.units()) by (nonlinear_arith)
                requires
                    low.units() == Self::one(),
                    high.units() == 0x1_0000_0000_0000_0000_0000 * Self::one(),
                    1 <= n < 0x1_0000_0000_0000_0000_0000,
            ;
            Self::lemma_nearest_between(low, n as nat * Self::one(), 1, high);
            low.lemma_order(result);
            high.lemma_order(result);
        }
        result
    }
}

impl Binary64 {
    /// The fraction `used / budget`; zero where there is no budget.
    pub fn ratio(used: u64, budget: u64) -> (result: Binary64)
        ensures
            result.is_ratio(),
            result.units() == Self::ratio_units(used as nat, budget as nat),
    {
        Self::ratio_of_counts(used as u128, budget as u128)
    }

    /// The fraction `used / budget` of two counts; zero where there is no budget.
    pub fn ratio_of_counts(used: u128, budget: u128) -> (result: Binary64)
        requires
            used < COUNTS,
            budget < COUNTS,
        ensures
            result.is_ratio(),
            result.units() == Self::ratio_units(used as nat, budget as nat),
    {
        if budget == 0 {
            return Binary64 { bits: 0 };
        }
        let x = Self::from_count(used);
        let y = Self::from_count(budget);
        if used == 0 {
            proof {
                Binary64 { bits: 0 }.lemma_order(y);
                Self::lemma_nearest_of_zero(y.units());
                assert(x.units() * Self::one() == 0) by (nonlinear_arith)
                    requires
                        x.units() == 0,
                ;
            }
            return Binary64 { bits: 0 };
        }
        let ghost ex = x.exponent();
        let ghost ey = y.exponent();
        let mx = x.significand();
        let my = y.significand();
        let exp: i32 = (x.bits / LEADING) as i32 - (y.bits / LEADING) as i32;
        let result = Self::rounded(mx as u128, my, exp);
        proof {
            let scale = pow2((ey - 1) as nat);
            lemma_pow2_pos((ey - 1) as nat);
            lemma_pow2_adds((exp + 1074) as nat, (ey - 1) as nat);
            lemma_pow2_adds((ex - 1) as nat, 1074);
            Self::lemma_nearest_scales(
                mx as nat * pow2((exp + 1074) as nat),
                my as nat,
                scale,
            );
            assert(mx as nat * pow2((exp + 1074) as nat) * scale == x.units() * Self::one())
                by (nonlinear_arith)
                requires
                    x.units() == mx as nat * pow2((ex - 1) as nat),
                    pow2((exp + 1074) as nat) * scale == pow2((ex - 1) as nat) * Self::one(),
            ;
            Self::lemma_ratio_bounds(x, y);
            let low = Binary64 { bits: POWER_MINUS_80 };
            let high = Binary64 { bits: POWER_80 };
            low.lemma_order(result);
            high.lemma_order(result);
        }
        result
    }

    /// Zero is its own rounding.
    proof fn lemma_nearest_of_zero(d: nat)
        requires
            d > 0,
        ensures
            Self::nearest(0, d) == 0,
    {
        Self::lemma_nearest_integer_exact(0, d);
    }

    /// The quotient of two counts that are not zero is neither tiny nor huge.
    proof fn lemma_ratio_bounds(x: Binary64, y: Binary64)
        requires
            ONE <= x.bits <= POWER_80,
            ONE <= y.bits <= POWER_80,
        ensures
            (Binary64 { bits: POWER_MINUS_80 }).units() <= Self::nearest(
                x.units() * Self::one(),
                y.units(),
            ),
            Self::nearest(x.units() * Self::one(), y.units()) <= (Binary64 {
                bits: POWER_80,
            }).units(),
    {
        let one = Self::one();
        let low = Binary64 { bits: POWER_MINUS_80 };
        let high = Binary64 { bits: POWER_80 };
        let unit = Binary64 { bits: ONE };
        Self::lemma_power_units(943);
        Self::lemma_power_units(1023);
        Self::lemma_power_units(1103);
        lemma_pow2_adds(64, 16);
        lemma_pow2_adds(80, 994);
        lemma_pow2_adds(80, 1074);
        lemma2_to64();
        lemma2_to64_rest();
        lemma_pow2_pos(1074);
        unit.lemma_order(x);
        unit.lemma_order(y);
        x.lemma_order(high);
        y.lemma_order(high);
        let (a, b) = (x.units(), y.units());
        assert(low.units() * b <= a * one) by (nonlinear_arith)
            requires
                0x1_0000_0000_0000_0000_0000 * low.units() == one,
                b <= 0x1_0000_0000_0000_0000_0000 * one,
                one <= a,
        ;
        assert(a * one <= high.units() * b) by (nonlinear_arith)
            requires
                a <= high.units(),
                one <= b,
        ;
        Self::lemma_nearest_between(low, a * one, b, high);
    }

    /// 100 times this fraction.
    pub fn percent(self) -> (result: Binary64)
        requires
            self.is_ratio(),
        ensures
            result.bits <= POWER_88,
            result.units() == Self::percent_units(self.units()),
    {
        if self.bits == 0 {
            proof {
                Self::lemma_nearest_of_zero(1);
            }
            return self;
        }
        let m = self.significand();
        let exp: i32 = (self.bits / LEADING) as i32 - 1075;
        let result = Self::rounded(m as u128 * 100, 1, exp);
        proof {
            let w = pow2((self.exponent() - 1) as nat);
            assert((m * 100) as nat * w == 100 * (m as nat * w)) by (nonlinear_arith);
            let high = Binary64 { bits: POWER_88 };
            let top = Binary64 { bits: POWER_80 };
            Self::lemma_power_units(1103);
            Self::lemma_power_units(1111);
            lemma_pow2_adds(8, 1154);
            lemma2_to64();
            self.lemma_order(top);
            Self::lemma_nearest_between(
                Binary64 { bits: 0 },
                100 * self.units(),
                1,
                high,
            );
            high.lemma_order(result);
        }
        result
    }

    /// Two to the power of `k`.
    fn power_of_two(k: u64) -> (p: u128)
        requires
            k < 64,
        ensures
            p == pow2(k as nat),
            0 < p < 0x1_0000_0000_0000_0000,
    {
        let mut p: u128 = 1;
        let mut i: u64 = 0;
        proof {
            lemma2_to64();
        }
        while i < k
            invariant
                i <= k < 64,
                p == pow2(i as nat),
                0 < p < 0x1_0000_0000_0000_0000,
            decreases k - i,
        {
            proof {
                lemma_pow2_unfold((i + 1) as nat);
                lemma2_to64_rest();
                if i + 1 < 63 {
                    lemma_pow2_strictly_increases((i + 1) as nat, 63);
                }
            }
            p = p * 2;
            i = i + 1;
        }
        p
    }

    /// This number in tenths, rounded to nearest, ties to even.
    pub fn tenths(self) -> (t: u128)
        requires
            self.bits <= POWER_88,
        ensures
            t == Self::tenths_of(self.units()),
    {
        let exponent: u64 = self.bits / LEADING;
        if exponent <= 1011 {
            proof {
                self.lemma_tiny();
            }
            return 0;
        }
        let m: u128 = self.significand() as u128;
        let ghost w = pow2((exponent - 1) as nat);
        if exponent >= 1075 {
            let p = Self::power_of_two(exponent - 1075);
            proof {
                lemma_pow2_adds((exponent - 1075) as nat, 1074);
                lemma_pow2_pos(1074);
                lemma2_to64();
                lemma2_to64_rest();
                if exponent < 1111 {
                    lemma_pow2_strictly_increases((exponent - 1075) as nat, 36);
                }
                assert(10 * m * p <= 10 * 0x0020_0000_0000_0000 * 0x10_0000_0000)
                    by (nonlinear_arith)
                    requires
                        m < 0x0020_0000_0000_0000,
                        p <= 0x10_0000_0000,
                ;
                let t = (10 * m * p) as nat;
                assert(t * Self::one() == 10 * self.units()) by (nonlinear_arith)
                    requires
                        t == 10 * m * p,
                        self.units() == m as nat * w,
                        w == p as nat * Self::one(),
                ;
                Self::lemma_nearest_integer_exact(t, Self::one());
            }
            10 * m * p
        } else {
            let p = Self::power_of_two(1075 - exponent);
            let n: u128 = 10 * m;
            let q: u128 = n / p;
            let r: u128 = n % p;
            proof {
                lemma_pow2_adds((1075 - exponent) as nat, (exponent - 1) as nat);
                lemma_pow2_pos((exponent - 1) as nat);
                Self::lemma_nearest_integer_scales(n as nat, p as nat, w);
                assert(n as nat * w == 10 * self.units()) by (nonlinear_arith)
                    requires
                        n == 10 * m,
                        self.units() == m as nat * w,
                ;
            }
            if 2 * r > p || (2 * r == p && q % 2 == 1) {
                q + 1
            } else {
                q
            }
        }
    }

    /// A number below two to the power of -11 has no tenths.
    proof fn lemma_tiny(self)
        requires
            self.exponent() <= 1011,
        ensures
            Self::tenths_of(self.units()) == 0,
    {
        let bound = Binary64 { bits: 0x3F40_0000_0000_0000 };
        Self::lemma_power_units(1012);
        lemma_pow2_adds(11, 1063);
        lemma2_to64();
        self.lemma_order(bound);
        let n = 10 * self.units();
        let one = Self::one();
        vstd::arithmetic::div_mod::lemma_fundamental_div_mod_converse(
            n as int,
            one as int,
            0,
            n as int,
        );
    }

    /// Whether this is a number, and not below the positive `threshold`.
    pub fn at_least(self, threshold: Binary64) -> (result: bool)
        requires
            0 < threshold.bits < INFINITY,
        ensures
            result == self.reaches(threshold),
    {
        proof {
            self.lemma_order(threshold);
        }
        self.bits <= INFINITY && threshold.bits <= self.bits
    }

    /// The greater of two finite numbers that are not negative.
    pub fn max(self, other: Binary64) -> (result: Binary64)
        requires
            self.is_magnitude(),
            other.is_magnitude(),
        ensures
            result == self || result == other,
            result.units() >= self.units(),
            result.units() >= other.units(),
    {
        proof {
            self.lemma_order(other);
        }
        if self.bits < other.bits {
            other
        } else {
            self
        }
    }
}

} // verus!
