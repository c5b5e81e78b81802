//! Facts about rounding: it is scale free, monotonic and exact on what is
//! representable, and bit patterns are ordered as the numbers they stand for.
use crate::binary64::{Binary64, LEADING, LIMIT};
use vstd::arithmetic::div_mod::*;
use vstd::arithmetic::power2::*;
use vstd::prelude::*;

verus! {

impl Binary64 {
    /// Scaling both terms of a quotient leaves its rounding to an integer.
    pub proof fn lemma_nearest_integer_scales(n: nat, d: nat, c: nat)
        requires
            d > 0,
            c > 0,
        ensures
            Self::nearest_integer(n * c, d * c) == Self::nearest_integer(n, d),
    {
        let q = (n / d) as int;
        let r = (n % d) as int;
        lemma_fundamental_div_mod(n as int, d as int);
        lemma_mod_bound(n as int, d as int);
        assert(n * c == q * (d * c) + r * c) by (nonlinear_arith)
            requires
                n == d * q + r,
        ;
        assert(0 <= r * c < d * c) by (nonlinear_arith)
            requires
                0 <= r < d,
                c > 0,
        ;
        lemma_fundamental_div_mod_converse((n * c) as int, (d * c) as int, q, r * c);
        assert(2 * (r * c) > d * c <==> 2 * r > d) by (nonlinear_arith)
            requires
                c > 0,
        ;
        assert(2 * (r * c) == d * c <==> 2 * r == d) by (nonlinear_arith)
            requires
                c > 0,
        ;
    }

    /// Scaling both terms of a quotient leaves its rounding.
    pub proof fn lemma_nearest_scales(n: nat, d: nat, c: nat)
        requires
            d > 0,
            c > 0,
        ensures
            Self::nearest(n * c, d * c) == Self::nearest(n, d),
        decreases n - d,
    {
        assert(d * c > 0) by (nonlinear_arith)
            requires
                d > 0,
                c > 0,
        ;
        assert(n * c < LIMIT * (d * c) <==> n < LIMIT * d) by (nonlinear_arith)
            requires
                c > 0,
        ;
        if n < LIMIT * d {
            Self::lemma_nearest_integer_scales(n, d, c);
        } else {
            Self::lemma_nearest_scales(n, 2 * d, c);
            assert((2 * d) * c == 2 * (d * c)) by (nonlinear_arith);
        }
    }

    /// A quotient whose integer part fills a significand is rounded to an
    /// integer, whatever power of two stands before it.
    pub proof fn lemma_nearest_of_normalized(n: nat, d: nat, k: nat)
        requires
            LEADING * d <= n < LIMIT * d,
        ensures
            Self::nearest(n * pow2(k), d) == Self::nearest_integer(n, d) * pow2(k),
        decreases k,
    {
        if k == 0 {
            lemma_pow2(0);
            lemma2_to64();
        } else {
            let p = pow2((k - 1) as nat);
            lemma_pow2_unfold(k);
            lemma_pow2_pos((k - 1) as nat);
            assert(n * pow2(k) == (n * p) * 2) by (nonlinear_arith)
                requires
                    pow2(k) == 2 * p,
            ;
            assert((n * p) * 2 >= LIMIT * d) by (nonlinear_arith)
                requires
                    n >= LEADING * d,
                    p >= 1,
                    LIMIT == 2 * LEADING,
            ;
            Self::lemma_nearest_scales(n * p, d, 2);
            Self::lemma_nearest_of_normalized(n, d, (k - 1) as nat);
            let m = Self::nearest_integer(n, d);
            assert(2 * (m * p) == m * pow2(k)) by (nonlinear_arith)
                requires
                    pow2(k) == 2 * p,
            ;
        }
    }

    /// Rounding to an integer keeps the order of quotients.
    pub proof fn lemma_nearest_integer_monotonic(a: nat, b: nat, c: nat, d: nat)
        requires
            b > 0,
            d > 0,
            a * d <= c * b,
        ensures
            Self::nearest_integer(a, b) <= Self::nearest_integer(c, d),
    {
        let (p, r) = ((a / b) as int, (a % b) as int);
        let (q, s) = ((c / d) as int, (c % d) as int);
        lemma_fundamental_div_mod(a as int, b as int);
        lemma_fundamental_div_mod(c as int, d as int);
        lemma_mod_bound(a as int, b as int);
        lemma_mod_bound(c as int, d as int);
        assert(p <= q) by (nonlinear_arith)
            requires
                a == b * p + r,
                c == d * q + s,
                0 <= r,
                s < d,
                b > 0,
                d > 0,
                a * d <= c * b,
        ;
        if p == q {
            assert(r * d <= s * b) by (nonlinear_arith)
                requires
                    a == b * p + r,
                    c == d * p + s,
                    a * d <= c * b,
            ;
            assert(2 * r > b ==> 2 * s > d) by (nonlinear_arith)
                requires
                    r * d <= s * b,
                    b > 0,
                    d > 0,
            ;
            assert(2 * r == b ==> 2 * s >= d) by (nonlinear_arith)
                requires
                    r * d <= s * b,
                    b > 0,
                    d > 0,
            ;
        }
    }

    /// An integer is its own rounding to an integer.
    pub proof fn lemma_nearest_integer_exact(n: nat, d: nat)
        requires
            d > 0,
        ensures
            Self::nearest_integer(n * d, d) == n,
    {
        lemma_fundamental_div_mod_converse((n * d) as int, d as int, n as int, 0);
    }

    /// Rounding keeps the order of quotients.
    pub proof fn lemma_nearest_monotonic(a: nat, b: nat, c: nat, d: nat)
        requires
            b > 0,
            d > 0,
            a * d <= c * b,
        ensures
            Self::nearest(a, b) <= Self::nearest(c, d),
        decreases c - d,
    {
        if a < LIMIT * b {
            if c < LIMIT * d {
                Self::lemma_nearest_integer_monotonic(a, b, c, d);
            } else {
                let limit = LIMIT as nat;
                assert(a * 1 <= limit * b);
                Self::lemma_nearest_integer_monotonic(a, b, limit, 1);
                Self::lemma_nearest_integer_exact(limit, 1);
                Self::lemma_nearest_at_least_limit(c, d);
            }
        } else {
            assert(c >= LIMIT * d) by (nonlinear_arith)
                requires
                    a >= LIMIT * b,
                    a * d <= c * b,
                    b > 0,
            ;
            assert(a * (2 * d) <= c * (2 * b)) by (nonlinear_arith)
                requires
                    a * d <= c * b,
            ;
            Self::lemma_nearest_monotonic(a, 2 * b, c, 2 * d);
        }
    }

    /// What is at least `LIMIT` units stays so when rounded.
    proof fn lemma_nearest_at_least_limit(n: nat, d: nat)
        requires
            d > 0,
            n >= LIMIT * d,
        ensures
            Self::nearest(n, d) >= LIMIT,
        decreases n - d,
    {
        if n < LIMIT * (2 * d) {
            let half = LEADING as nat;
            assert(half * (2 * d) <= n * 1);
            Self::lemma_nearest_integer_monotonic(half, 1, n, 2 * d);
            Self::lemma_nearest_integer_exact(half, 1);
            assert(Self::nearest(n, 2 * d) >= half);
        } else {
            Self::lemma_nearest_at_least_limit(n, 2 * d);
        }
    }
}

impl Binary64 {
    /// A number is its own rounding.
    pub proof fn lemma_nearest_exact(self)
        ensures
            Self::nearest(self.units(), 1) == self.units(),
    {
        if self.exponent() == 0 {
            Self::lemma_nearest_integer_exact(self.fraction(), 1);
        } else {
            let m = (LEADING + self.fraction()) as nat;
            Self::lemma_nearest_of_normalized(m, 1, (self.exponent() - 1) as nat);
            Self::lemma_nearest_integer_exact(m, 1);
        }
    }

    /// Rounding a quotient that fills a significand moves it by one part in two
    /// to the power of 53 at most.
    pub proof fn lemma_nearest_error(n: nat, d: nat)
        requires
            d > 0,
            LEADING * d <= n,
        ensures
            LIMIT * (Self::nearest(n, d) * d) <= n * LIMIT + n,
            LIMIT * (Self::nearest(n, d) * d) >= n * LIMIT - n,
        decreases n - d,
    {
        if n < LIMIT * d {
            let q = (n / d) as int;
            let r = (n % d) as int;
            let m = Self::nearest_integer(n, d) as int;
            lemma_fundamental_div_mod(n as int, d as int);
            lemma_mod_bound(n as int, d as int);
            assert(-(d as int) <= 2 * (m * d - n) <= d) by (nonlinear_arith)
                requires
                    n == d * q + r,
                    0 <= r < d,
                    m == q && 2 * r <= d || m == q + 1 && 2 * r >= d,
            ;
            let e = m * d - n;
            assert(-(n as int) <= 0x0020_0000_0000_0000 * e <= n);
            assert(0x0020_0000_0000_0000 * (m * d) == n * 0x0020_0000_0000_0000
                + 0x0020_0000_0000_0000 * e);
        } else {
            Self::lemma_nearest_error(n, 2 * d);
            let m = Self::nearest(n, 2 * d);
            assert((2 * m) * d == m * (2 * d)) by (nonlinear_arith);
        }
    }

    /// Bit patterns are ordered as the numbers they stand for.
    pub proof fn lemma_order(self, other: Binary64)
        ensures
            self.bits < other.bits <==> self.units() < other.units(),
            self.bits == other.bits <==> self.units() == other.units(),
    {
        if self.bits < other.bits {
            Self::lemma_strict_order(self, other);
        } else if other.bits < self.bits {
            Self::lemma_strict_order(other, self);
        }
    }

    proof fn lemma_strict_order(x: Binary64, y: Binary64)
        requires
            x.bits < y.bits,
        ensures
            x.units() < y.units(),
    {
        let (f, g) = (x.exponent(), y.exponent());
        let (m, n) = ((LEADING + x.fraction()) as nat, (LEADING + y.fraction()) as nat);
        if g > 0 {
            lemma_pow2_pos((g - 1) as nat);
            let w = pow2((g - 1) as nat);
            assert(n * w >= LEADING * w) by (nonlinear_arith)
                requires
                    n >= LEADING,
            ;
            assert(LEADING * w >= LEADING) by (nonlinear_arith)
                requires
                    w >= 1,
            ;
            if f == g {
                assert(m * w < n * w) by (nonlinear_arith)
                    requires
                        m < n,
                        w >= 1,
                ;
            } else if f > 0 {
                let v = pow2((f - 1) as nat);
                lemma_pow2_pos((f - 1) as nat);
                lemma_pow2_unfold(f);
                if f < g - 1 {
                    lemma_pow2_strictly_increases(f, (g - 1) as nat);
                }
                assert(m * v < LEADING * w) by (nonlinear_arith)
                    requires
                        m < 2 * LEADING,
                        2 * v <= w,
                        v >= 1,
                ;
            }
        }
    }

    /// The rounding of a quotient between two numbers lies between them.
    pub proof fn lemma_nearest_between(low: Binary64, n: nat, d: nat, high: Binary64)
        requires
            d > 0,
            low.units() * d <= n <= high.units() * d,
        ensures
            low.units() <= Self::nearest(n, d) <= high.units(),
    {
        Self::lemma_nearest_monotonic(low.units(), 1, n, d);
        Self::lemma_nearest_monotonic(n, d, high.units(), 1);
        low.lemma_nearest_exact();
        high.lemma_nearest_exact();
    }
}

} // verus!
