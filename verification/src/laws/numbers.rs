//! What fractions, their phases and their percentages are, in terms of the counts
//! they are made of.
use crate::binary64::{Binary64, COUNTS, LEADING, LIMIT};
use crate::phase::ResourcePhase;
use vstd::arithmetic::div_mod::*;
use vstd::arithmetic::power2::*;
use vstd::prelude::*;

verus! {

/// The number with the significand `m` and `k` doublings, in units.
pub open spec fn float(m: nat, k: nat) -> nat {
    m * pow2(k)
}

/// How far apart two numbers are.
pub open spec fn apart(a: int, b: int) -> nat {
    if a <= b {
        (b - a) as nat
    } else {
        (a - b) as nat
    }
}

/// Whether `x` units are a number with a significand of 53 bits.
pub open spec fn representable(x: nat) -> bool {
    exists|m: nat, k: nat| m < 0x0020_0000_0000_0000 && x == #[trigger] float(m, k)
}

/// Whether `y` is no closer to `n / d` than `x` is; and if it is as close, `x` is
/// the even one of the two.
pub open spec fn as_close(x: nat, y: nat, n: nat, d: nat) -> bool {
    &&& apart((x * d) as int, n as int) <= apart((y * d) as int, n as int)
    &&& x != y && apart((x * d) as int, n as int) == apart((y * d) as int, n as int) ==> x % (2
        * apart(x as int, y as int)) == 0
}

/// Whether `x` is the representable number nearest to `n / d`, ties to even.
pub open spec fn is_nearest(x: nat, n: nat, d: nat) -> bool {
    &&& representable(x)
    &&& forall|m: nat, k: nat|
        m < 0x0020_0000_0000_0000 ==> as_close(x, #[trigger] float(m, k), n, d)
}

proof fn lemma_integer_as_close(n: nat, d: nat, y: nat)
    requires
        d > 0,
    ensures
        as_close(Binary64::nearest_integer(n, d), y, n, d),
{
    let x = Binary64::nearest_integer(n, d);
    let (q, r) = ((n / d) as int, (n % d) as int);
    lemma_fundamental_div_mod(n as int, d as int);
    lemma_mod_bound(n as int, d as int);
    let g = apart(x as int, y as int);
    let (a, b) = ((x * d) as int, (y * d) as int);
    assert(a == q * d || a == q * d + d) by (nonlinear_arith)
        requires
            x == q || x == q + 1,
            a == x * d,
    ;
    assert(d * q == q * d) by (nonlinear_arith);
    assert(x == q ==> a == q * d);
    assert(x == q + 1 ==> a == q * d + d) by (nonlinear_arith)
        requires
            a == x * d,
    ;
    assert(2 * apart(a, n as int) <= d);
    if x != y {
        assert(apart(a, b) == g * d) by (nonlinear_arith)
            requires
                a == x * d,
                b == y * d,
                x <= y && g == y - x || x > y && g == x - y,
                apart(a, b) == (if a <= b {
                    b - a
                } else {
                    a - b
                }),
                d > 0,
        ;
        assert(g * d >= d) by (nonlinear_arith)
            requires
                g >= 1,
                d > 0,
        ;
        if apart(a, n as int) == apart(b, n as int) {
            assert(g * d <= d);
            assert(g == 1) by (nonlinear_arith)
                requires
                    g >= 1,
                    g * d <= d,
                    d > 0,
            ;
            assert(2 * r == d);
            assert(x % 2 == 0);
            assert(2 * g == 2);
        }
    }
}

proof fn lemma_as_close(n: nat, d: nat, m: nat, k: nat)
    requires
        d > 0,
        m < 0x0020_0000_0000_0000,
    ensures
        as_close(Binary64::nearest(n, d), float(m, k), n, d),
    decreases n - d,
{
    let y = float(m, k);
    if n < LIMIT * d {
        lemma_integer_as_close(n, d, y);
    } else {
        let half = Binary64::nearest(n, 2 * d);
        let x = Binary64::nearest(n, d);
        assert(x == 2 * half);
        assert(x * d == half * (2 * d)) by (nonlinear_arith)
            requires
                x == 2 * half,
        ;
        if k == 0 {
            lemma2_to64();
            assert(y == m);
            lemma_as_close(n, 2 * d, LEADING as nat, 0);
            assert(float(LEADING as nat, 0) == LEADING);
            assert(LEADING as nat * (2 * d) == 0x0020_0000_0000_0000 * d);
            assert(y * d <= 0x001F_FFFF_FFFF_FFFF * d) by (nonlinear_arith)
                requires
                    y <= 0x001F_FFFF_FFFF_FFFF,
            ;
        } else {
            let z = float(m, (k - 1) as nat);
            lemma_as_close(n, 2 * d, m, (k - 1) as nat);
            lemma_pow2_unfold(k);
            assert(y == 2 * z) by (nonlinear_arith)
                requires
                    y == m * pow2(k),
                    z == m * pow2((k - 1) as nat),
                    pow2(k) == 2 * pow2((k - 1) as nat),
            ;
            assert(y * d == z * (2 * d)) by (nonlinear_arith)
                requires
                    y == 2 * z,
            ;
            if x != y && apart((x * d) as int, n as int) == apart((y * d) as int, n as int) {
                let g = (2 * apart(half as int, z as int)) as int;
                lemma_fundamental_div_mod(half as int, g);
                let q = half as int / g;
                assert(x == q * (2 * g)) by (nonlinear_arith)
                    requires
                        half == g * q,
                        x == 2 * half,
                ;
                lemma_fundamental_div_mod_converse(x as int, 2 * g, q, 0);
            }
        }
    }
}

proof fn lemma_representable(n: nat, d: nat)
    requires
        d > 0,
    ensures
        representable(Binary64::nearest(n, d)),
    decreases n - d,
{
    let x = Binary64::nearest(n, d);
    lemma2_to64();
    if n < LIMIT * d {
        Binary64::lemma_nearest_integer_monotonic(n, d, LIMIT as nat, 1);
        Binary64::lemma_nearest_integer_exact(LIMIT as nat, 1);
        if x < LIMIT {
            assert(x == float(x, 0));
        } else {
            assert(x == float(LEADING as nat, 1));
        }
    } else {
        lemma_representable(n, 2 * d);
        let half = Binary64::nearest(n, 2 * d);
        let (m, k) = choose|m: nat, k: nat|
            m < 0x0020_0000_0000_0000 && half == #[trigger] float(m, k);
        lemma_pow2_unfold(k + 1);
        assert(x == float(m, k + 1)) by (nonlinear_arith)
            requires
                x == 2 * half,
                half == m * pow2(k),
                pow2(k + 1) == 2 * pow2(k),
                float(m, k + 1) == m * pow2(k + 1),
        ;
    }
}

/// Rounding gives the nearest number there is, and the even one of two that are as
/// near.
pub proof fn law_rounding_is_to_nearest(n: nat, d: nat)
    requires
        d > 0,
    ensures
        is_nearest(Binary64::nearest(n, d), n, d),
{
    let x = Binary64::nearest(n, d);
    lemma_representable(n, d);
    assert forall|m: nat, k: nat| m < 0x0020_0000_0000_0000 implies as_close(
        x,
        #[trigger] float(m, k),
        n,
        d,
    ) by {
        lemma_as_close(n, d, m, k);
    }
}

/// There is one nearest number only.
pub proof fn law_one_number_is_nearest(x: nat, y: nat, n: nat, d: nat)
    requires
        is_nearest(x, n, d),
        is_nearest(y, n, d),
    ensures
        x == y,
{
    let (m, k) = choose|m: nat, k: nat|
        m < 0x0020_0000_0000_0000 && x == #[trigger] float(m, k);
    let (l, j) = choose|l: nat, j: nat|
        l < 0x0020_0000_0000_0000 && y == #[trigger] float(l, j);
    assert(as_close(x, float(l, j), n, d));
    assert(as_close(y, float(m, k), n, d));
    if x != y {
        let g = apart(x as int, y as int) as int;
        let (p, q) = (x as int / (2 * g), y as int / (2 * g));
        lemma_fundamental_div_mod(x as int, 2 * g);
        lemma_fundamental_div_mod(y as int, 2 * g);
        assert(false) by (nonlinear_arith)
            requires
                x == (2 * g) * p,
                y == (2 * g) * q,
                g > 0,
                x - y == g || y - x == g,
        ;
    }
}

/// Whether `x` is what `used` over `budget` comes to: both counts are taken as
/// numbers, and so is their quotient. Nothing is a fraction of no budget.
pub open spec fn is_fraction(x: nat, used: nat, budget: nat) -> bool {
    if budget == 0 {
        x == 0
    } else {
        exists|u: nat, b: nat|
            #![trigger is_nearest(x, u * pow2(1074), b)]
            is_nearest(u, used * pow2(1074), 1) && is_nearest(b, budget * pow2(1074), 1)
                && is_nearest(x, u * pow2(1074), b)
    }
}

/// A fraction is the quotient of the two counts, each step to the nearest number.
pub proof fn law_ratio_is_the_quotient(used: nat, budget: nat)
    ensures
        is_fraction(Binary64::ratio_units(used, budget), used, budget),
        is_nearest(Binary64::count_units(used), used * pow2(1074), 1),
{
    let (u, b) = (Binary64::count_units(used), Binary64::count_units(budget));
    law_rounding_is_to_nearest(used * pow2(1074), 1);
    law_rounding_is_to_nearest(budget * pow2(1074), 1);
    if budget > 0 {
        crate::laws::lemma_count_positive(budget);
        lemma_pow2_pos(1074);
        law_rounding_is_to_nearest(u * pow2(1074), b);
        assert(is_nearest(Binary64::ratio_units(used, budget), u * pow2(1074), b));
    }
}

/// Counts have one fraction only.
pub proof fn law_fractions_are_determined(x: nat, y: nat, used: nat, budget: nat)
    requires
        is_fraction(x, used, budget),
        is_fraction(y, used, budget),
    ensures
        x == y,
{
    if budget > 0 {
        let one = pow2(1074);
        let (u, b) = choose|u: nat, b: nat|
            #![trigger is_nearest(x, u * pow2(1074), b)]
            is_nearest(u, used * pow2(1074), 1) && is_nearest(b, budget * pow2(1074), 1)
                && is_nearest(x, u * pow2(1074), b);
        let (v, c) = choose|v: nat, c: nat|
            #![trigger is_nearest(y, v * pow2(1074), c)]
            is_nearest(v, used * pow2(1074), 1) && is_nearest(c, budget * pow2(1074), 1)
                && is_nearest(y, v * pow2(1074), c);
        law_one_number_is_nearest(u, v, used * one, 1);
        law_one_number_is_nearest(b, c, budget * one, 1);
        law_one_number_is_nearest(x, y, u * one, b);
    }
}

/// A fraction is `used / budget`, to one part in two to the power of 50.
pub proof fn law_ratio_is_accurate(used: nat, budget: nat)
    requires
        0 < budget < COUNTS,
    ensures
        0x0004_0000_0000_0000 * apart(
            (Binary64::ratio_units(used, budget) * budget) as int,
            (used * pow2(1074)) as int,
        ) <= used * pow2(1074),
{
    let one = pow2(1074);
    let r = Binary64::ratio_units(used, budget);
    let (x, y) = (Binary64::count_units(used), Binary64::count_units(budget));
    let (a, b) = (used * one, budget * one);
    lemma_pow2_pos(1074);
    if used == 0 {
        crate::laws::lemma_nothing_used(budget);
        assert(r * budget == 0) by (nonlinear_arith)
            requires
                r == 0,
        ;
        assert(a == 0) by (nonlinear_arith)
            requires
                used == 0,
                a == used * one,
        ;
    } else {
        crate::laws::lemma_count_error(used);
        crate::laws::lemma_count_error(budget);
        crate::laws::lemma_count_positive(used);
        crate::laws::lemma_count_positive(budget);
        lemma_pow2_adds(64, 16);
        lemma_pow2_adds(80, 54);
        lemma_pow2_strictly_increases(134, 1074);
        lemma2_to64();
        lemma2_to64_rest();
        assert(b < 0x1_0000_0000_0000_0000_0000 * one) by (nonlinear_arith)
            requires
                budget < 0x1_0000_0000_0000_0000_0000,
                b == budget * one,
                one > 0,
        ;
        let bound = 0x1_0000_0000_0000_0000_0000 * one;
        assert(one == Binary64::one());
        assert(0x0020_0000_0000_0000 * y <= 0x0020_0000_0000_0001 * b);
        assert(y <= 2 * b);
        assert(y <= 2 * bound);
        assert(one * one >= 0x0040_0000_0000_0000 * bound) by (nonlinear_arith)
            requires
                one >= 0x0040_0000_0000_0000 * 0x1_0000_0000_0000_0000_0000,
                bound == 0x1_0000_0000_0000_0000_0000 * one,
        ;
        assert(x * one >= one * one) by (nonlinear_arith)
            requires
                x >= one,
        ;
        assert(LEADING * y <= x * one);
        Binary64::lemma_nearest_error(x * one, y);
        let (z, w, s, t) = (r * b, a * one, r * y, x * one);
        assert(0x0020_0000_0000_0000 * t <= 0x0020_0000_0000_0001 * w) by (nonlinear_arith)
            requires
                0x0020_0000_0000_0000 * x <= 0x0020_0000_0000_0001 * a,
                t == x * one,
                w == a * one,
        ;
        assert(0x0020_0000_0000_0000 * t >= 0x001F_FFFF_FFFF_FFFF * w) by (nonlinear_arith)
            requires
                0x0020_0000_0000_0000 * x >= 0x001F_FFFF_FFFF_FFFF * a,
                t == x * one,
                w == a * one,
        ;
        assert(0x0020_0000_0000_0000 * s <= 0x0020_0000_0000_0001 * z) by (nonlinear_arith)
            requires
                0x0020_0000_0000_0000 * y <= 0x0020_0000_0000_0001 * b,
                s == r * y,
                z == r * b,
        ;
        assert(0x0020_0000_0000_0000 * s >= 0x001F_FFFF_FFFF_FFFF * z) by (nonlinear_arith)
            requires
                0x0020_0000_0000_0000 * y >= 0x001F_FFFF_FFFF_FFFF * b,
                s == r * y,
                z == r * b,
        ;
        assert(0x0004_0000_0000_0000 * (z - w) <= w);
        assert(0x0004_0000_0000_0000 * (w - z) <= w);
        let e = (r * budget) as int;
        assert(z == e * one) by (nonlinear_arith)
            requires
                z == r * b,
                b == budget * one,
                e == r * budget,
        ;
        assert(0x0004_0000_0000_0000 * (e - a) <= a) by (nonlinear_arith)
            requires
                0x0004_0000_0000_0000 * (z - w) <= w,
                z == e * one,
                w == a * one,
                one > 0,
        ;
        assert(0x0004_0000_0000_0000 * (a - e) <= a) by (nonlinear_arith)
            requires
                0x0004_0000_0000_0000 * (w - z) <= w,
                z == e * one,
                w == a * one,
                one > 0,
        ;
    }
}

/// Whether `t` is `n / d` to the nearest integer, ties to even.
pub open spec fn is_nearest_integer(t: nat, n: nat, d: nat) -> bool {
    &&& 2 * apart((t * d) as int, n as int) <= d
    &&& 2 * apart((t * d) as int, n as int) == d ==> t % 2 == 0
}

/// A percentage is 100 times the fraction, to the nearest number, and then to the
/// nearest tenth.
pub proof fn law_percent_is_a_hundred_times(units: nat)
    ensures
        is_nearest(Binary64::percent_units(units), 100 * units, 1),
        is_nearest_integer(Binary64::tenths_of(units), 10 * units, pow2(1074)),
{
    law_rounding_is_to_nearest(100 * units, 1);
    lemma_pow2_pos(1074);
    lemma_nearest_tenths(10 * units, pow2(1074));
}

proof fn lemma_nearest_tenths(n: nat, d: nat)
    requires
        d > 0,
    ensures
        is_nearest_integer(Binary64::nearest_integer(n, d), n, d),
{
    let x = Binary64::nearest_integer(n, d);
    let (q, r) = ((n / d) as int, (n % d) as int);
    lemma_fundamental_div_mod(n as int, d as int);
    lemma_mod_bound(n as int, d as int);
    assert(d * q == q * d) by (nonlinear_arith);
    assert(x == q + 1 ==> x * d == q * d + d) by (nonlinear_arith);
}

/// What is printed of `used / budget` is its percentage to the nearest tenth, up
/// to one part in two to the power of 48.
pub proof fn law_tenths_are_accurate(used: nat, budget: nat)
    requires
        0 < budget < COUNTS,
    ensures
        ({
            let tenths = Binary64::tenths_of(
                Binary64::percent_units(Binary64::ratio_units(used, budget)),
            );
            0x0002_0000_0000_0000 * apart((tenths * budget) as int, 1_000 * used as int)
                <= 0x0001_0000_0000_0000 * budget + 1_000 * used
        }),
{
    let one = pow2(1074);
    let r = Binary64::ratio_units(used, budget);
    let p = Binary64::percent_units(r);
    let t = Binary64::tenths_of(p);
    let a = used * one;
    lemma_pow2_pos(1074);
    law_ratio_is_accurate(used, budget);
    law_percent_is_a_hundred_times(p);
    let e = (r * budget) as int;
    let f = (p * budget) as int;
    if used == 0 {
        crate::laws::lemma_nothing_used(budget);
        Binary64::lemma_nearest_integer_exact(0, 1);
        assert(p == 0);
        assert(t == 0) by (nonlinear_arith)
            requires
                2 * (t * one) <= one,
                one > 0,
        ;
        assert(t * budget == 0) by (nonlinear_arith)
            requires
                t == 0,
        ;
    } else {
        assert(a >= one) by (nonlinear_arith)
            requires
                used >= 1,
                a == used * one,
        ;
        lemma_pow2_adds(64, 16);
        lemma_pow2_adds(80, 54);
        lemma_pow2_strictly_increases(134, 1074);
        lemma2_to64();
        lemma2_to64_rest();
        assert(r >= 0x0010_0000_0000_0000) by (nonlinear_arith)
            requires
                2 * e >= one,
                e == r * budget,
                0 < budget < 0x1_0000_0000_0000_0000_0000,
                one >= 0x0040_0000_0000_0000 * 0x1_0000_0000_0000_0000_0000,
        ;
        Binary64::lemma_nearest_error(100 * r, 1);
        assert(0x0020_0000_0000_0000 * f <= 0x0020_0000_0000_0001 * (100 * e))
            by (nonlinear_arith)
            requires
                0x0020_0000_0000_0000 * p <= 0x0020_0000_0000_0001 * (100 * r),
                f == p * budget,
                e == r * budget,
        ;
        assert(0x0020_0000_0000_0000 * f >= 0x001F_FFFF_FFFF_FFFF * (100 * e))
            by (nonlinear_arith)
            requires
                0x0020_0000_0000_0000 * p >= 0x001F_FFFF_FFFF_FFFF * (100 * r),
                f == p * budget,
                e == r * budget,
        ;
        let g = (t * budget) as int;
        let (h, c) = (g * one, budget * one);
        assert(2 * (h - 10 * f) <= c && 2 * (10 * f - h) <= c) by (nonlinear_arith)
            requires
                2 * (t * one - 10 * p) <= one,
                2 * (10 * p - t * one) <= one,
                h == g * one,
                g == t * budget,
                f == p * budget,
                c == budget * one,
        ;
        assert(0x0002_0000_0000_0000 * (h - 1_000 * a) <= 0x0001_0000_0000_0000 * c + 1_000 * a);
        assert(0x0002_0000_0000_0000 * (1_000 * a - h) <= 0x0001_0000_0000_0000 * c + 1_000 * a);
        assert(0x0002_0000_0000_0000 * (g - 1_000 * used) <= 0x0001_0000_0000_0000 * budget
            + 1_000 * used) by (nonlinear_arith)
            requires
                0x0002_0000_0000_0000 * (h - 1_000 * a) <= 0x0001_0000_0000_0000 * c + 1_000 * a,
                h == g * one,
                a == used * one,
                c == budget * one,
                one > 0,
        ;
        assert(0x0002_0000_0000_0000 * (1_000 * used - g) <= 0x0001_0000_0000_0000 * budget
            + 1_000 * used) by (nonlinear_arith)
            requires
                0x0002_0000_0000_0000 * (1_000 * a - h) <= 0x0001_0000_0000_0000 * c + 1_000 * a,
                h == g * one,
                a == used * one,
                c == budget * one,
                one > 0,
        ;
    }
}

/// A bit pattern holds an exponent and the significand below its leading bit.
pub proof fn law_bits_hold_exponent_and_significand(number: Binary64, e: nat, f: nat)
    requires
        number.bits == e * 0x0010_0000_0000_0000 + f,
        f < 0x0010_0000_0000_0000,
    ensures
        e == 0 ==> number.units() == f,
        e > 0 ==> number.units() == (0x0010_0000_0000_0000 + f) as nat * pow2((e - 1) as nat),
        number.is_magnitude() <==> e < 2047,
{
    lemma_fundamental_div_mod_converse(
        number.bits as int,
        0x0010_0000_0000_0000,
        e as int,
        f as int,
    );
}

/// A number is compared by its magnitude; infinity is above every number, and what
/// is negative or not a number is never as large.
pub proof fn law_comparison_is_by_magnitude(number: Binary64, threshold: Binary64)
    requires
        threshold.bits < 0x7FF0_0000_0000_0000,
    ensures
        number.bits < 0x7FF0_0000_0000_0000 ==> (number.reaches(threshold) <==> number.units()
            >= threshold.units()),
        number.bits == 0x7FF0_0000_0000_0000 ==> number.reaches(threshold),
        number.bits > 0x7FF0_0000_0000_0000 ==> !number.reaches(threshold),
{
}

/// Phases begin at the numbers nearest to 70 %, 85 % and 100 %.
pub proof fn law_phases_begin_at_their_numbers(units: nat)
    ensures
        ({
            let warning = (6305039478318694 * pow2(1021)) as nat;
            let degraded = (7656119366529843 * pow2(1021)) as nat;
            &&& is_nearest(warning, 70 * pow2(1074), 100)
            &&& is_nearest(degraded, 85 * pow2(1074), 100)
            &&& warning < degraded < pow2(1074)
            &&& units < warning <==> ResourcePhase::of_units(units) == ResourcePhase::Normal
            &&& warning <= units < degraded <==> ResourcePhase::of_units(units)
                == ResourcePhase::Warning
            &&& degraded <= units < pow2(1074) <==> ResourcePhase::of_units(units)
                == ResourcePhase::Degraded
            &&& pow2(1074) <= units <==> ResourcePhase::of_units(units) == ResourcePhase::HardStop
        }),
{
    crate::laws::lemma_thresholds_ascend();
    ResourcePhase::lemma_thresholds();
    law_rounding_is_to_nearest(70 * pow2(1074), 100);
    law_rounding_is_to_nearest(85 * pow2(1074), 100);
}

/// Phases grow more severe from `Normal` to `HardStop`.
pub proof fn law_phases_are_ordered(phase: ResourcePhase)
    ensures
        phase == ResourcePhase::Normal <==> phase.severity() == 0,
        phase == ResourcePhase::Warning <==> phase.severity() == 1,
        phase == ResourcePhase::Degraded <==> phase.severity() == 2,
        phase == ResourcePhase::HardStop <==> phase.severity() == 3,
{
}

} // verus!
