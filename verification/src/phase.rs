//! Enforcement phases, and the fractions at which they begin.
use crate::binary64::{Binary64, INFINITY, LEADING, ONE};
use vstd::arithmetic::power2::*;
use vstd::prelude::*;

verus! {

/// The bit pattern of the number nearest to 85 %.
pub const DEGRADED_AT: u64 = 0x3FEB_3333_3333_3333;

/// The bit pattern of the number nearest to 70 %.
pub const WARNING_AT: u64 = 0x3FE6_6666_6666_6666;

/// Enforcement phase determined by current resource usage.
#[derive(Debug, Clone, Copy, PartialEq, Eq, Structural)]
pub enum ResourcePhase {
    /// Normal operation.
    Normal,
    /// 70 % of budget consumed: warnings emitted, metrics published.
    Warning,
    /// 85 % of budget consumed: throttling applied.
    Degraded,
    /// 100 % of budget consumed: isolate terminated.
    HardStop,
}

impl Default for ResourcePhase {
    fn default() -> (result: Self)
        ensures
            result == ResourcePhase::Normal,
    {
        ResourcePhase::Normal
    }
}

impl ResourcePhase {
    /// The fraction nearest to `percent` %, in units.
    pub open spec fn threshold(percent: nat) -> nat {
        Binary64::nearest(percent * Binary64::one(), 100)
    }

    /// The phase of a fraction of that many units.
    pub open spec fn of_units(units: nat) -> Self {
        if units >= Self::threshold(100) {
            ResourcePhase::HardStop
        } else if units >= Self::threshold(85) {
            ResourcePhase::Degraded
        } else if units >= Self::threshold(70) {
            ResourcePhase::Warning
        } else {
            ResourcePhase::Normal
        }
    }

    /// How far enforcement has gone.
    pub open spec fn severity(self) -> nat {
        match self {
            ResourcePhase::Normal => 0,
            ResourcePhase::Warning => 1,
            ResourcePhase::Degraded => 2,
            ResourcePhase::HardStop => 3,
        }
    }

    /// The phase of a fraction. What is not a number, or is negative, is
    /// `Normal`; what is infinite is `HardStop`.
    pub fn from_ratio(ratio: Binary64) -> (result: Self)
        ensures
            ratio.is_magnitude() ==> result == Self::of_units(ratio.units()),
            ratio.bits == INFINITY ==> result == ResourcePhase::HardStop,
            ratio.bits > INFINITY ==> result == ResourcePhase::Normal,
    {
        proof {
            Self::lemma_thresholds();
        }
        if ratio.at_least(Binary64 { bits: ONE }) {
            ResourcePhase::HardStop
        } else if ratio.at_least(Binary64 { bits: DEGRADED_AT }) {
            ResourcePhase::Degraded
        } else if ratio.at_least(Binary64 { bits: WARNING_AT }) {
            ResourcePhase::Warning
        } else {
            ResourcePhase::Normal
        }
    }

    /// The bit patterns at which phases begin stand for 100 %, 85 % and 70 %.
    pub proof fn lemma_thresholds()
        ensures
            (Binary64 { bits: ONE }).units() == Self::threshold(100),
            Self::threshold(100) == Binary64::one(),
            (Binary64 { bits: DEGRADED_AT }).units() == Self::threshold(85),
            (Binary64 { bits: WARNING_AT }).units() == Self::threshold(70),
    {
        let one = Binary64 { bits: ONE };
        Binary64::lemma_power_units(1023);
        Binary64::lemma_nearest_scales(Binary64::one(), 1, 100);
        one.lemma_nearest_exact();
        assert(Binary64::one() * 100 == 100 * Binary64::one());
        Self::lemma_threshold(85, 7656119366529843);
        Self::lemma_threshold(70, 6305039478318694);
        let degraded = Binary64 { bits: DEGRADED_AT };
        assert(degraded.exponent() == 1022);
        assert(degraded.fraction() == 7656119366529843 - LEADING);
        let warning = Binary64 { bits: WARNING_AT };
        assert(warning.exponent() == 1022);
        assert(warning.fraction() == 6305039478318694 - LEADING);
    }

    proof fn lemma_threshold(percent: nat, m: nat)
        requires
            50 <= percent < 100,
            Binary64::nearest_integer(percent * 0x0020_0000_0000_0000, 100) == m,
        ensures
            Self::threshold(percent) == m * pow2(1021),
    {
        lemma2_to64_rest();
        lemma_pow2_adds(53, 1021);
        let n = percent * 0x0020_0000_0000_0000;
        Binary64::lemma_nearest_of_normalized(n, 100, 1021);
        assert(n * pow2(1021) == percent * Binary64::one()) by (nonlinear_arith)
            requires
                n == percent * 0x0020_0000_0000_0000,
                Binary64::one() == 0x0020_0000_0000_0000 * pow2(1021),
        ;
    }
}

} // verus!
