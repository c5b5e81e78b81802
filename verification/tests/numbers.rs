use resource_guardian::text::{decimal_text, percentage_text};
use resource_guardian::{Binary64, ResourcePhase};

/// Counts of every size, in no particular order.
fn counts() -> Vec<u64> {
    let mut list = vec![0, 1, 2, 3, 7, 10, 100, 1000, 2000, u64::MAX, u64::MAX - 1];
    for shift in 0..64 {
        let p = 1u64 << shift;
        list.push(p);
        list.push(p - 1);
        list.push(p | 1);
    }
    let mut x: u64 = 0x9E37_79B9_7F4A_7C15;
    for i in 0..200 {
        x = x.wrapping_mul(6364136223846793005).wrapping_add(1442695040888963407);
        list.push(x >> (i % 64));
    }
    list
}

fn native(used: u64, budget: u64) -> f64 {
    if budget == 0 {
        0.0
    } else {
        used as f64 / budget as f64
    }
}

fn native_phase(ratio: f64) -> ResourcePhase {
    if ratio >= 1.0 {
        ResourcePhase::HardStop
    } else if ratio >= 0.85 {
        ResourcePhase::Degraded
    } else if ratio >= 0.70 {
        ResourcePhase::Warning
    } else {
        ResourcePhase::Normal
    }
}

#[test]
fn counts_are_the_native_numbers() {
    for n in counts() {
        assert_eq!(Binary64::from_count(n as u128).bits, (n as f64).to_bits());
    }
}

#[test]
fn ratios_are_the_native_quotients() {
    for a in counts() {
        for b in counts() {
            assert_eq!(Binary64::ratio(a, b).bits, native(a, b).to_bits());
        }
    }
}

#[test]
fn percentages_are_printed_as_natively() {
    for a in counts() {
        for b in counts() {
            let percent = native(a, b) * 100.0;
            assert_eq!(Binary64::ratio(a, b).percent().bits, percent.to_bits());
            assert_eq!(percentage_text(Binary64::ratio(a, b)), format!("{:.1}", percent));
        }
    }
    for a in 0..2100u64 {
        let percent = native(a, 2000) * 100.0;
        assert_eq!(percentage_text(Binary64::ratio(a, 2000)), format!("{:.1}", percent));
        let percent = native(a, 400) * 100.0;
        assert_eq!(percentage_text(Binary64::ratio(a, 400)), format!("{:.1}", percent));
    }
    assert_eq!(percentage_text(Binary64::ratio(1, 2000)), "0.1");
    assert_eq!(percentage_text(Binary64::ratio(3, 2000)), "0.1");
    assert_eq!(percentage_text(Binary64::ratio(1, 400)), "0.2");
    assert_eq!(percentage_text(Binary64::ratio(3, 400)), "0.8");
}

#[test]
fn phases_are_those_of_the_native_quotients() {
    for a in counts() {
        for b in counts() {
            assert_eq!(
                ResourcePhase::from_ratio(Binary64::ratio(a, b)),
                native_phase(native(a, b))
            );
        }
    }
}

#[test]
fn phases_of_unusual_numbers() {
    for x in [
        0.0,
        -0.0,
        -1.0,
        f64::NAN,
        -f64::NAN,
        f64::INFINITY,
        f64::NEG_INFINITY,
        f64::MIN_POSITIVE,
        5e-324,
        f64::MAX,
        f64::MIN,
        0.7f64.next_down(),
        0.85f64.next_down(),
        1.0f64.next_down(),
        1.0f64.next_up(),
    ] {
        let ratio = Binary64 { bits: x.to_bits() };
        assert_eq!(ResourcePhase::from_ratio(ratio), native_phase(x));
    }
}

#[test]
fn phases_begin_at_their_percentage() {
    for budget in [1u64, 3, 7, 20, 100, 999, 268435456, 643371375338642] {
        for percent in [70u64, 85, 100] {
            let edge = (budget as u128 * percent as u128).div_ceil(100) as u64;
            for used in [edge.saturating_sub(1), edge, edge + 1] {
                let share = used as u128 * 100;
                let whole = budget as u128;
                let expected = if share >= 100 * whole {
                    ResourcePhase::HardStop
                } else if share >= 85 * whole {
                    ResourcePhase::Degraded
                } else if share >= 70 * whole {
                    ResourcePhase::Warning
                } else {
                    ResourcePhase::Normal
                };
                assert_eq!(ResourcePhase::from_ratio(Binary64::ratio(used, budget)), expected);
            }
        }
    }
    // Where neighbouring counts share a number, the last byte makes no difference.
    let limit = 1u64 << 53;
    assert_eq!(
        ResourcePhase::from_ratio(Binary64::ratio(limit, limit + 1)),
        ResourcePhase::HardStop
    );
    assert_eq!(
        ResourcePhase::from_ratio(Binary64::ratio(limit - 1, limit)),
        ResourcePhase::Degraded
    );
}

#[test]
fn large_budgets_are_exact_to_their_rounding() {
    let phase = |used: u64, budget: u64| ResourcePhase::from_ratio(Binary64::ratio(used, budget));
    // Just below 85 % and 70 %, and rounded up to them.
    assert_eq!(phase(546865669037855, 643371375338653), ResourcePhase::Degraded);
    assert_eq!(phase(700559942035417, 1000799917193453), ResourcePhase::Warning);
    // Just above them, and rounded down.
    assert_eq!(phase(21240411805217025, 24988719770843558), ResourcePhase::Warning);
    assert_eq!(phase(9043329341996829, 12919041917138327), ResourcePhase::Normal);
    // A hair more or less, and there is no doubt.
    for budget in [u64::MAX, 24988719770843558, 1 << 60] {
        for (percent, below, above) in [
            (70u128, ResourcePhase::Normal, ResourcePhase::Warning),
            (85, ResourcePhase::Warning, ResourcePhase::Degraded),
        ] {
            let edge = (budget as u128 * percent / 100) as u64;
            let hair = (edge >> 49) + 2;
            assert_eq!(phase(edge - hair, budget), below);
            assert_eq!(phase(edge + hair, budget), above);
        }
        assert_eq!(phase(budget - (budget >> 49) - 2, budget), ResourcePhase::Degraded);
        assert_eq!(phase(budget, budget), ResourcePhase::HardStop);
    }
}

#[test]
fn ratios_are_monotonic() {
    let mut list = counts();
    list.sort();
    for pair in list.windows(2) {
        let (low, high) = (pair[0], pair[1]);
        assert!(Binary64::ratio(low, 1000).bits <= Binary64::ratio(high, 1000).bits);
        if low > 0 {
            assert!(Binary64::ratio(1000, high).bits <= Binary64::ratio(1000, low).bits);
        }
        assert_eq!(
            Binary64::from_count(low as u128).max(Binary64::from_count(high as u128)).bits,
            (high as f64).to_bits()
        );
    }
}

#[test]
fn tenths_round_to_even() {
    for (x, tenths) in [(0.0, 0u128), (0.25, 2), (0.75, 8), (0.05, 1), (0.04, 0), (12.5, 125), (1e20, 1000000000000000000000)] {
        let number = Binary64 { bits: f64::to_bits(x) };
        assert_eq!(number.tenths(), tenths);
    }
}

#[test]
fn decimals_are_printed_in_full() {
    for n in [0u128, 9, 10, 11, 99, 100, 1234567890, u64::MAX as u128, u128::MAX] {
        assert_eq!(decimal_text(n), n.to_string());
    }
}
