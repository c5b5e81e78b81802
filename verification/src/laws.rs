//! What holds of the library as a whole.
use crate::binary64::{Binary64, LEADING, LIMIT, ONE};
use crate::budget::ResourceBudget;
use crate::conservation::ConservationState;
use crate::notice::NoticeLevel;
use crate::phase::ResourcePhase;
use crate::usage::WorkerUsage;
use vstd::arithmetic::div_mod::*;
use vstd::arithmetic::power2::*;
use vstd::prelude::*;

pub mod guardians;
pub mod numbers;
pub mod system;
pub mod texts;
pub mod workers;

verus! {

proof fn lemma_exact_multiple(n: nat, k: nat)
    requires
        n <= LIMIT,
    ensures
        Binary64::nearest(n * pow2(k), 1) == n * pow2(k),
    decreases k,
{
    let x = n * pow2(k);
    if x < LIMIT {
        Binary64::lemma_nearest_integer_exact(x, 1);
    } else if k == 0 {
        lemma2_to64();
        Binary64::lemma_nearest_integer_exact(LEADING as nat, 2);
        assert(Binary64::nearest(x, 2) == LEADING);
    } else {
        let p = pow2((k - 1) as nat);
        lemma_pow2_unfold(k);
        assert(n * (2 * p) == (n * p) * 2) by (nonlinear_arith);
        Binary64::lemma_nearest_scales(n * p, 1, 2);
        lemma_exact_multiple(n, (k - 1) as nat);
    }
}

/// Counts up to two to the power of 53 are represented exactly, and their
/// fraction is rounded once.
pub proof fn law_small_counts_are_exact(used: nat, budget: nat)
    requires
        used <= LIMIT,
        0 < budget <= LIMIT,
    ensures
        Binary64::count_units(used) == used * Binary64::one(),
        Binary64::count_units(budget) == budget * Binary64::one(),
        Binary64::ratio_units(used, budget) == Binary64::nearest(used * Binary64::one(), budget),
{
    let one = Binary64::one();
    lemma_exact_multiple(used, 1074);
    lemma_exact_multiple(budget, 1074);
    lemma_pow2_pos(1074);
    Binary64::lemma_nearest_scales(used * one, budget, one);
}

pub(crate) proof fn lemma_count_positive(n: nat)
    requires
        n > 0,
    ensures
        Binary64::count_units(n) >= Binary64::one(),
{
    let one = Binary64::one();
    assert(one * 1 <= (n * one) * 1) by (nonlinear_arith)
        requires
            n > 0,
    ;
    Binary64::lemma_nearest_monotonic(one, 1, n * one, 1);
    assert(1 * pow2(1074) == one);
    lemma_exact_multiple(1, 1074);
}

/// Using more of a budget never lowers the fraction, and a larger budget never
/// raises it.
pub proof fn law_ratio_is_monotonic(used: nat, more: nat, budget: nat, larger: nat)
    requires
        used <= more,
        0 < budget <= larger,
    ensures
        Binary64::ratio_units(used, budget) <= Binary64::ratio_units(more, budget),
        Binary64::ratio_units(used, larger) <= Binary64::ratio_units(used, budget),
{
    let one = Binary64::one();
    let (x, z) = (Binary64::count_units(used), Binary64::count_units(more));
    let (y, l) = (Binary64::count_units(budget), Binary64::count_units(larger));
    lemma_count_positive(budget);
    lemma_count_positive(larger);
    lemma_pow2_pos(1074);
    assert(used * one * 1 <= more * one * 1) by (nonlinear_arith)
        requires
            used <= more,
    ;
    Binary64::lemma_nearest_monotonic(used * one, 1, more * one, 1);
    assert(budget * one * 1 <= larger * one * 1) by (nonlinear_arith)
        requires
            budget <= larger,
    ;
    Binary64::lemma_nearest_monotonic(budget * one, 1, larger * one, 1);
    assert((x * one) * y <= (z * one) * y) by (nonlinear_arith)
        requires
            x <= z,
    ;
    Binary64::lemma_nearest_monotonic(x * one, y, z * one, y);
    assert((x * one) * y <= (x * one) * l) by (nonlinear_arith)
        requires
            y <= l,
    ;
    Binary64::lemma_nearest_monotonic(x * one, l, x * one, y);
}

/// A larger fraction never calls for a milder phase.
pub proof fn law_phase_is_monotonic(a: nat, b: nat)
    requires
        a <= b,
    ensures
        ResourcePhase::of_units(a).severity() <= ResourcePhase::of_units(b).severity(),
{
    lemma_thresholds_ascend();
}

/// Whatever the counts, a budget that is consumed calls for a hard stop.
pub proof fn law_spent_budget_stops(used: nat, budget: nat)
    requires
        0 < budget <= used,
    ensures
        ResourcePhase::of_units(Binary64::ratio_units(used, budget)) == ResourcePhase::HardStop,
{
    let one = Binary64::one();
    let (x, y) = (Binary64::count_units(used), Binary64::count_units(budget));
    lemma_count_positive(budget);
    lemma_pow2_pos(1074);
    assert(budget * one * 1 <= used * one * 1) by (nonlinear_arith)
        requires
            budget <= used,
    ;
    Binary64::lemma_nearest_monotonic(budget * one, 1, used * one, 1);
    assert(one * y <= (x * one) * 1) by (nonlinear_arith)
        requires
            y <= x,
    ;
    Binary64::lemma_nearest_monotonic(one, 1, x * one, y);
    assert(1 * pow2(1074) == one);
    lemma_exact_multiple(1, 1074);
    ResourcePhase::lemma_thresholds();
}

/// A fraction that is closer to what lies below `m` units of two to the power
/// of -53 is rounded below them.
proof fn lemma_rounds_below(used: nat, budget: nat, m: nat)
    requires
        budget > 0,
        LEADING < m <= LIMIT,
        2 * (used * 0x0020_0000_0000_0000) < (2 * m - 1) * budget,
    ensures
        Binary64::nearest(used * Binary64::one(), budget) < m * pow2(1021),
{
    let w = pow2(1021);
    let n = used * 0x0020_0000_0000_0000;
    lemma_pow2_pos(1021);
    lemma_pow2_adds(53, 1021);
    lemma2_to64_rest();
    assert(n * w == used * Binary64::one()) by (nonlinear_arith)
        requires
            n == used * 0x0020_0000_0000_0000,
            Binary64::one() == 0x0020_0000_0000_0000 * w,
    ;
    if LEADING * budget <= n {
        assert(n < LIMIT * budget) by (nonlinear_arith)
            requires
                2 * n < (2 * m - 1) * budget,
                m <= LIMIT,
                budget > 0,
        ;
        Binary64::lemma_nearest_of_normalized(n, budget, 1021);
        let q = (n / budget) as int;
        let r = (n % budget) as int;
        lemma_fundamental_div_mod(n as int, budget as int);
        lemma_mod_bound(n as int, budget as int);
        assert(q < m) by (nonlinear_arith)
            requires
                n == budget * q + r,
                r >= 0,
                budget > 0,
                2 * n < (2 * m - 1) * budget,
        ;
        assert(q == m - 1 ==> 2 * r < budget) by (nonlinear_arith)
            requires
                n == budget * q + r,
                2 * n < (2 * m - 1) * budget,
        ;
        let rounded = Binary64::nearest_integer(n, budget);
        assert(rounded * w < m * w) by (nonlinear_arith)
            requires
                rounded < m,
                w > 0,
        ;
    } else {
        assert((n * w) * 1 <= (LEADING * w) as nat * budget) by (nonlinear_arith)
            requires
                n < LEADING * budget,
        ;
        Binary64::lemma_nearest_monotonic(n * w, budget, (LEADING * w) as nat, 1);
        lemma_exact_multiple(LEADING as nat, 1021);
        assert(LEADING as nat * w < m * w) by (nonlinear_arith)
            requires
                LEADING < m,
                w > 0,
        ;
    }
}

/// Of a budget up to two to the power of 53, only what consumes it calls for a
/// hard stop.
pub proof fn law_hard_stop_means_spent(used: nat, budget: nat)
    requires
        0 < budget <= LIMIT,
    ensures
        ResourcePhase::of_units(Binary64::ratio_units(used, budget)) == ResourcePhase::HardStop
            <==> used >= budget,
{
    ResourcePhase::lemma_thresholds();
    if used >= budget {
        law_spent_budget_stops(used, budget);
    } else {
        law_small_counts_are_exact(used, budget);
        assert(2 * (used * 0x0020_0000_0000_0000) < 0x003F_FFFF_FFFF_FFFF * budget);
        lemma_rounds_below(used, budget, 0x0020_0000_0000_0000);
        lemma_pow2_adds(53, 1021);
        lemma2_to64_rest();
    }
}

/// Of a budget up to a fourteenth of two to the power of 53, the degraded phase
/// begins at 85 %.
pub proof fn law_degraded_begins_at_85_percent(used: nat, budget: nat)
    requires
        budget > 0,
        14 * budget <= LIMIT,
    ensures
        ResourcePhase::of_units(Binary64::ratio_units(used, budget)).severity()
            >= ResourcePhase::Degraded.severity() <==> 100 * used >= 85 * budget,
{
    if used >= budget {
        law_spent_budget_stops(used, budget);
    } else {
        law_small_counts_are_exact(used, budget);
        lemma_thresholds_ascend();
        if 100 * used < 85 * budget {
            assert(20 * used <= 17 * budget - 1);
            assert(2 * (used * 0x0020_0000_0000_0000) < 15312238733059685 * budget);
            lemma_rounds_below(used, budget, 7656119366529843);
        } else {
            lemma_threshold_reached(used, budget, 85);
        }
    }
}

/// Of a budget up to a ninth of two to the power of 53, the warning phase begins
/// at 70 %.
pub proof fn law_warning_begins_at_70_percent(used: nat, budget: nat)
    requires
        budget > 0,
        9 * budget <= LIMIT,
    ensures
        ResourcePhase::of_units(Binary64::ratio_units(used, budget)).severity()
            >= ResourcePhase::Warning.severity() <==> 100 * used >= 70 * budget,
{
    if used >= budget {
        law_spent_budget_stops(used, budget);
    } else {
        law_small_counts_are_exact(used, budget);
        lemma_thresholds_ascend();
        if 100 * used < 70 * budget {
            assert(10 * used <= 7 * budget - 1);
            assert(2 * (used * 0x0020_0000_0000_0000) < 12610078956637387 * budget);
            lemma_rounds_below(used, budget, 6305039478318694);
        } else {
            lemma_threshold_reached(used, budget, 70);
        }
    }
}

pub(crate) proof fn lemma_thresholds_ascend()
    ensures
        0 < ResourcePhase::threshold(70) < ResourcePhase::threshold(85) < ResourcePhase::threshold(
            100,
        ),
        ResourcePhase::threshold(70) == 6305039478318694 * pow2(1021),
        ResourcePhase::threshold(85) == 7656119366529843 * pow2(1021),
{
    ResourcePhase::lemma_thresholds();
    let zero = Binary64 { bits: 0 };
    let warning = Binary64 { bits: crate::phase::WARNING_AT };
    let degraded = Binary64 { bits: crate::phase::DEGRADED_AT };
    zero.lemma_order(warning);
    warning.lemma_order(degraded);
    degraded.lemma_order(Binary64 { bits: ONE });
    assert(degraded.exponent() == 1022);
    assert(degraded.fraction() == 7656119366529843 - LEADING);
    assert(warning.exponent() == 1022);
    assert(warning.fraction() == 6305039478318694 - LEADING);
}

proof fn lemma_threshold_reached(used: nat, budget: nat, percent: nat)
    requires
        budget > 0,
        100 * used >= percent * budget,
    ensures
        Binary64::nearest(used * Binary64::one(), budget) >= ResourcePhase::threshold(percent),
{
    let one = Binary64::one();
    assert((percent * one) * budget <= (used * one) * 100) by (nonlinear_arith)
        requires
            100 * used >= percent * budget,
    ;
    Binary64::lemma_nearest_monotonic(percent * one, 100, used * one, budget);
}

/// Reaching a percentage of a budget up to two to the power of 53 is never
/// overlooked.
pub proof fn law_reached_percentages_are_seen(used: nat, budget: nat)
    requires
        0 < budget <= LIMIT,
    ensures
        ({
            let severity = ResourcePhase::of_units(
                Binary64::ratio_units(used, budget),
            ).severity();
            &&& 100 * used >= 70 * budget ==> severity >= ResourcePhase::Warning.severity()
            &&& 100 * used >= 85 * budget ==> severity >= ResourcePhase::Degraded.severity()
            &&& used >= budget ==> severity == ResourcePhase::HardStop.severity()
        }),
{
    if used >= budget {
        law_spent_budget_stops(used, budget);
    } else {
        law_small_counts_are_exact(used, budget);
        lemma_thresholds_ascend();
        if 100 * used >= 70 * budget {
            lemma_threshold_reached(used, budget, 70);
        }
        if 100 * used >= 85 * budget {
            lemma_threshold_reached(used, budget, 85);
        }
    }
}

pub(crate) proof fn lemma_count_error(n: nat)
    ensures
        ({
            let exact = n * Binary64::one();
            let x = Binary64::count_units(n);
            &&& 0x0020_0000_0000_0000 * x <= 0x0020_0000_0000_0001 * exact
            &&& 0x0020_0000_0000_0000 * x >= 0x001F_FFFF_FFFF_FFFF * exact
        }),
{
    let one = Binary64::one();
    let exact = n * one;
    if n == 0 {
        assert(exact == 0) by (nonlinear_arith)
            requires
                n == 0,
                exact == n * one,
        ;
        Binary64::lemma_nearest_integer_exact(0, 1);
    } else {
        lemma2_to64_rest();
        lemma_pow2_strictly_increases(52, 1074);
        assert(exact >= one) by (nonlinear_arith)
            requires
                n > 0,
                exact == n * one,
        ;
        Binary64::lemma_nearest_error(exact, 1);
    }
}

/// Whatever the budget, the phases begin at 70 %, 85 % and 100 % of it, to one
/// part in two to the power of 50.
pub proof fn law_phases_of_any_budget(used: nat, budget: nat, percent: nat)
    requires
        budget > 0,
        percent == 70 || percent == 85 || percent == 100,
    ensures
        ({
            let severity = ResourcePhase::of_units(
                Binary64::ratio_units(used, budget),
            ).severity();
            let begun = if percent == 70 {
                ResourcePhase::Warning.severity()
            } else if percent == 85 {
                ResourcePhase::Degraded.severity()
            } else {
                ResourcePhase::HardStop.severity()
            };
            let part: nat = 0x0004_0000_0000_0000;
            &&& 100 * used * part >= percent * budget * (part + 1) ==> severity >= begun
            &&& 100 * used * (part + 1) <= percent * budget * part ==> severity < begun
        }),
{
    let one = Binary64::one();
    let (x, y) = (Binary64::count_units(used), Binary64::count_units(budget));
    let w = pow2(1021);
    lemma_thresholds_ascend();
    ResourcePhase::lemma_thresholds();
    lemma_count_error(used);
    lemma_count_error(budget);
    lemma_count_positive(budget);
    lemma_pow2_pos(1074);
    lemma_pow2_pos(1021);
    lemma_pow2_adds(53, 1021);
    lemma2_to64_rest();
    let (a, b) = (used * one, budget * one);
    if 100 * used * 0x0004_0000_0000_0000 >= percent * budget * 0x0004_0000_0000_0001 {
        assert(100 * a * 0x0004_0000_0000_0000 >= percent * b * 0x0004_0000_0000_0001)
            by (nonlinear_arith)
            requires
                100 * used * 0x0004_0000_0000_0000 >= percent * budget * 0x0004_0000_0000_0001,
                a == used * one,
                b == budget * one,
        ;
        assert(percent * y <= 100 * x);
        assert((percent * one) * y <= (x * one) * 100) by (nonlinear_arith)
            requires
                percent * y <= 100 * x,
        ;
        Binary64::lemma_nearest_monotonic(percent * one, 100, x * one, y);
    }
    if 100 * used * 0x0004_0000_0000_0001 <= percent * budget * 0x0004_0000_0000_0000 {
        assert(100 * a * 0x0004_0000_0000_0001 <= percent * b * 0x0004_0000_0000_0000)
            by (nonlinear_arith)
            requires
                100 * used * 0x0004_0000_0000_0001 <= percent * budget * 0x0004_0000_0000_0000,
                a == used * one,
                b == budget * one,
        ;
        let m: nat = if percent == 70 {
            6305039478318693
        } else if percent == 85 {
            7656119366529842
        } else {
            0x001F_FFFF_FFFF_FFFF
        };
        assert(x * 0x0020_0000_0000_0000 <= m * y);
        assert((x * one) * 1 <= (m * w) * y) by (nonlinear_arith)
            requires
                x * 0x0020_0000_0000_0000 <= m * y,
                one == 0x0020_0000_0000_0000 * w,
        ;
        Binary64::lemma_nearest_monotonic(x * one, y, m * w, 1);
        lemma_exact_multiple(m, 1021);
    }
}

/// A budget of zero is not enforced.
pub proof fn law_empty_budget_is_not_enforced(used: nat)
    ensures
        ResourcePhase::of_units(Binary64::ratio_units(used, 0)) == ResourcePhase::Normal,
{
    lemma_thresholds_ascend();
}

/// Every dimension is checked: the phase of a worker is that of whichever
/// dimension is furthest, and none is further.
pub proof fn law_worst_dimension_decides(usage: WorkerUsage)
    ensures
        ({
            let phase = usage.phase();
            let memory = ResourcePhase::of_units(usage.memory_units());
            let cpu = ResourcePhase::of_units(usage.cpu_units());
            let network = ResourcePhase::of_units(usage.network_units());
            let files = ResourcePhase::of_units(usage.file_units());
            &&& phase == memory || phase == cpu || phase == network || phase == files
            &&& phase.severity() >= memory.severity()
            &&& phase.severity() >= cpu.severity()
            &&& phase.severity() >= network.severity()
            &&& phase.severity() >= files.severity()
        }),
{
    law_phase_is_monotonic(usage.memory_units(), usage.max_units());
    law_phase_is_monotonic(usage.cpu_units(), usage.max_units());
    law_phase_is_monotonic(usage.network_units(), usage.max_units());
    law_phase_is_monotonic(usage.file_units(), usage.max_units());
}

/// A worker that spends any budget it has, has to be stopped.
pub proof fn law_spending_any_budget_stops(usage: WorkerUsage)
    requires
        (0 < usage.budget.memory <= usage.peak_heap) || (0 < usage.budget.cpu <= usage.cpu_ms) || (
        0 < usage.budget.network <= usage.network_bytes) || (0 < usage.budget.file_handles
            <= usage.open_files),
    ensures
        usage.due_for_stop(),
{
    if 0 < usage.budget.memory <= usage.peak_heap {
        law_spent_budget_stops(usage.peak_heap as nat, usage.budget.memory as nat);
    } else if 0 < usage.budget.cpu <= usage.cpu_ms {
        law_spent_budget_stops(usage.cpu_ms as nat, usage.budget.cpu as nat);
    } else if 0 < usage.budget.network <= usage.network_bytes {
        law_spent_budget_stops(usage.network_bytes as nat, usage.budget.network as nat);
    } else {
        law_spent_budget_stops(usage.open_files as nat, usage.budget.file_handles as nat);
    }
}

/// Of budgets up to two to the power of 53, a worker has to be stopped only if
/// it has spent one.
pub proof fn law_only_spending_a_budget_stops(usage: WorkerUsage)
    requires
        usage.due_for_stop(),
        usage.budget.memory <= LIMIT,
        usage.budget.cpu <= LIMIT,
        usage.budget.network <= LIMIT,
        usage.budget.file_handles <= LIMIT,
    ensures
        (0 < usage.budget.memory <= usage.peak_heap) || (0 < usage.budget.cpu <= usage.cpu_ms) || (
        0 < usage.budget.network <= usage.network_bytes) || (0 < usage.budget.file_handles
            <= usage.open_files),
{
    lemma_thresholds_ascend();
    if usage.budget.memory > 0 {
        law_hard_stop_means_spent(usage.peak_heap as nat, usage.budget.memory as nat);
    }
    if usage.budget.cpu > 0 {
        law_hard_stop_means_spent(usage.cpu_ms as nat, usage.budget.cpu as nat);
    }
    if usage.budget.network > 0 {
        law_hard_stop_means_spent(usage.network_bytes as nat, usage.budget.network as nat);
    }
    if usage.budget.file_handles > 0 {
        law_hard_stop_means_spent(usage.open_files as nat, usage.budget.file_handles as nat);
    }
}

/// A worker that has used nothing is neither stopped nor spoken of.
pub proof fn law_idle_worker_is_left_alone(budget: ResourceBudget, label: Seq<char>)
    ensures
        WorkerUsage::idle(budget).max_units() == 0,
        !WorkerUsage::idle(budget).due_for_stop(),
        WorkerUsage::idle(budget).notice_of(label) is None,
{
    lemma_thresholds_ascend();
    lemma_nothing_used(budget.memory as nat);
    lemma_nothing_used(budget.cpu as nat);
    lemma_nothing_used(budget.network as nat);
    lemma_nothing_used(budget.file_handles as nat);
}

/// At the start of a window nothing of the CPU and network budgets is used.
pub proof fn law_unused_dimensions_are_empty(usage: WorkerUsage)
    ensures
        usage.in_new_window().cpu_units() == 0,
        usage.in_new_window().network_units() == 0,
        usage.in_new_window().memory_units() == usage.memory_units(),
        usage.in_new_window().file_units() == usage.file_units(),
{
    lemma_nothing_used(usage.budget.cpu as nat);
    lemma_nothing_used(usage.budget.network as nat);
}

pub(crate) proof fn lemma_nothing_used(budget: nat)
    ensures
        Binary64::ratio_units(0, budget) == 0,
{
    if budget > 0 {
        let one = Binary64::one();
        lemma_count_positive(budget);
        lemma_pow2_pos(1074);
        assert(0 * one == 0);
        Binary64::lemma_nearest_integer_exact(0, 1);
        Binary64::lemma_nearest_integer_exact(0, Binary64::count_units(budget));
    }
}

/// The phase recorded of a worker bears on what is said of it, and on nothing
/// else.
pub proof fn law_recorded_phase_only_silences(
    usage: WorkerUsage,
    recorded: ResourcePhase,
    current: usize,
)
    ensures
        ({
            let other = WorkerUsage { last_phase: recorded, ..usage };
            &&& other.phase() == usage.phase()
            &&& other.due_for_stop() == usage.due_for_stop()
            &&& other.summary_text() == usage.summary_text()
            &&& other.next_heap_limit(current) == usage.next_heap_limit(current)
        }),
{
}

/// An error is logged of those workers that have to be stopped and were not found
/// spent before.
pub proof fn law_errors_are_for_stops(usage: WorkerUsage, label: Seq<char>)
    ensures
        usage.due_for_stop() && usage.last_phase != ResourcePhase::HardStop <==> (usage.notice_of(
            label,
        ) matches Some(notice) && notice.0 == NoticeLevel::Error),
{
}

/// A worker has to be stopped exactly in the hard-stop phase.
pub proof fn law_hard_stop_is_due(usage: WorkerUsage)
    ensures
        usage.due_for_stop() <==> usage.phase() == ResourcePhase::HardStop,
{
}

/// A worker that was in the normal phase is spoken of when it leaves it.
pub proof fn law_leaving_normal_is_announced(usage: WorkerUsage, label: Seq<char>)
    requires
        usage.last_phase == ResourcePhase::Normal,
    ensures
        usage.notice_of(label) == (match usage.phase() {
            ResourcePhase::Normal => None,
            ResourcePhase::Warning => Some(
                (NoticeLevel::Warn, usage.phase_text("WARNING"@, label)),
            ),
            ResourcePhase::Degraded => Some(
                (NoticeLevel::Warn, usage.phase_text("DEGRADED"@, label)),
            ),
            ResourcePhase::HardStop => Some((NoticeLevel::Error, usage.stop_text(label))),
        }),
{
}

/// A worker is spoken of exactly when it rises beyond the phase recorded of it.
pub proof fn law_rises_are_announced(usage: WorkerUsage, label: Seq<char>)
    ensures
        usage.notice_of(label) is Some <==> usage.phase().severity()
            > usage.last_phase.severity(),
{
}

/// Once it was inspected, nothing more is said of a worker that goes on as it is.
pub proof fn law_nothing_is_said_twice(usage: WorkerUsage, label: Seq<char>)
    ensures
        usage.inspected().notice_of(label) is None,
        usage.inspected().inspected() == usage.inspected(),
{
    assert(usage.inspected().max_units() == usage.max_units());
}

/// The heap never grows beyond the budget, nor by more than its double; and not
/// at all once its peak is over the budget.
pub proof fn law_heap_stays_in_budget(usage: WorkerUsage, current: usize)
    ensures
        usage.heap_blocked() ==> usage.next_heap_limit(current) == current,
        !usage.heap_blocked() ==> usage.next_heap_limit(current) <= usage.budget.memory,
        usage.next_heap_limit(current) <= 2 * current,
        !usage.heap_blocked() && 2 * current <= usage.budget.memory && 2 * current <= usize::MAX
            ==> usage.next_heap_limit(current) == 2 * current,
{
}

/// Charges add up, and the order in which they come does not matter.
pub proof fn law_charges_add_up<C>(state: ConservationState<C>, a: nat, b: nat)
    ensures
        state.charged(a).charged(b) == state.charged(a + b),
        state.charged(a).charged(b) == state.charged(b).charged(a),
{
}

/// A breach lasts until the window is reset, whatever is charged.
pub proof fn law_breach_lasts<C>(state: ConservationState<C>, delta: nat)
    requires
        !state.within_limits(),
        state.total_cpu_ms <= u64::MAX,
    ensures
        !state.charged(delta).within_limits(),
        state.charged(delta).reset().within_limits(),
{
}

/// Resetting the window forgets every charge.
pub proof fn law_reset_forgets_charges<C>(state: ConservationState<C>, delta: nat)
    ensures
        state.charged(delta).reset() == state.reset(),
        state.reset().usage_units() == 0,
        state.reset().within_limits(),
{
    lemma_nothing_used(state.allowed());
}

/// The callback registered last is the only one, whatever was charged before and
/// is charged after; and registering one leaves what was charged.
pub proof fn law_callback_replaces_callback<C>(
    state: ConservationState<C>,
    a: C,
    b: C,
    delta: nat,
)
    ensures
        state.listened_by(a).listened_by(b) == state.listened_by(b),
        state.listened_by(a).charged(delta).listened_by(b).charged(delta).callback == Some(b),
        state.listened_by(b).total_cpu_ms == state.total_cpu_ms,
        state.listened_by(b).system_cpus == state.system_cpus,
        state.listened_by(b).reset().callback == Some(b),
{
}

/// What is charged beyond the allowance is more than all of it, as the fraction
/// shows it; of allowances from two to the power of 53 on, fractions lie too
/// close for that.
pub proof fn law_breach_shows_in_fraction<C>(state: ConservationState<C>)
    requires
        0 < state.system_cpus,
        state.allowed() < LIMIT,
    ensures
        state.usage_units() > ResourcePhase::threshold(100) <==> !state.within_limits(),
{
    let (total, allowed) = (state.total_cpu_ms, state.allowed());
    let one = Binary64::one();
    ResourcePhase::lemma_thresholds();
    assert(allowed >= 800);
    if total <= allowed {
        law_ratio_is_monotonic(total, allowed, allowed, allowed);
        law_small_counts_are_exact(allowed, allowed);
        assert(allowed * one == one * allowed) by (nonlinear_arith);
        Binary64::lemma_nearest_scales(one, 1, allowed);
        assert(1 * pow2(1074) == one);
        lemma_exact_multiple(1, 1074);
    } else {
        let n = (allowed + 1) * 0x0010_0000_0000_0000;
        let w = pow2(1022);
        law_ratio_is_monotonic((allowed + 1) as nat, total, allowed, allowed);
        law_small_counts_are_exact((allowed + 1) as nat, allowed);
        lemma_pow2_pos(1022);
        lemma_pow2_adds(52, 1022);
        lemma2_to64_rest();
        assert(n * w == (allowed + 1) * one) by (nonlinear_arith)
            requires
                n == (allowed + 1) * 0x0010_0000_0000_0000,
                one == 0x0010_0000_0000_0000 * w,
        ;
        assert(LEADING * allowed <= n < LIMIT * allowed);
        Binary64::lemma_nearest_of_normalized(n, allowed, 1022);
        let q = (n / allowed) as int;
        let r = (n % allowed) as int;
        lemma_fundamental_div_mod(n as int, allowed as int);
        lemma_mod_bound(n as int, allowed as int);
        assert(q >= LEADING) by (nonlinear_arith)
            requires
                n == allowed * q + r,
                r < allowed,
                n >= LEADING * allowed,
                allowed > 0,
        ;
        assert(q == LEADING ==> r == 0x0010_0000_0000_0000) by (nonlinear_arith)
            requires
                n == allowed * q + r,
                n == (allowed + 1) * 0x0010_0000_0000_0000,
                LEADING == 0x0010_0000_0000_0000,
        ;
        let rounded = Binary64::nearest_integer(n, allowed);
        assert(rounded * w > one) by (nonlinear_arith)
            requires
                rounded > LEADING,
                one == LEADING * w,
                w > 0,
        ;
    }
}

} // verus!
