//! What holds of the limit on all workers, in terms of what was charged and of the
//! CPUs there are.
use crate::conservation::ConservationState;
use vstd::prelude::*;

verus! {

/// All workers may use 80 % of the CPU time that the system has in one second: 800
/// ms for every CPU.
pub proof fn law_limit_is_80_percent_of_all_cpus<C>(state: ConservationState<C>)
    ensures
        state.allowed() == 800 * state.system_cpus,
        state.within_limits() <==> 100 * state.total_cpu_ms <= 80 * (1_000 * state.system_cpus),
        state.within_limits() <==> state.total_cpu_ms <= 800 * state.system_cpus,
{
}

/// A charge is within limits exactly when all that was charged comes to no more
/// than 800 ms for every CPU.
pub proof fn law_charges_are_held_to_the_limit<C>(state: ConservationState<C>, delta: nat)
    requires
        800 * state.system_cpus < u64::MAX,
    ensures
        state.charged(delta).within_limits() <==> state.total_cpu_ms + delta <= 800
            * state.system_cpus,
{
}

/// A charge adds to the total, as far as 64 bits hold it, and changes nothing else.
pub proof fn law_charge_adds_to_the_total<C>(state: ConservationState<C>, delta: nat)
    ensures
        state.total_cpu_ms + delta <= u64::MAX ==> state.charged(delta).total_cpu_ms
            == state.total_cpu_ms + delta,
        state.total_cpu_ms + delta > u64::MAX ==> state.charged(delta).total_cpu_ms == u64::MAX,
        state.charged(delta).system_cpus == state.system_cpus,
        state.charged(delta).callback == state.callback,
{
}

/// A new window starts with nothing charged, on the same system and with the same
/// callback.
pub proof fn law_reset_only_clears_the_total<C>(state: ConservationState<C>)
    ensures
        state.reset().total_cpu_ms == 0,
        state.reset().system_cpus == state.system_cpus,
        state.reset().callback == state.callback,
{
}

/// A callback is registered as it is given, and nothing that was charged changes.
pub proof fn law_callback_is_kept<C>(state: ConservationState<C>, callback: C)
    ensures
        state.listened_by(callback).callback == Some(callback),
        state.listened_by(callback).total_cpu_ms == state.total_cpu_ms,
        state.listened_by(callback).system_cpus == state.system_cpus,
{
}

/// The fraction is of what was charged over 800 ms for every CPU; on no CPUs there
/// is none.
pub proof fn law_usage_is_a_fraction_of_the_limit<C>(state: ConservationState<C>)
    requires
        state.system_cpus <= u64::MAX,
    ensures
        crate::laws::numbers::is_fraction(
            state.usage_units(),
            state.total_cpu_ms,
            800 * state.system_cpus,
        ),
        crate::laws::texts::shows_percentage(
            crate::text::percentage(state.usage_units()),
            state.total_cpu_ms,
            800 * state.system_cpus,
        ),
        state.system_cpus == 0 ==> state.usage_units() == 0,
{
    law_limit_is_80_percent_of_all_cpus(state);
    crate::laws::numbers::law_ratio_is_the_quotient(state.total_cpu_ms, 800 * state.system_cpus);
    crate::laws::texts::law_percentages_show_the_fraction(
        state.total_cpu_ms,
        800 * state.system_cpus,
    );
}

/// A breach is reported with what was charged and what was allowed.
pub proof fn law_breach_gives_the_numbers<C>(state: ConservationState<C>) -> (numbers: (
    Seq<char>,
    Seq<char>,
))
    ensures
        state.breach_text() == "conservation breach: "@ + numbers.0 + "/"@ + numbers.1
            + " allowed CPU ms consumed"@,
        crate::laws::texts::is_decimal(numbers.0),
        crate::laws::texts::read_decimal(numbers.0) == state.total_cpu_ms,
        crate::laws::texts::is_decimal(numbers.1),
        crate::laws::texts::read_decimal(numbers.1) == 800 * state.system_cpus,
{
    law_limit_is_80_percent_of_all_cpus(state);
    crate::laws::texts::law_decimals_read_back(state.total_cpu_ms);
    crate::laws::texts::law_decimals_read_back(800 * state.system_cpus);
    (
        crate::text::digits(state.total_cpu_ms),
        crate::text::digits(800 * state.system_cpus),
    )
}

} // verus!
