//! The limit on what all workers use together.
use crate::binary64::Binary64;
use crate::text::decimal_text;
use vstd::prelude::*;
use vstd::string::*;

verus! {

/// What a tracker knows.
pub struct ConservationState<C> {
    /// CPU time charged in the current window (ms), up to what 64 bits hold.
    pub total_cpu_ms: nat,
    /// CPUs of the system.
    pub system_cpus: nat,
    /// Who is told of a breach.
    pub callback: Option<C>,
}

impl<C> ConservationState<C> {
    /// The CPU time that may be charged per window: 80 % of what the system has
    /// in one second (ms).
    pub open spec fn allowed(self) -> nat {
        self.system_cpus * 1_000 * 80 / 100
    }

    /// Whether what was charged is within the allowance.
    pub open spec fn within_limits(self) -> bool {
        self.total_cpu_ms <= self.allowed()
    }

    /// The fraction of the allowance that was charged, in units.
    pub open spec fn usage_units(self) -> nat {
        Binary64::ratio_units(self.total_cpu_ms, self.allowed())
    }

    /// The state after a charge, which is recorded also where it breaches the
    /// limit.
    pub open spec fn charged(self, delta_cpu_ms: nat) -> Self {
        let total = self.total_cpu_ms + delta_cpu_ms;
        ConservationState {
            total_cpu_ms: if total <= u64::MAX {
                total
            } else {
                u64::MAX as nat
            },
            ..self
        }
    }

    /// The state at the start of a window.
    pub open spec fn reset(self) -> Self {
        ConservationState { total_cpu_ms: 0, ..self }
    }

    /// The state after `callback` was registered, in place of any before it.
    pub open spec fn listened_by(self, callback: C) -> Self {
        ConservationState { callback: Some(callback), ..self }
    }

    /// The report of a breach.
    pub open spec fn breach_text(self) -> Seq<char> {
        "conservation breach: "@ + crate::text::digits(self.total_cpu_ms) + "/"@
            + crate::text::digits(self.allowed()) + " allowed CPU ms consumed"@
    }
}

/// Tracks aggregate resource usage across all workers to enforce the
/// conservation invariant: total utilisation must not exceed 80 % of system
/// capacity.
#[derive(Debug)]
pub struct ConservationTracker<C> {
    total_cpu_ms: u64,
    system_cpus: u64,
    on_violation: Option<C>,
}

impl<C> View for ConservationTracker<C> {
    type V = ConservationState<C>;

    closed spec fn view(&self) -> ConservationState<C> {
        ConservationState {
            total_cpu_ms: self.total_cpu_ms as nat,
            system_cpus: self.system_cpus as nat,
            callback: self.on_violation,
        }
    }
}

impl<C> ConservationTracker<C> {
    /// A tracker for a system that can run `parallelism` threads at once; one,
    /// where that is not known.
    pub fn new(parallelism: Option<usize>) -> (result: Self)
        ensures
            result@ == (ConservationState::<C> {
                total_cpu_ms: 0,
                system_cpus: (match parallelism {
                    Some(n) => n as nat,
                    None => 1,
                }),
                callback: None,
            }),
    {
        let cpus: u64 = match parallelism {
            Some(n) => n as u64,
            None => 1,
        };
        ConservationTracker { total_cpu_ms: 0, system_cpus: cpus, on_violation: None }
    }

    /// CPU time charged in the current window (ms).
    pub fn total_cpu_ms(&self) -> (total: u64)
        ensures
            total == self@.total_cpu_ms,
    {
        self.total_cpu_ms
    }

    /// CPUs of the system.
    pub fn system_cpus(&self) -> (cpus: u64)
        ensures
            cpus == self@.system_cpus,
    {
        self.system_cpus
    }

    /// Who is told of a breach.
    pub fn callback(&self) -> (callback: Option<&C>)
        ensures
            match callback {
                Some(c) => self@.callback == Some(*c),
                None => self@.callback is None,
            },
    {
        match &self.on_violation {
            Some(c) => Some(c),
            None => None,
        }
    }

    /// Registers a callback fired when the conservation invariant is breached,
    /// in place of any before it.
    pub fn on_violation(&mut self, cb: C)
        ensures
            final(self)@ == old(self)@.listened_by(cb),
    {
        self.on_violation = Some(cb);
    }

    fn total_allowed(&self) -> (allowed: u128)
        ensures
            allowed == self@.allowed(),
            allowed < crate::binary64::COUNTS,
    {
        self.system_cpus as u128 * 1_000 * 80 / 100
    }

    /// The report of a breach, if there is one.
    pub fn breach(&self) -> (report: Option<String>)
        ensures
            report is None <==> self@.within_limits(),
            report matches Some(text) ==> text@ == self@.breach_text(),
    {
        let total_allowed = self.total_allowed();
        if self.total_cpu_ms as u128 <= total_allowed {
            return None;
        }
        let mut text = "conservation breach: ".to_owned();
        text.append(decimal_text(self.total_cpu_ms as u128).as_str());
        text.append("/");
        text.append(decimal_text(total_allowed).as_str());
        text.append(" allowed CPU ms consumed");
        Some(text)
    }

    /// Accounts `delta_cpu_ms` against the global conservation budget. Returns
    /// the report if conservation is breached, for a host that calls back
    /// itself.
    pub fn charge(&mut self, delta_cpu_ms: u64) -> (report: Option<String>)
        ensures
            final(self)@ == old(self)@.charged(delta_cpu_ms as nat),
            report is None <==> final(self)@.within_limits(),
            report matches Some(text) ==> text@ == final(self)@.breach_text(),
    {
        self.total_cpu_ms = self.total_cpu_ms.saturating_add(delta_cpu_ms);
        self.breach()
    }

    /// Resets counters for a new enforcement window.
    pub fn reset_window(&mut self)
        ensures
            final(self)@ == old(self)@.reset(),
    {
        self.total_cpu_ms = 0;
    }

    /// The fraction of the allowance that was charged.
    pub fn usage_fraction(&self) -> (result: Binary64)
        ensures
            result.is_ratio(),
            result.units() == self@.usage_units(),
    {
        Binary64::ratio_of_counts(self.total_cpu_ms as u128, self.total_allowed())
    }
}

impl<C: Fn(&str)> ConservationTracker<C> {
    /// Accounts `delta_cpu_ms` against the global conservation budget. Returns
    /// `true` if within limits; if conservation is breached, calls back with the
    /// report and returns `false`. The callback has to be ready for that report
    /// alone, and only where there is a breach: it is not called otherwise.
    pub fn charge_cpu(&mut self, delta_cpu_ms: u64) -> (within_limits: bool)
        requires
            old(self)@.callback is Some && !old(self)@.charged(
                delta_cpu_ms as nat,
            ).within_limits() ==> forall|text: &str|
                text@ == old(self)@.charged(delta_cpu_ms as nat).breach_text()
                    ==> #[trigger] call_requires(old(self)@.callback->0, (text,)),
        ensures
            final(self)@ == old(self)@.charged(delta_cpu_ms as nat),
            within_limits == final(self)@.within_limits(),
            within_limits <==> final(self)@.total_cpu_ms <= 800 * final(self)@.system_cpus,
            !within_limits && old(self)@.callback is Some ==> exists|text: &str|
                #[trigger] text@ == final(self)@.breach_text() && call_ensures(
                    old(self)@.callback->0,
                    (text,),
                    (),
                ),
    {
        match self.charge(delta_cpu_ms) {
            None => true,
            Some(report) => {
                match &self.on_violation {
                    Some(cb) => {
                        cb(report.as_str());
                    },
                    None => {},
                }
                false
            },
        }
    }
}

impl ConservationTracker<()> {
    /// This tracker after a charge.
    pub(crate) fn after_charge(&self, delta_cpu_ms: u64) -> (result: Self)
        ensures
            result@ == self@.charged(delta_cpu_ms as nat),
    {
        ConservationTracker {
            total_cpu_ms: self.total_cpu_ms.saturating_add(delta_cpu_ms),
            system_cpus: self.system_cpus,
            on_violation: self.on_violation,
        }
    }
}

} // verus!
