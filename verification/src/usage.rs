//! What a worker has used.
use crate::binary64::Binary64;
use crate::budget::ResourceBudget;
use crate::phase::ResourcePhase;
use crate::text::percentage_text;
use vstd::prelude::*;
use vstd::string::*;

verus! {

/// Live counters for a single worker.
#[derive(Debug)]
pub struct WorkerUsage {
    /// Peak V8 heap usage seen (bytes).
    pub peak_heap: u64,
    /// Accumulated CPU time (ms).
    pub cpu_ms: u64,
    /// Bytes sent + received on network.
    pub network_bytes: u64,
    /// Currently open file handles.
    pub open_files: u32,
    /// Budget assigned to this worker.
    pub budget: ResourceBudget,
    /// Phase last computed (avoids repeated log spam).
    pub last_phase: ResourcePhase,
}

impl Default for WorkerUsage {
    fn default() -> (result: Self)
        ensures
            result == Self::idle(result.budget),
            result.budget.memory == 256 * 1024 * 1024,
            result.budget.cpu == 1_000,
            result.budget.network == 10 * 1024 * 1024,
            result.budget.file_handles == 256,
    {
        WorkerUsage {
            peak_heap: 0,
            cpu_ms: 0,
            network_bytes: 0,
            open_files: 0,
            budget: Default::default(),
            last_phase: Default::default(),
        }
    }
}

impl WorkerUsage {
    /// Counters that show no use of `budget` yet.
    pub open spec fn idle(budget: ResourceBudget) -> Self {
        WorkerUsage {
            peak_heap: 0,
            cpu_ms: 0,
            network_bytes: 0,
            open_files: 0,
            budget,
            last_phase: ResourcePhase::Normal,
        }
    }

    pub open spec fn memory_units(self) -> nat {
        Binary64::ratio_units(self.peak_heap as nat, self.budget.memory as nat)
    }

    pub open spec fn cpu_units(self) -> nat {
        Binary64::ratio_units(self.cpu_ms as nat, self.budget.cpu as nat)
    }

    pub open spec fn network_units(self) -> nat {
        Binary64::ratio_units(self.network_bytes as nat, self.budget.network as nat)
    }

    pub open spec fn file_units(self) -> nat {
        Binary64::ratio_units(self.open_files as nat, self.budget.file_handles as nat)
    }

    /// The highest fraction across all dimensions, in units.
    pub open spec fn max_units(self) -> nat {
        let (m, c) = (self.memory_units(), self.cpu_units());
        let (n, f) = (self.network_units(), self.file_units());
        let a = if m >= c { m } else { c };
        let b = if n >= f { n } else { f };
        if a >= b { a } else { b }
    }

    /// The phase that current usage calls for.
    pub open spec fn phase(self) -> ResourcePhase {
        ResourcePhase::of_units(self.max_units())
    }

    /// These counters in a new enforcement window: what is counted per window
    /// starts anew.
    pub open spec fn in_new_window(self) -> Self {
        WorkerUsage { cpu_ms: 0, network_bytes: 0, ..self }
    }

    /// The summary of the four fractions.
    pub open spec fn summary_text(self) -> Seq<char> {
        "mem="@ + crate::text::percentage(self.memory_units())
            + "% cpu="@ + crate::text::percentage(self.cpu_units())
            + "% net="@ + crate::text::percentage(self.network_units())
            + "% files="@ + crate::text::percentage(self.file_units())
            + "%"@
    }

    /// Counters for a worker that has used nothing of `budget`.
    pub fn new(budget: ResourceBudget) -> (result: Self)
        ensures
            result == Self::idle(budget),
    {
        WorkerUsage { budget, ..Default::default() }
    }

    /// The fraction of the memory budget consumed.
    pub fn memory_ratio(&self) -> (result: Binary64)
        ensures
            result.is_ratio(),
            result.units() == self.memory_units(),
    {
        Binary64::ratio(self.peak_heap, self.budget.memory)
    }

    /// The fraction of the CPU budget consumed in the current window.
    pub fn cpu_ratio(&self) -> (result: Binary64)
        ensures
            result.is_ratio(),
            result.units() == self.cpu_units(),
    {
        Binary64::ratio(self.cpu_ms, self.budget.cpu)
    }

    /// The fraction of the network budget consumed.
    pub fn network_ratio(&self) -> (result: Binary64)
        ensures
            result.is_ratio(),
            result.units() == self.network_units(),
    {
        Binary64::ratio(self.network_bytes, self.budget.network)
    }

    /// The fraction of the file-handle budget consumed.
    pub fn file_ratio(&self) -> (result: Binary64)
        ensures
            result.is_ratio(),
            result.units() == self.file_units(),
    {
        Binary64::ratio(self.open_files as u64, self.budget.file_handles)
    }

    /// The highest fraction across all dimensions.
    pub fn max_ratio(&self) -> (result: Binary64)
        ensures
            result.is_ratio(),
            result.units() == self.max_units(),
    {
        self.memory_ratio().max(self.cpu_ratio()).max(self.network_ratio()).max(self.file_ratio())
    }

    /// Whether new allocations are to be throttled: usage calls for the degraded
    /// phase, or for more.
    pub fn is_throttled(&self) -> (throttled: bool)
        ensures
            throttled == (self.phase().severity() >= ResourcePhase::Degraded.severity()),
    {
        match ResourcePhase::from_ratio(self.max_ratio()) {
            ResourcePhase::Normal | ResourcePhase::Warning => false,
            ResourcePhase::Degraded | ResourcePhase::HardStop => true,
        }
    }

    /// Starts a new enforcement window.
    pub fn start_window(&mut self)
        ensures
            *final(self) == old(self).in_new_window(),
    {
        self.cpu_ms = 0;
        self.network_bytes = 0;
    }

    /// Short human-readable summary.
    pub fn summary(&self) -> (text: String)
        ensures
            text@ == self.summary_text(),
    {
        let mut text = "mem=".to_owned();
        text.append(percentage_text(self.memory_ratio()).as_str());
        text.append("% cpu=");
        text.append(percentage_text(self.cpu_ratio()).as_str());
        text.append("% net=");
        text.append(percentage_text(self.network_ratio()).as_str());
        text.append("% files=");
        text.append(percentage_text(self.file_ratio()).as_str());
        text.append("%");
        text
    }
}

} // verus!
