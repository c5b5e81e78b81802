//! What is to be done about a single worker.
use crate::binary64::Binary64;
use crate::notice::{Notice, NoticeLevel};
use crate::phase::ResourcePhase;
use crate::text::{decimal_text, percentage_text};
use crate::usage::WorkerUsage;
use vstd::prelude::*;
use vstd::string::*;

verus! {

impl WorkerUsage {
    /// Whether the worker has to be stopped: a budget is spent.
    pub open spec fn due_for_stop(self) -> bool {
        self.max_units() >= ResourcePhase::threshold(100)
    }

    /// These counters after an inspection, which records the phase.
    pub open spec fn inspected(self) -> Self {
        WorkerUsage { last_phase: self.phase(), ..self }
    }

    /// The notice that a worker under `label` has to be stopped.
    pub open spec fn stop_text(self, label: Seq<char>) -> Seq<char> {
        "[resource-guardian] HARD STOP '"@ + label + "' — "@ + self.summary_text()
    }

    /// The notice that a worker under `label` has entered a phase.
    pub open spec fn phase_text(self, phase: Seq<char>, label: Seq<char>) -> Seq<char> {
        "[resource-guardian] "@ + phase + " '"@ + label + "' at "@ + crate::text::percentage(
            self.max_units(),
        ) + "% — "@ + self.summary_text()
    }

    /// What is said of a worker under `label`: that it has reached a phase beyond
    /// the one that was recorded of it.
    pub open spec fn notice_of(self, label: Seq<char>) -> Option<(NoticeLevel, Seq<char>)> {
        if self.phase().severity() <= self.last_phase.severity() {
            None
        } else {
            match self.phase() {
                ResourcePhase::HardStop => Some((NoticeLevel::Error, self.stop_text(label))),
                ResourcePhase::Degraded => Some(
                    (NoticeLevel::Warn, self.phase_text("DEGRADED"@, label)),
                ),
                ResourcePhase::Warning => Some(
                    (NoticeLevel::Warn, self.phase_text("WARNING"@, label)),
                ),
                ResourcePhase::Normal => None,
            }
        }
    }

    fn stop_notice(&self, label: &String) -> (notice: Notice)
        ensures
            notice@ == (NoticeLevel::Error, self.stop_text(label@)),
    {
        let mut message = "[resource-guardian] HARD STOP '".to_owned();
        message.append(label.as_str());
        message.append("' — ");
        message.append(self.summary().as_str());
        Notice { level: NoticeLevel::Error, message }
    }

    fn phase_notice(&self, phase: &str, label: &String, ratio: Binary64) -> (notice: Notice)
        requires
            ratio.is_ratio(),
            ratio.units() == self.max_units(),
        ensures
            notice@ == (NoticeLevel::Warn, self.phase_text(phase@, label@)),
    {
        let mut message = "[resource-guardian] ".to_owned();
        message.append(phase);
        message.append(" '");
        message.append(label.as_str());
        message.append("' at ");
        message.append(percentage_text(ratio).as_str());
        message.append("% — ");
        message.append(self.summary().as_str());
        Notice { level: NoticeLevel::Warn, message }
    }

    /// The phase that the worker under `label` is in, and what is said of it. The
    /// worker has to be stopped where that is `HardStop`.
    pub fn inspect(&self, label: &String) -> (verdict: (ResourcePhase, Option<Notice>))
        ensures
            verdict.0 == self.phase(),
            verdict.0 == ResourcePhase::HardStop <==> self.due_for_stop(),
            verdict.1 is Some <==> self.notice_of(label@) is Some,
            verdict.1 matches Some(notice) ==> Some(notice@) == self.notice_of(label@),
    {
        let ratio = self.max_ratio();
        let phase = ResourcePhase::from_ratio(ratio);
        let notice = match (phase, self.last_phase) {
            (ResourcePhase::Normal, _) => None,
            (ResourcePhase::Warning, ResourcePhase::Normal) => Some(
                self.phase_notice("WARNING", label, ratio),
            ),
            (ResourcePhase::Degraded, ResourcePhase::Normal | ResourcePhase::Warning) => Some(
                self.phase_notice("DEGRADED", label, ratio),
            ),
            // Already flagged: the host should have terminated the worker.
            (ResourcePhase::HardStop, ResourcePhase::HardStop) => None,
            (ResourcePhase::HardStop, _) => Some(self.stop_notice(label)),
            _ => None,
        };
        (phase, notice)
    }

    /// Whether the heap may not grow any more: its peak is over the budget.
    pub open spec fn heap_blocked(self) -> bool {
        self.peak_heap > self.budget.memory
    }

    /// The heap limit that follows `current`: the same where growth is blocked,
    /// else twice as much, up to the budget and to what the machine can address.
    pub open spec fn next_heap_limit(self, current: usize) -> int {
        let doubled = 2 * current;
        let budget = self.budget.memory as int;
        let capped = if doubled <= budget {
            doubled
        } else {
            budget
        };
        if self.heap_blocked() {
            current as int
        } else if capped <= usize::MAX {
            capped
        } else {
            usize::MAX as int
        }
    }

    /// What is said when the heap is near the limit `current`.
    pub open spec fn heap_notice(self, current: usize) -> Option<(NoticeLevel, Seq<char>)> {
        if self.heap_blocked() {
            Some(
                (
                    NoticeLevel::Warn,
                    "[resource-guardian] near-heap-limit: peak="@ + crate::text::digits(
                        self.peak_heap as nat,
                    ) + " budget="@ + crate::text::digits(self.budget.memory as nat)
                        + " — blocking growth"@,
                ),
            )
        } else if self.next_heap_limit(current) == self.budget.memory {
            Some(
                (
                    NoticeLevel::Info,
                    "[resource-guardian] near-heap-limit: capping at budget "@
                        + crate::text::digits(self.budget.memory as nat),
                ),
            )
        } else {
            None
        }
    }

    /// The heap limit that follows `current`, and what is said of it.
    pub fn near_heap_limit(&self, current: usize) -> (answer: (usize, Option<Notice>))
        ensures
            answer.0 == self.next_heap_limit(current),
            answer.1 is Some <==> self.heap_notice(current) is Some,
            answer.1 matches Some(notice) ==> Some(notice@) == self.heap_notice(current),
    {
        if self.peak_heap > self.budget.memory {
            let mut message = "[resource-guardian] near-heap-limit: peak=".to_owned();
            message.append(decimal_text(self.peak_heap as u128).as_str());
            message.append(" budget=");
            message.append(decimal_text(self.budget.memory as u128).as_str());
            message.append(" — blocking growth");
            return (current, Some(Notice { level: NoticeLevel::Warn, message }));
        }
        let budget: u128 = self.budget.memory as u128;
        let doubled: u128 = 2 * (current as u128);
        let machine: u128 = usize::MAX as u128;
        let mut limit: u128 = doubled;
        if budget < limit {
            limit = budget;
        }
        if machine < limit {
            limit = machine;
        }
        if limit == budget {
            let mut message = "[resource-guardian] near-heap-limit: capping at budget ".to_owned();
            message.append(decimal_text(budget).as_str());
            return (limit as usize, Some(Notice { level: NoticeLevel::Info, message }));
        }
        (limit as usize, None)
    }
}

} // verus!
