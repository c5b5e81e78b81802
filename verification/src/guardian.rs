//! The top-level coordinator.
use crate::binary64::{Binary64, ONE};
use crate::budget::ResourceBudget;
use crate::conservation::{ConservationState, ConservationTracker};
use crate::notice::{Notice, NoticeLevel};
use crate::phase::ResourcePhase;
use crate::state::GuardianState;
use crate::text::percentage_text;
use crate::usage::WorkerUsage;
use vstd::prelude::*;
use vstd::string::*;

verus! {

/// The key to a worker's counters in the guardian that made it. The counters
/// stay there until the worker is unregistered and the handle is released.
#[derive(Debug)]
pub struct WorkerHandle {
    cell: usize,
}

impl View for WorkerHandle {
    type V = int;

    closed spec fn view(&self) -> int {
        self.cell as int
    }
}

/// The texts of a list of strings.
pub open spec fn texts(list: Seq<String>) -> Seq<Seq<char>> {
    list.map_values(|s: String| s@)
}

/// The contents of a list of notices.
pub open spec fn contents(list: Seq<Notice>) -> Seq<(NoticeLevel, Seq<char>)> {
    list.map_values(|n: Notice| n@)
}

#[derive(Debug)]
struct Registration {
    label: String,
    cell: usize,
}

/// The top-level guardian instance. One per runtime (shared across workers).
#[derive(Debug)]
pub struct ResourceGuardian {
    workers: Vec<Registration>,
    cells: Vec<WorkerUsage>,
    held: Vec<bool>,
    conservation: ConservationTracker<()>,
    global_enabled: bool,
    /// Enforcement window (ms). Counters are reset after each window.
    window_ms: u64,
    /// How much of the current window has passed (ms).
    elapsed_ms: u64,
}

closed spec fn registry_of(workers: Seq<Registration>) -> Seq<(Seq<char>, int)> {
    workers.map_values(|r: Registration| (r.label@, r.cell as int))
}

impl View for ResourceGuardian {
    type V = GuardianState;

    closed spec fn view(&self) -> GuardianState {
        GuardianState {
            registry: registry_of(self.workers@),
            cells: self.cells@,
            held: self.held@,
            conservation: self.conservation@,
            enabled: self.global_enabled,
            window_ms: self.window_ms as nat,
            elapsed_ms: self.elapsed_ms as nat,
        }
    }
}

impl ResourceGuardian {
    /// A new guardian with a 5-second enforcement window, for a system that can
    /// run `parallelism` threads at once; one, where that is not known.
    pub fn new(parallelism: Option<usize>) -> (result: Self)
        ensures
            result@.wf(),
            result@ == (GuardianState {
                registry: Seq::empty(),
                cells: Seq::empty(),
                held: Seq::empty(),
                conservation: (ConservationState {
                    total_cpu_ms: 0,
                    system_cpus: (match parallelism {
                        Some(n) => n as nat,
                        None => 1,
                    }),
                    callback: None,
                }),
                enabled: true,
                window_ms: 5_000,
                elapsed_ms: 0,
            }),
    {
        let result = ResourceGuardian {
            workers: Vec::new(),
            cells: Vec::new(),
            held: Vec::new(),
            conservation: ConservationTracker::new(parallelism),
            global_enabled: true,
            window_ms: 5_000,
            elapsed_ms: 0,
        };
        assert(result@.registry =~= Seq::empty());
        assert(result@.cells =~= Seq::empty());
        assert(result@.held =~= Seq::empty());
        result
    }

    /// This guardian with an enforcement window of `ms`.
    pub fn with_window_ms(self, ms: u64) -> (result: Self)
        ensures
            result@ == (GuardianState { window_ms: ms as nat, ..self@ }),
    {
        let mut guardian = self;
        guardian.window_ms = ms;
        guardian
    }

    /// The enforcement window (ms).
    pub fn window_ms(&self) -> (ms: u64)
        ensures
            ms == self@.window_ms,
    {
        self.window_ms
    }

    /// Enables or disables the guardian globally.
    pub fn set_enabled(&mut self, enabled: bool)
        ensures
            final(self)@ == (GuardianState { enabled, ..old(self)@ }),
    {
        self.global_enabled = enabled;
    }

    pub fn is_enabled(&self) -> (enabled: bool)
        ensures
            enabled == self@.enabled,
    {
        self.global_enabled
    }

    /// The counters behind `handle`.
    pub fn usage(&self, handle: &WorkerHandle) -> (usage: &WorkerUsage)
        requires
            self@.holds(handle@),
        ensures
            *usage == self@.cells[handle@],
    {
        &self.cells[handle.cell]
    }

    /// The counters behind `handle`, to be changed.
    pub fn usage_mut(&mut self, handle: &WorkerHandle) -> (usage: &mut WorkerUsage)
        requires
            old(self)@.holds(handle@),
        ensures
            *usage == old(self)@.cells[handle@],
            final(self)@ == old(self)@.updated(handle@, *final(usage)),
    {
        &mut self.cells[handle.cell]
    }

    /// Gives up a handle. Its counters go with it, once the worker is
    /// unregistered too.
    pub fn release(&mut self, handle: WorkerHandle)
        requires
            old(self)@.wf(),
            old(self)@.holds(handle@),
        ensures
            final(self)@ == old(self)@.released(handle@),
            final(self)@.wf(),
    {
        self.held.set(handle.cell, false);
    }

    /// The position of the worker under `label`.
    fn position(&self, label: &String) -> (position: Option<usize>)
        ensures
            match position {
                Some(i) => i < self@.registry.len() && self@.registry[i as int].0 == label@,
                None => forall|i: int|
                    0 <= i < self@.registry.len() ==> (#[trigger] self@.registry[i]).0 != label@,
            },
    {
        let mut i: usize = 0;
        while i < self.workers.len()
            invariant
                i <= self.workers@.len(),
                self@.registry.len() == self.workers@.len(),
                forall|j: int| 0 <= j < i ==> (#[trigger] self@.registry[j]).0 != label@,
            decreases self.workers@.len() - i,
        {
            assert(self@.registry[i as int].0 == self.workers@[i as int].label@);
            if self.workers[i].label == *label {
                return Some(i);
            }
            i = i + 1;
        }
        None
    }

    /// Removes the worker under `label` from the registry.
    fn remove(&mut self, label: &String)
        requires
            old(self)@.wf(),
        ensures
            final(self)@ == old(self)@.unregistered(label@),
            final(self)@.wf(),
            !final(self)@.tracks(label@),
    {
        match self.position(label) {
            Some(i) => {
                proof {
                    self@.lemma_without_one(label@, i as int);
                }
                self.workers.remove(i);
                assert(registry_of(self.workers@) =~= old(self)@.registry.remove(i as int));
            },
            None => {
                proof {
                    crate::state::lemma_without_none(self@.registry, label@);
                }
            },
        }
        proof {
            old(self)@.lemma_unregistered(label@);
        }
    }

    /// Whether the counters in `cell` are those of a registered worker.
    fn in_registry(&self, cell: usize) -> (found: bool)
        ensures
            found == self@.registers(cell as int),
    {
        let mut i: usize = 0;
        while i < self.workers.len()
            invariant
                i <= self.workers@.len(),
                self@.registry.len() == self.workers@.len(),
                forall|j: int| 0 <= j < i ==> (#[trigger] self@.registry[j]).1 != cell,
            decreases self.workers@.len() - i,
        {
            assert(self@.registry[i as int].1 == self.workers@[i as int].cell);
            if self.workers[i].cell == cell {
                return true;
            }
            i = i + 1;
        }
        false
    }

    /// A cell for the counters of a new worker.
    fn room(&self) -> (cell: usize)
        requires
            self@.wf(),
        ensures
            self@.has_room_in(cell as int),
    {
        let mut cell: usize = 0;
        while cell < self.cells.len()
            invariant
                cell <= self.cells@.len(),
                self@.wf(),
                forall|c: int| 0 <= c < cell ==> !#[trigger] self@.is_free(c),
            decreases self.cells@.len() - cell,
        {
            if !self.held[cell] && !self.in_registry(cell) {
                return cell;
            }
            cell = cell + 1;
        }
        cell
    }

    /// Registers a new worker with the given budget.
    pub fn register_worker(&mut self, label: String, budget: ResourceBudget) -> (handle:
        WorkerHandle)
        requires
            old(self)@.wf(),
        ensures
            final(self)@ == old(self)@.registered(label@, handle@, WorkerUsage::idle(budget)),
            final(self)@.wf(),
            final(self)@.holds(handle@),
            final(self)@.cells[handle@] == WorkerUsage::idle(budget),
            old(self)@.unregistered(label@).has_room_in(handle@),
    {
        self.remove(&label);
        let cell = self.room();
        if cell < self.cells.len() {
            self.cells.set(cell, WorkerUsage::new(budget));
            self.held.set(cell, true);
        } else {
            self.cells.push(WorkerUsage::new(budget));
            self.held.push(true);
        }
        let ghost before = self.workers@;
        self.workers.push(Registration { label, cell });
        proof {
            assert(registry_of(self.workers@) =~= registry_of(before).push((label@, cell as int)));
            old(self)@.lemma_registered(label@, cell as int, WorkerUsage::idle(budget));
        }
        WorkerHandle { cell }
    }

    /// Unregisters a worker.
    pub fn unregister_worker(&mut self, label: &str)
        requires
            old(self)@.wf(),
        ensures
            final(self)@ == old(self)@.unregistered(label@),
            final(self)@.wf(),
            !final(self)@.tracks(label@),
    {
        let label: String = label.to_owned();
        self.remove(&label);
    }

    /// The system-wide limit, and all that counts against it.
    fn aggregate(&self) -> (result: ConservationTracker<()>)
        requires
            self@.wf(),
        ensures
            result@ == self@.aggregate(),
    {
        let ghost registry = self@.registry;
        let mut sum: u64 = 0;
        let mut i: usize = 0;
        assert(registry.take(0) =~= Seq::empty());
        while i < self.workers.len()
            invariant
                i <= self.workers@.len(),
                self@.wf(),
                registry == self@.registry,
                registry.len() == self.workers@.len(),
                ({
                    let exact = crate::state::cpu_among(registry.take(i as int), self@.cells);
                    sum == if exact <= u64::MAX {
                        exact
                    } else {
                        u64::MAX as nat
                    }
                }),
            decreases self.workers@.len() - i,
        {
            assert(registry[i as int].1 == self.workers@[i as int].cell);
            proof {
                crate::state::lemma_among_next(registry, self@.cells, i as int);
            }
            sum = sum.saturating_add(self.cells[self.workers[i].cell].cpu_ms);
            i = i + 1;
        }
        assert(registry.take(i as int) =~= registry);
        self.conservation.after_charge(sum)
    }

    /// Accounts `delta_cpu_ms` against the global conservation budget, beside
    /// what the counters of the workers show. Returns the report if all of it
    /// together breaches conservation.
    pub fn charge_cpu(&mut self, delta_cpu_ms: u64) -> (report: Option<String>)
        requires
            old(self)@.wf(),
        ensures
            final(self)@ == (GuardianState {
                conservation: old(self)@.conservation.charged(delta_cpu_ms as nat),
                ..old(self)@
            }),
            final(self)@.wf(),
            report is None <==> final(self)@.aggregate().within_limits(),
            report matches Some(text) ==> text@ == final(self)@.aggregate().breach_text(),
    {
        let _ = self.conservation.charge(delta_cpu_ms);
        self.aggregate().breach()
    }

    /// The fraction of what all workers together may use that is used up.
    pub fn conservation_fraction(&self) -> (result: Binary64)
        requires
            self@.wf(),
        ensures
            result.is_ratio(),
            result.units() == self@.aggregate().usage_units(),
    {
        self.aggregate().usage_fraction()
    }

    /// Lets `elapsed_ms` pass. Returns whether a window ended; then counters are
    /// reset.
    pub fn elapse(&mut self, elapsed_ms: u64) -> (ended: bool)
        requires
            old(self)@.wf(),
        ensures
            final(self)@ == old(self)@.elapsed(elapsed_ms as nat),
            final(self)@.wf(),
            ended == old(self)@.window_ends_within(elapsed_ms as nat),
    {
        let passed: u128 = self.elapsed_ms as u128 + elapsed_ms as u128;
        if passed < self.window_ms as u128 {
            self.elapsed_ms = passed as u64;
            return false;
        }
        let remainder: u64 = if self.window_ms == 0 {
            0
        } else {
            (passed % (self.window_ms as u128)) as u64
        };
        let ghost start = self@;
        let mut i: usize = 0;
        while i < self.workers.len()
            invariant
                i <= self.workers@.len(),
                start.wf(),
                start.registry.len() == self.workers@.len(),
                self@ == (GuardianState { cells: self.cells@, ..start }),
                self.cells@.len() == start.cells.len(),
                forall|c: int|
                    0 <= c < start.cells.len() ==> #[trigger] self.cells@[c]
                        == if crate::state::registered_among(start.registry.take(i as int), c) {
                        start.cells[c].in_new_window()
                    } else {
                        start.cells[c]
                    },
            decreases self.workers@.len() - i,
        {
            let cell = self.workers[i].cell;
            assert(start.registry[i as int].1 == cell);
            proof {
                crate::state::lemma_among_next(start.registry, start.cells, i as int);
            }
            self.cells[cell].start_window();
            i = i + 1;
        }
        assert(start.registry.take(i as int) =~= start.registry);
        self.conservation.reset_window();
        self.elapsed_ms = remainder;
        assert(self@.cells =~= start.elapsed(elapsed_ms as nat).cells);
        true
    }

    /// Checks all registered workers and records the phase of each. Returns the
    /// labels of those in hard stop, which the host has to terminate, and what
    /// is to be logged; does nothing where the guardian is disabled.
    pub fn enforce_with_notices(&mut self) -> (outcome: (Vec<String>, Vec<Notice>))
        requires
            old(self)@.wf(),
        ensures
            final(self)@.wf(),
            old(self)@.enabled ==> {
                &&& texts(outcome.0@) == old(self)@.due()
                &&& contents(outcome.1@) == old(self)@.notices()
                &&& final(self)@ == old(self)@.inspected()
            },
            !old(self)@.enabled ==> {
                &&& outcome.0@.len() == 0
                &&& outcome.1@.len() == 0
                &&& final(self)@ == old(self)@
            },
    {
        let mut to_stop: Vec<String> = Vec::new();
        let mut notices: Vec<Notice> = Vec::new();
        if !self.global_enabled {
            return (to_stop, notices);
        }
        let fraction = self.conservation_fraction();
        let ghost start = self@;
        let ghost registry = self@.registry;
        proof {
            assert(registry.take(0) =~= Seq::empty());
            crate::state::lemma_among_none(registry.take(0), start.cells);
        }
        let mut i: usize = 0;
        while i < self.workers.len()
            invariant
                i <= self.workers@.len(),
                start.wf(),
                registry == start.registry,
                registry.len() == self.workers@.len(),
                self@ == (GuardianState { cells: self.cells@, ..start }),
                self.cells@.len() == start.cells.len(),
                forall|c: int|
                    0 <= c < start.cells.len() ==> #[trigger] self.cells@[c]
                        == if crate::state::registered_among(registry.take(i as int), c) {
                        start.cells[c].inspected()
                    } else {
                        start.cells[c]
                    },
                texts(to_stop@) == crate::state::due_among(registry.take(i as int), start.cells),
                contents(notices@) == crate::state::notices_among(
                    registry.take(i as int),
                    start.cells,
                ),
            decreases self.workers@.len() - i,
        {
            let cell = self.workers[i].cell;
            let label = self.workers[i].label.clone();
            assert(registry[i as int] == (label@, cell as int));
            assert(!crate::state::registered_among(registry.take(i as int), cell as int)) by {
                if crate::state::registered_among(registry.take(i as int), cell as int) {
                    let k = choose|k: int|
                        0 <= k < registry.take(i as int).len() && (#[trigger] registry.take(
                            i as int,
                        )[k]).1 == cell;
                    assert(registry[k].1 != registry[i as int].1);
                }
            }
            let (phase, notice) = self.cells[cell].inspect(&label);
            proof {
                crate::state::lemma_among_next(registry, start.cells, i as int);
            }
            let ghost stopped = to_stop@;
            let ghost said = notices@;
            match phase {
                ResourcePhase::HardStop => {
                    to_stop.push(label);
                    assert(texts(to_stop@) =~= texts(stopped).push(label@));
                },
                _ => {},
            }
            if let Some(line) = notice {
                notices.push(line);
                assert(contents(notices@) =~= contents(said).push(line@));
            }
            self.cells[cell].last_phase = phase;
            i = i + 1;
        }
        assert(registry.take(i as int) =~= registry);
        assert(self@ =~= start.inspected());
        proof {
            let one = Binary64 { bits: ONE };
            one.lemma_order(fraction);
            ResourcePhase::lemma_thresholds();
        }
        let ghost said = notices@;
        if fraction.bits > ONE {
            let mut message = "[resource-guardian] CONSERVATION: system CPU at ".to_owned();
            message.append(percentage_text(fraction).as_str());
            message.append("% of 80% target");
            notices.push(Notice { level: NoticeLevel::Warn, message });
        }
        assert(contents(notices@) =~= contents(said) + start.conservation_notices());
        (to_stop, notices)
    }

    /// Checks all registered workers, records the phase of each, and returns the
    /// labels of those in hard stop, which the host has to terminate. The notices
    /// of this check are dropped, and as the phases are recorded, a later call does
    /// not have them either: a host that logs calls `enforce_with_notices` instead.
    pub fn enforce(&mut self) -> (to_stop: Vec<String>)
        requires
            old(self)@.wf(),
        ensures
            final(self)@.wf(),
            old(self)@.enabled ==> {
                &&& texts(to_stop@) == old(self)@.due()
                &&& final(self)@ == old(self)@.inspected()
            },
            !old(self)@.enabled ==> {
                &&& to_stop@.len() == 0
                &&& final(self)@ == old(self)@
            },
    {
        self.enforce_with_notices().0
    }

    /// The answer to V8's near-heap-limit callback: the limit that follows
    /// `current_heap_limit`. What is to be logged comes from `near_heap_limit`.
    pub fn v8_near_heap_limit_callback(
        usage: &WorkerUsage,
        current_heap_limit: usize,
        _initial_heap_limit: usize,
    ) -> (limit: usize)
        ensures
            limit == usage.next_heap_limit(current_heap_limit),
    {
        usage.near_heap_limit(current_heap_limit).0
    }

    /// A human-readable summary of all tracked workers.
    pub fn status(&self) -> (text: String)
        requires
            self@.wf(),
        ensures
            text@ == self@.status_text(),
    {
        if self.workers.len() == 0 {
            return "resource-guardian: no workers tracked".to_owned();
        }
        let ghost registry = self@.registry;
        let mut text = "resource-guardian status:".to_owned();
        let mut i: usize = 0;
        assert(text@ =~= "resource-guardian status:"@ + crate::state::lines_among(
            registry.take(0),
            self@.cells,
        ));
        while i < self.workers.len()
            invariant
                i <= self.workers@.len(),
                self@.wf(),
                registry == self@.registry,
                registry.len() == self.workers@.len(),
                text@ == "resource-guardian status:"@ + crate::state::lines_among(
                    registry.take(i as int),
                    self@.cells,
                ),
            decreases self.workers@.len() - i,
        {
            let worker = &self.workers[i];
            assert(registry[i as int] == (worker.label@, worker.cell as int));
            proof {
                crate::state::lemma_among_next(registry, self@.cells, i as int);
            }
            text.append("\n  ");
            text.append(worker.label.as_str());
            text.append("  ");
            text.append(self.cells[worker.cell].summary().as_str());
            assert(text@ =~= "resource-guardian status:"@ + crate::state::lines_among(
                registry.take(i + 1),
                self@.cells,
            ));
            i = i + 1;
        }
        assert(registry.take(i as int) =~= registry);
        text.append("\n  conservation: CPU at ");
        text.append(percentage_text(self.conservation_fraction()).as_str());
        text.append("% of 80% target");
        text
    }
}

} // verus!
