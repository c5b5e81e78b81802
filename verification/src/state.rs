//! What a guardian knows, and how it changes.
use crate::conservation::ConservationState;
use crate::notice::NoticeLevel;
use crate::phase::ResourcePhase;
use crate::usage::WorkerUsage;
use vstd::prelude::*;

verus! {

/// What a guardian knows.
#[verifier::ext_equal]
pub struct GuardianState {
    /// The registered workers: a label, and the cell that holds its counters.
    pub registry: Seq<(Seq<char>, int)>,
    /// The counters of all workers that are registered or held.
    pub cells: Seq<WorkerUsage>,
    /// Which cells the host holds a handle of.
    pub held: Seq<bool>,
    /// The system-wide limit, and what is charged to it beside the counters of
    /// the workers.
    pub conservation: ConservationState<()>,
    /// Whether enforcement is on.
    pub enabled: bool,
    /// Enforcement window (ms). Counters are reset after each window.
    pub window_ms: nat,
    /// How much of the current window has passed (ms).
    pub elapsed_ms: nat,
}

impl GuardianState {
    /// No label is registered twice, and every registered worker has counters of
    /// its own.
    pub open spec fn wf(self) -> bool {
        &&& self.held.len() == self.cells.len()
        &&& forall|i: int|
            0 <= i < self.registry.len() ==> 0 <= (#[trigger] self.registry[i]).1
                < self.cells.len()
        &&& forall|i: int, j: int|
            0 <= i < j < self.registry.len() ==> (#[trigger] self.registry[i]).0 != (
            #[trigger] self.registry[j]).0
        &&& forall|i: int, j: int|
            0 <= i < j < self.registry.len() ==> (#[trigger] self.registry[i]).1 != (
            #[trigger] self.registry[j]).1
    }

    /// Whether a worker is registered under `label`, with its counters in `cell`.
    pub open spec fn has(self, label: Seq<char>, cell: int) -> bool {
        self.registry.contains((label, cell))
    }

    /// Whether the counters in `cell` are those of a registered worker.
    pub open spec fn registers(self, cell: int) -> bool {
        registered_among(self.registry, cell)
    }

    /// Whether the host holds a handle of `cell`.
    pub open spec fn holds(self, cell: int) -> bool {
        0 <= cell < self.cells.len() && self.held[cell]
    }

    /// Whether the counters in `cell` are of no use to anyone.
    pub open spec fn is_free(self, cell: int) -> bool {
        0 <= cell < self.cells.len() && !self.held[cell] && !self.registers(cell)
    }

    /// Whether a worker is registered under `label`.
    pub open spec fn tracks(self, label: Seq<char>) -> bool {
        exists|cell: int| self.has(label, cell)
    }

    /// The registered workers without the one under `label`.
    pub open spec fn without(self, label: Seq<char>) -> Seq<(Seq<char>, int)> {
        others_among(self.registry, label)
    }

    /// Whether `cell` can take the counters of a new worker: it is free, or new
    /// where none is free.
    pub open spec fn has_room_in(self, cell: int) -> bool {
        self.is_free(cell) || (cell == self.cells.len() && forall|c: int| !self.is_free(c))
    }

    /// The state after a worker is registered under `label`, with its counters
    /// in `cell`. One that was there before gives way, and its counters are left
    /// to whoever holds their handle.
    pub open spec fn registered(self, label: Seq<char>, cell: int, usage: WorkerUsage) -> Self {
        GuardianState {
            registry: self.without(label).push((label, cell)),
            cells: if cell < self.cells.len() {
                self.cells.update(cell, usage)
            } else {
                self.cells.push(usage)
            },
            held: if cell < self.cells.len() {
                self.held.update(cell, true)
            } else {
                self.held.push(true)
            },
            ..self
        }
    }

    /// The state after the host gave up its handle of `cell`.
    pub open spec fn released(self, cell: int) -> Self {
        GuardianState { held: self.held.update(cell, false), ..self }
    }

    /// The state after the worker under `label` is unregistered, if there is one.
    pub open spec fn unregistered(self, label: Seq<char>) -> Self {
        GuardianState { registry: self.without(label), ..self }
    }

    /// The state after the counters in `cell` were changed.
    pub open spec fn updated(self, cell: int, usage: WorkerUsage) -> Self {
        GuardianState { cells: self.cells.update(cell, usage), ..self }
    }

    /// The state after all registered workers were inspected.
    pub open spec fn inspected(self) -> Self {
        GuardianState {
            cells: Seq::new(
                self.cells.len(),
                |c: int|
                    if self.registers(c) {
                        self.cells[c].inspected()
                    } else {
                        self.cells[c]
                    },
            ),
            ..self
        }
    }

    /// Whether the current window ends within the next `ms`.
    pub open spec fn window_ends_within(self, ms: nat) -> bool {
        self.elapsed_ms + ms >= self.window_ms
    }

    /// The state after `ms` have passed. At the end of a window the counters of
    /// all registered workers start anew, and so does what was charged.
    pub open spec fn elapsed(self, ms: nat) -> Self {
        let passed = self.elapsed_ms + ms;
        if self.window_ends_within(ms) {
            GuardianState {
                elapsed_ms: if self.window_ms == 0 {
                    0
                } else {
                    passed % self.window_ms
                },
                cells: Seq::new(
                    self.cells.len(),
                    |c: int|
                        if self.registers(c) {
                            self.cells[c].in_new_window()
                        } else {
                            self.cells[c]
                        },
                ),
                conservation: self.conservation.reset(),
                ..self
            }
        } else {
            GuardianState { elapsed_ms: passed, ..self }
        }
    }

    /// The CPU time of all registered workers (ms).
    pub open spec fn worker_cpu_ms(self) -> nat {
        cpu_among(self.registry, self.cells)
    }

    /// The system-wide limit, and all that counts against it: what is charged
    /// to it, and the CPU time of all registered workers.
    pub open spec fn aggregate(self) -> ConservationState<()> {
        self.conservation.charged(self.worker_cpu_ms())
    }

    /// The labels of the registered workers that have to be stopped.
    pub open spec fn due(self) -> Seq<Seq<char>> {
        due_among(self.registry, self.cells)
    }

    /// What is said of the system-wide limit.
    pub open spec fn conservation_notices(self) -> Seq<(NoticeLevel, Seq<char>)> {
        if self.aggregate().usage_units() > ResourcePhase::threshold(100) {
            seq![
                (
                    NoticeLevel::Warn,
                    "[resource-guardian] CONSERVATION: system CPU at "@ + crate::text::percentage(
                        self.aggregate().usage_units(),
                    ) + "% of 80% target"@,
                ),
            ]
        } else {
            seq![]
        }
    }

    /// What is said of all workers, and then of the system-wide limit.
    pub open spec fn notices(self) -> Seq<(NoticeLevel, Seq<char>)> {
        notices_among(self.registry, self.cells) + self.conservation_notices()
    }

    /// A summary of all tracked workers, one line each.
    pub open spec fn status_text(self) -> Seq<char> {
        if self.registry.len() == 0 {
            "resource-guardian: no workers tracked"@
        } else {
            "resource-guardian status:"@ + lines_among(self.registry, self.cells)
                + "\n  conservation: CPU at "@ + crate::text::percentage(
                self.aggregate().usage_units(),
            ) + "% of 80% target"@
        }
    }
}

/// Whether the counters in `cell` are those of one of those workers.
pub open spec fn registered_among(workers: Seq<(Seq<char>, int)>, cell: int) -> bool {
    exists|i: int| 0 <= i < workers.len() && (#[trigger] workers[i]).1 == cell
}

/// The CPU time of those workers (ms).
pub open spec fn cpu_among(workers: Seq<(Seq<char>, int)>, cells: Seq<WorkerUsage>) -> nat
    decreases workers.len(),
{
    if workers.len() == 0 {
        0
    } else {
        cpu_among(workers.drop_last(), cells) + cells[workers.last().1].cpu_ms as nat
    }
}

/// Those workers that are not under `label`, in their order.
pub open spec fn others_among(
    workers: Seq<(Seq<char>, int)>,
    label: Seq<char>,
) -> Seq<(Seq<char>, int)> {
    workers.filter(|w: (Seq<char>, int)| w.0 != label)
}

/// The labels of those workers that have to be stopped, in their order.
pub open spec fn due_among(
    workers: Seq<(Seq<char>, int)>,
    cells: Seq<WorkerUsage>,
) -> Seq<Seq<char>> {
    workers.filter(|w: (Seq<char>, int)| cells[w.1].due_for_stop()).map_values(
        |w: (Seq<char>, int)| w.0,
    )
}

/// What is said of those workers, in their order.
pub open spec fn notices_among(
    workers: Seq<(Seq<char>, int)>,
    cells: Seq<WorkerUsage>,
) -> Seq<(NoticeLevel, Seq<char>)>
    decreases workers.len(),
{
    if workers.len() == 0 {
        seq![]
    } else {
        let before = notices_among(workers.drop_last(), cells);
        match cells[workers.last().1].notice_of(workers.last().0) {
            Some(notice) => before.push(notice),
            None => before,
        }
    }
}

/// The status lines of those workers, in their order.
pub open spec fn lines_among(
    workers: Seq<(Seq<char>, int)>,
    cells: Seq<WorkerUsage>,
) -> Seq<char>
    decreases workers.len(),
{
    if workers.len() == 0 {
        seq![]
    } else {
        lines_among(workers.drop_last(), cells) + "\n  "@ + workers.last().0 + "  "@
            + cells[workers.last().1].summary_text()
    }
}

pub proof fn lemma_among_none(workers: Seq<(Seq<char>, int)>, cells: Seq<WorkerUsage>)
    requires
        workers.len() == 0,
    ensures
        due_among(workers, cells) == Seq::<Seq<char>>::empty(),
        notices_among(workers, cells) == Seq::<(NoticeLevel, Seq<char>)>::empty(),
{
    reveal(Seq::filter);
}

/// What the worker at `i` adds to those before it.
pub proof fn lemma_among_next(workers: Seq<(Seq<char>, int)>, cells: Seq<WorkerUsage>, i: int)
    requires
        0 <= i < workers.len(),
    ensures
        due_among(workers.take(i + 1), cells) == if cells[workers[i].1].due_for_stop() {
            due_among(workers.take(i), cells).push(workers[i].0)
        } else {
            due_among(workers.take(i), cells)
        },
        notices_among(workers.take(i + 1), cells) == (match cells[workers[i].1].notice_of(
            workers[i].0,
        ) {
            Some(notice) => notices_among(workers.take(i), cells).push(notice),
            None => notices_among(workers.take(i), cells),
        }),
        cpu_among(workers.take(i + 1), cells) == cpu_among(workers.take(i), cells)
            + cells[workers[i].1].cpu_ms,
        forall|c: int|
            registered_among(workers.take(i + 1), c) <==> (c == workers[i].1 || registered_among(
                workers.take(i),
                c,
            )),
        lines_among(workers.take(i + 1), cells) == lines_among(workers.take(i), cells) + "\n  "@
            + workers[i].0 + "  "@ + cells[workers[i].1].summary_text(),
{
    reveal(Seq::filter);
    assert(workers.take(i + 1).drop_last() =~= workers.take(i));
    assert(workers.take(i + 1).last() == workers[i]);
    assert forall|c: int|
        registered_among(workers.take(i + 1), c) <==> (c == workers[i].1 || registered_among(
            workers.take(i),
            c,
        )) by {
        if registered_among(workers.take(i), c) {
            let k = choose|k: int|
                0 <= k < workers.take(i).len() && (#[trigger] workers.take(i)[k]).1 == c;
            assert(workers.take(i + 1)[k].1 == c);
        }
        if registered_among(workers.take(i + 1), c) {
            let k = choose|k: int|
                0 <= k < workers.take(i + 1).len() && (#[trigger] workers.take(i + 1)[k]).1 == c;
            if k < i {
                assert(workers.take(i)[k].1 == c);
            }
        }
        if c == workers[i].1 {
            assert(workers.take(i + 1)[i].1 == c);
        }
    }
    if cells[workers[i].1].due_for_stop() {
        assert(due_among(workers.take(i + 1), cells) =~= due_among(workers.take(i), cells).push(
            workers[i].0,
        ));
    }
}

pub proof fn lemma_without_none(registry: Seq<(Seq<char>, int)>, label: Seq<char>)
    requires
        forall|i: int| 0 <= i < registry.len() ==> (#[trigger] registry[i]).0 != label,
    ensures
        others_among(registry, label) == registry,
    decreases registry.len(),
{
    reveal(Seq::filter);
    if registry.len() > 0 {
        let rest = registry.drop_last();
        assert forall|i: int| 0 <= i < rest.len() implies (#[trigger] rest[i]).0 != label by {
            assert(rest[i] == registry[i]);
        }
        lemma_without_none(rest, label);
        assert(registry.last().0 != label);
        assert(rest.push(registry.last()) =~= registry);
    }
}

proof fn lemma_without_at(registry: Seq<(Seq<char>, int)>, label: Seq<char>, i: int)
    requires
        0 <= i < registry.len(),
        registry[i].0 == label,
        forall|j: int| 0 <= j < registry.len() && j != i ==> (#[trigger] registry[j]).0 != label,
    ensures
        others_among(registry, label) == registry.remove(i),
    decreases registry.len(),
{
    reveal(Seq::filter);
    let rest = registry.drop_last();
    assert forall|j: int| 0 <= j < rest.len() && j != i implies (#[trigger] rest[j]).0
        != label by {
        assert(rest[j] == registry[j]);
    }
    if i == registry.len() - 1 {
        lemma_without_none(rest, label);
        assert(rest =~= registry.remove(i));
    } else {
        lemma_without_at(rest, label, i);
        assert(registry.last().0 != label);
        assert(rest.remove(i).push(registry.last()) =~= registry.remove(i));
    }
}

impl GuardianState {
    /// Of a well-formed registry, taking out a label takes out one entry.
    pub proof fn lemma_without_one(self, label: Seq<char>, i: int)
        requires
            self.wf(),
            0 <= i < self.registry.len(),
            self.registry[i].0 == label,
        ensures
            self.without(label) == self.registry.remove(i),
    {
        lemma_without_at(self.registry, label, i);
    }

    /// Unregistering keeps the state well-formed and leaves no worker under the
    /// label.
    pub proof fn lemma_unregistered(self, label: Seq<char>)
        requires
            self.wf(),
        ensures
            self.unregistered(label).wf(),
            !self.unregistered(label).tracks(label),
            forall|other: Seq<char>, cell: int|
                other != label ==> self.unregistered(label).has(other, cell) == self.has(
                    other,
                    cell,
                ),
    {
        let after = self.unregistered(label);
        if exists|i: int| 0 <= i < self.registry.len() && (#[trigger] self.registry[i]).0 == label {
            let i = choose|i: int|
                0 <= i < self.registry.len() && (#[trigger] self.registry[i]).0 == label;
            self.lemma_without_one(label, i);
            assert forall|j: int| 0 <= j < after.registry.len() implies #[trigger] after.registry[j]
                == self.registry[if j < i { j } else { j + 1 }] by {}
            assert forall|other: Seq<char>, cell: int| other != label && self.has(other, cell)
                implies after.has(other, cell) by {
                let k = choose|k: int|
                    0 <= k < self.registry.len() && self.registry[k] == (other, cell);
                assert(after.registry[if k < i { k } else { k - 1 }] == (other, cell));
            }
            assert forall|other: Seq<char>, cell: int| after.has(other, cell) implies other != label
                && self.has(other, cell) by {
                let k = choose|k: int|
                    0 <= k < after.registry.len() && after.registry[k] == (other, cell);
                assert(self.registry[if k < i { k } else { k + 1 }] == (other, cell));
            }
        } else {
            lemma_without_none(self.registry, label);
        }
    }

    /// Registering keeps the state well-formed, puts the worker under the label,
    /// and leaves all others.
    pub proof fn lemma_registered(self, label: Seq<char>, fresh: int, usage: WorkerUsage)
        requires
            self.wf(),
            self.unregistered(label).has_room_in(fresh),
        ensures
            self.registered(label, fresh, usage).wf(),
            forall|other: Seq<char>, cell: int|
                self.registered(label, fresh, usage).has(other, cell) == if other == label {
                    cell == fresh
                } else {
                    self.has(other, cell)
                },
    {
        self.lemma_unregistered(label);
        let middle = self.unregistered(label);
        let after = self.registered(label, fresh, usage);
        assert forall|i: int| 0 <= i < middle.registry.len() implies (
        #[trigger] middle.registry[i]).0 != label && middle.registry[i].1 != fresh by {
            assert(middle.registry[i] == (middle.registry[i].0, middle.registry[i].1));
            assert(middle.has(middle.registry[i].0, middle.registry[i].1));
        }
        assert forall|other: Seq<char>, cell: int|
            after.has(other, cell) == if other == label {
                cell == fresh
            } else {
                self.has(other, cell)
            } by {
            if after.has(other, cell) {
                let k = choose|k: int|
                    0 <= k < after.registry.len() && after.registry[k] == (other, cell);
                if k < middle.registry.len() {
                    assert(middle.registry[k] == (other, cell));
                }
            }
            if other == label {
                assert(after.registry.last() == (label, fresh));
            } else if middle.has(other, cell) {
                let k = choose|k: int|
                    0 <= k < middle.registry.len() && middle.registry[k] == (other, cell);
                assert(after.registry[k] == (other, cell));
            }
        }
    }
}

} // verus!
