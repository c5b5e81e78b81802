//! What holds of the workers that a guardian tracks.
use crate::budget::ResourceBudget;
use crate::notice::NoticeLevel;
use crate::phase::ResourcePhase;
use crate::state::GuardianState;
use crate::usage::WorkerUsage;
use vstd::prelude::*;

verus! {

/// Whether one of the first `n` workers is under `label` and has to be stopped.
spec fn spent_among(
    workers: Seq<(Seq<char>, int)>,
    cells: Seq<WorkerUsage>,
    n: int,
    label: Seq<char>,
) -> bool {
    exists|i: int|
        0 <= i < n && (#[trigger] workers[i]).0 == label && cells[workers[i].1].due_for_stop()
}

proof fn lemma_due_labels(
    workers: Seq<(Seq<char>, int)>,
    cells: Seq<WorkerUsage>,
    n: int,
    label: Seq<char>,
)
    requires
        0 <= n <= workers.len(),
    ensures
        crate::state::due_among(workers.take(n), cells).contains(label) == spent_among(
            workers,
            cells,
            n,
            label,
        ),
    decreases n,
{
    if n == 0 {
        crate::state::lemma_among_none(workers.take(0), cells);
    } else {
        lemma_due_labels(workers, cells, n - 1, label);
        crate::state::lemma_among_next(workers, cells, n - 1);
        let before = crate::state::due_among(workers.take(n - 1), cells);
        let after = crate::state::due_among(workers.take(n), cells);
        if after.contains(label) {
            let k = choose|k: int| 0 <= k < after.len() && after[k] == label;
            if k < before.len() {
                assert(before[k] == label);
                let i = choose|i: int|
                    0 <= i < n - 1 && (#[trigger] workers[i]).0 == label
                        && cells[workers[i].1].due_for_stop();
                assert(workers[i].0 == label);
            } else {
                assert(workers[n - 1].0 == label);
            }
        }
        if spent_among(workers, cells, n, label) {
            let i = choose|i: int|
                0 <= i < n && (#[trigger] workers[i]).0 == label
                    && cells[workers[i].1].due_for_stop();
            if i < n - 1 {
                assert(spent_among(workers, cells, n - 1, label));
                let k = choose|k: int| 0 <= k < before.len() && before[k] == label;
                assert(after[k] == label);
            } else {
                assert(after.last() == label);
            }
        }
    }
}

/// Exactly those labels are due for which a worker is registered that has to be
/// stopped.
pub proof fn law_due_are_registered_and_spent(state: GuardianState, label: Seq<char>)
    ensures
        state.due().contains(label) <==> exists|cell: int|
            #[trigger] state.has(label, cell) && state.cells[cell].due_for_stop(),
{
    let n = state.registry.len() as int;
    assert(state.registry.take(n) =~= state.registry);
    lemma_due_labels(state.registry, state.cells, n, label);
    if state.due().contains(label) {
        let i = choose|i: int|
            0 <= i < n && (#[trigger] state.registry[i]).0 == label && state.cells[state.registry[i].1].due_for_stop();
        assert(state.registry[i] == (label, state.registry[i].1));
        assert(state.has(label, state.registry[i].1));
    }
    if exists|cell: int| #[trigger]
        state.has(label, cell) && state.cells[cell].due_for_stop() {
        let cell = choose|cell: int| #[trigger]
            state.has(label, cell) && state.cells[cell].due_for_stop();
        let i = choose|i: int| 0 <= i < n && state.registry[i] == (label, cell);
        assert(state.cells[state.registry[i].1].due_for_stop());
    }
}

/// A label has one worker at most.
pub proof fn law_labels_are_unique(state: GuardianState, label: Seq<char>, a: int, b: int)
    requires
        state.wf(),
        state.has(label, a),
        state.has(label, b),
    ensures
        a == b,
{
    let i = choose|i: int| 0 <= i < state.registry.len() && state.registry[i] == (label, a);
    let j = choose|j: int| 0 <= j < state.registry.len() && state.registry[j] == (label, b);
    if i < j {
        assert(state.registry[i].0 != state.registry[j].0);
    } else if j < i {
        assert(state.registry[j].0 != state.registry[i].0);
    }
}

/// Whether a worker is stopped rests on its own counters alone: whatever happens
/// to another's, the rest never notice.
pub proof fn law_workers_are_isolated(
    state: GuardianState,
    label: Seq<char>,
    cell: int,
    other: int,
    usage: WorkerUsage,
)
    requires
        state.wf(),
        state.has(label, cell),
        cell != other,
        0 <= other < state.cells.len(),
    ensures
        state.updated(other, usage).due().contains(label) <==> state.cells[cell].due_for_stop(),
        state.due().contains(label) <==> state.cells[cell].due_for_stop(),
{
    let after = state.updated(other, usage);
    lemma_cell_in_range(state, label, cell);
    assert(after.has(label, cell));
    law_due_are_registered_and_spent(state, label);
    law_due_are_registered_and_spent(after, label);
    assert forall|c: int| state.has(label, c) implies c == cell by {
        law_labels_are_unique(state, label, c, cell);
    }
    assert forall|c: int| after.has(label, c) implies state.has(label, c) by {}
}

proof fn lemma_cell_in_range(state: GuardianState, label: Seq<char>, cell: int)
    requires
        state.wf(),
        state.has(label, cell),
    ensures
        0 <= cell < state.cells.len(),
{
    let i = choose|i: int| 0 <= i < state.registry.len() && state.registry[i] == (label, cell);
    assert(0 <= state.registry[i].1 < state.cells.len());
}

/// No label is due twice.
pub proof fn law_due_labels_are_distinct(state: GuardianState)
    requires
        state.wf(),
    ensures
        state.due().no_duplicates(),
{
    let n = state.registry.len() as int;
    assert(state.registry.take(n) =~= state.registry);
    lemma_due_distinct(state, n);
}

proof fn lemma_due_distinct(state: GuardianState, n: int)
    requires
        state.wf(),
        0 <= n <= state.registry.len(),
    ensures
        crate::state::due_among(state.registry.take(n), state.cells).no_duplicates(),
    decreases n,
{
    if n == 0 {
        crate::state::lemma_among_none(state.registry.take(0), state.cells);
    } else {
        lemma_due_distinct(state, n - 1);
        crate::state::lemma_among_next(state.registry, state.cells, n - 1);
        let before = crate::state::due_among(state.registry.take(n - 1), state.cells);
        lemma_due_labels(state.registry, state.cells, n - 1, state.registry[n - 1].0);
    }
}

/// A stop is logged: the error notice of every worker that has to be stopped, and
/// was not found spent before, is among those of the guardian.
pub proof fn law_stops_are_logged(state: GuardianState, label: Seq<char>, cell: int)
    requires
        state.has(label, cell),
        state.cells[cell].due_for_stop(),
        state.cells[cell].last_phase != ResourcePhase::HardStop,
    ensures
        state.notices().contains((NoticeLevel::Error, state.cells[cell].stop_text(label))),
{
    let n = state.registry.len() as int;
    let i = choose|i: int| 0 <= i < n && state.registry[i] == (label, cell);
    assert(state.registry.take(n) =~= state.registry);
    lemma_notice_said(state.registry, state.cells, n, i);
    let notice = (NoticeLevel::Error, state.cells[cell].stop_text(label));
    let workers = crate::state::notices_among(state.registry, state.cells);
    let k = choose|k: int| 0 <= k < workers.len() && workers[k] == notice;
    assert(state.notices()[k] == notice);
}

proof fn lemma_notice_said(
    workers: Seq<(Seq<char>, int)>,
    cells: Seq<WorkerUsage>,
    n: int,
    i: int,
)
    requires
        0 <= i < n <= workers.len(),
        cells[workers[i].1].notice_of(workers[i].0) is Some,
    ensures
        crate::state::notices_among(workers.take(n), cells).contains(
            cells[workers[i].1].notice_of(workers[i].0)->0,
        ),
    decreases n,
{
    crate::state::lemma_among_next(workers, cells, n - 1);
    let before = crate::state::notices_among(workers.take(n - 1), cells);
    let after = crate::state::notices_among(workers.take(n), cells);
    let notice = cells[workers[i].1].notice_of(workers[i].0)->0;
    if i == n - 1 {
        assert(after.last() == notice);
    } else {
        lemma_notice_said(workers, cells, n - 1, i);
        let k = choose|k: int| 0 <= k < before.len() && before[k] == notice;
        assert(after[k] == notice);
    }
}

/// The status holds a line for every registered worker.
pub proof fn law_status_lists_workers(state: GuardianState, label: Seq<char>, cell: int)
    requires
        state.has(label, cell),
    ensures
        exists|before: Seq<char>, after: Seq<char>|
            state.status_text() == #[trigger] (before + ("\n  "@ + label + "  "@
                + state.cells[cell].summary_text()) + after),
{
    let n = state.registry.len() as int;
    let i = choose|i: int| 0 <= i < n && state.registry[i] == (label, cell);
    let line = "\n  "@ + label + "  "@ + state.cells[cell].summary_text();
    assert(state.registry.take(n) =~= state.registry);
    let (before, after) = lemma_line_written(state.registry, state.cells, n, i);
    let tail = "\n  conservation: CPU at "@ + crate::text::percentage(
        state.aggregate().usage_units(),
    ) + "% of 80% target"@;
    let head = "resource-guardian status:"@ + before;
    assert(state.status_text() =~= head + line + (after + tail));
}

proof fn lemma_line_written(
    workers: Seq<(Seq<char>, int)>,
    cells: Seq<WorkerUsage>,
    n: int,
    i: int,
) -> (split: (Seq<char>, Seq<char>))
    requires
        0 <= i < n <= workers.len(),
    ensures
        crate::state::lines_among(workers.take(n), cells) == split.0 + ("\n  "@ + workers[i].0
            + "  "@ + cells[workers[i].1].summary_text()) + split.1,
    decreases n,
{
    crate::state::lemma_among_next(workers, cells, n - 1);
    let line = "\n  "@ + workers[i].0 + "  "@ + cells[workers[i].1].summary_text();
    if i == n - 1 {
        let before = crate::state::lines_among(workers.take(n - 1), cells);
        assert(crate::state::lines_among(workers.take(n), cells) =~= before + line
            + Seq::<char>::empty());
        (before, Seq::<char>::empty())
    } else {
        let (before, after) = lemma_line_written(workers, cells, n - 1, i);
        let last = "\n  "@ + workers[n - 1].0 + "  "@ + cells[workers[n - 1].1].summary_text();
        assert(crate::state::lines_among(workers.take(n), cells) =~= before + line + (after
            + last));
        (before, after + last)
    }
}

/// Counters that no registered worker has are none of the guardian's concern.
pub proof fn law_detached_counters_do_not_matter(
    state: GuardianState,
    cell: int,
    usage: WorkerUsage,
)
    requires
        state.wf(),
        0 <= cell < state.cells.len(),
        forall|label: Seq<char>| !state.has(label, cell),
    ensures
        state.updated(cell, usage).due() == state.due(),
        state.updated(cell, usage).notices() == state.notices(),
        state.updated(cell, usage).status_text() == state.status_text(),
{
    let n = state.registry.len() as int;
    assert(state.registry.take(n) =~= state.registry);
    assert forall|i: int| 0 <= i < n implies (#[trigger] state.registry[i]).1 != cell by {
        if state.registry[i].1 == cell {
            assert(state.registry[i] == (state.registry[i].0, cell));
            assert(state.has(state.registry[i].0, cell));
        }
    }
    lemma_same_counters(state.registry, state.cells, state.cells.update(cell, usage), n);
}

proof fn lemma_same_counters(
    workers: Seq<(Seq<char>, int)>,
    cells: Seq<WorkerUsage>,
    others: Seq<WorkerUsage>,
    n: int,
)
    requires
        0 <= n <= workers.len(),
        forall|i: int|
            0 <= i < n ==> cells[(#[trigger] workers[i]).1] == others[workers[i].1],
    ensures
        crate::state::due_among(workers.take(n), cells) == crate::state::due_among(
            workers.take(n),
            others,
        ),
        crate::state::notices_among(workers.take(n), cells) == crate::state::notices_among(
            workers.take(n),
            others,
        ),
        crate::state::lines_among(workers.take(n), cells) == crate::state::lines_among(
            workers.take(n),
            others,
        ),
        crate::state::cpu_among(workers.take(n), cells) == crate::state::cpu_among(
            workers.take(n),
            others,
        ),
    decreases n,
{
    if n == 0 {
        crate::state::lemma_among_none(workers.take(0), cells);
        crate::state::lemma_among_none(workers.take(0), others);
    } else {
        lemma_same_counters(workers, cells, others, n - 1);
        crate::state::lemma_among_next(workers, cells, n - 1);
        crate::state::lemma_among_next(workers, others, n - 1);
        assert(cells[workers[n - 1].1] == others[workers[n - 1].1]);
    }
}

/// A label that is registered anew has fresh counters. Those it had before are no
/// longer looked at, and stay as they are for whoever holds their handle.
pub proof fn law_registering_again_replaces(
    state: GuardianState,
    label: Seq<char>,
    cell: int,
    fresh: int,
    budget: ResourceBudget,
)
    requires
        state.wf(),
        state.has(label, cell),
        state.held[cell],
        state.unregistered(label).has_room_in(fresh),
    ensures
        ({
            let after = state.registered(label, fresh, WorkerUsage::idle(budget));
            &&& after.wf()
            &&& after.has(label, fresh)
            &&& after.cells[fresh] == WorkerUsage::idle(budget)
            &&& forall|any: Seq<char>| !after.has(any, cell)
            &&& after.holds(cell)
            &&& after.cells[cell] == state.cells[cell]
            &&& !after.due().contains(label)
        }),
{
    let usage = WorkerUsage::idle(budget);
    let after = state.registered(label, fresh, usage);
    state.lemma_registered(label, fresh, usage);
    lemma_cell_in_range(state, label, cell);
    assert forall|any: Seq<char>| !after.has(any, cell) by {
        if any != label && state.has(any, cell) {
            let i = choose|i: int| 0 <= i < state.registry.len() && state.registry[i] == (any, cell);
            let j = choose|j: int|
                0 <= j < state.registry.len() && state.registry[j] == (label, cell);
            if i < j {
                assert(state.registry[i].1 != state.registry[j].1);
            } else if j < i {
                assert(state.registry[j].1 != state.registry[i].1);
            }
        }
    }
    law_due_are_registered_and_spent(after, label);
    crate::laws::law_idle_worker_is_left_alone(budget, label);
}

/// Registering a worker leaves the counters of all others that are registered or
/// held.
pub proof fn law_registering_leaves_other_counters(
    state: GuardianState,
    label: Seq<char>,
    fresh: int,
    usage: WorkerUsage,
    cell: int,
)
    requires
        state.wf(),
        state.unregistered(label).has_room_in(fresh),
        0 <= cell < state.cells.len(),
        state.held[cell] || state.unregistered(label).registers(cell),
    ensures
        state.registered(label, fresh, usage).cells[cell] == state.cells[cell],
        state.registered(label, fresh, usage).held[cell] == state.held[cell],
{
}

/// A worker's counters are reclaimed once it is unregistered and its handle
/// released.
pub proof fn law_released_counters_are_free(state: GuardianState, label: Seq<char>, cell: int)
    requires
        state.wf(),
        state.has(label, cell),
    ensures
        state.unregistered(label).released(cell).is_free(cell),
        state.released(cell).unregistered(label).is_free(cell),
{
    lemma_cell_in_range(state, label, cell);
    state.lemma_unregistered(label);
    let after = state.unregistered(label);
    if after.registers(cell) {
        let i = choose|i: int|
            0 <= i < after.registry.len() && (#[trigger] after.registry[i]).1 == cell;
        let other = after.registry[i].0;
        assert(after.registry[i] == (other, cell));
        assert(after.has(other, cell));
        if other == label {
            assert(after.tracks(label));
        } else {
            assert(state.has(other, cell));
            lemma_cells_are_unique(state, label, other, cell);
        }
    }
}

proof fn lemma_cells_are_unique(state: GuardianState, a: Seq<char>, b: Seq<char>, cell: int)
    requires
        state.wf(),
        state.has(a, cell),
        state.has(b, cell),
    ensures
        a == b,
{
    let i = choose|i: int| 0 <= i < state.registry.len() && state.registry[i] == (a, cell);
    let j = choose|j: int| 0 <= j < state.registry.len() && state.registry[j] == (b, cell);
    if i < j {
        assert(state.registry[i].1 != state.registry[j].1);
    } else if j < i {
        assert(state.registry[j].1 != state.registry[i].1);
    }
}

/// Registering a new label and unregistering it leaves the same workers
/// registered.
pub proof fn law_unregistering_undoes_registering(
    state: GuardianState,
    label: Seq<char>,
    fresh: int,
    usage: WorkerUsage,
)
    requires
        state.wf(),
        !state.tracks(label),
    ensures
        state.registered(label, fresh, usage).unregistered(label).registry == state.registry,
{
    reveal(Seq::filter);
    assert forall|i: int| 0 <= i < state.registry.len() implies (#[trigger] state.registry[i]).0
        != label by {
        if state.registry[i].0 == label {
            assert(state.registry[i] == (label, state.registry[i].1));
            assert(state.has(label, state.registry[i].1));
        }
    }
    crate::state::lemma_without_none(state.registry, label);
    let entry = (label, fresh);
    assert(state.registry.push(entry).drop_last() =~= state.registry);
    assert(state.registry.push(entry).last() == entry);
}

/// An unregistered worker is not stopped, and all others are as before.
pub proof fn law_unregistered_worker_is_not_stopped(
    state: GuardianState,
    label: Seq<char>,
    other: Seq<char>,
)
    requires
        state.wf(),
        other != label,
    ensures
        !state.unregistered(label).due().contains(label),
        state.unregistered(label).due().contains(other) <==> state.due().contains(other),
{
    let after = state.unregistered(label);
    state.lemma_unregistered(label);
    law_due_are_registered_and_spent(after, label);
    law_due_are_registered_and_spent(after, other);
    law_due_are_registered_and_spent(state, other);
    if after.due().contains(other) {
        let c = choose|c: int| #[trigger] after.has(other, c) && after.cells[c].due_for_stop();
        assert(state.has(other, c));
    }
    if state.due().contains(other) {
        let c = choose|c: int| #[trigger] state.has(other, c) && state.cells[c].due_for_stop();
        assert(after.has(other, c));
    }
}

/// Pausing enforcement and resuming it changes nothing.
pub proof fn law_pausing_forgets_nothing(state: GuardianState)
    requires
        state.enabled,
    ensures
        (GuardianState { enabled: true, ..(GuardianState { enabled: false, ..state }) }) == state,
        (GuardianState { enabled: false, ..state }).due() == state.due(),
        (GuardianState { enabled: false, ..state }).status_text() == state.status_text(),
{
}

/// Changing the counters of a worker leaves the registry well-formed.
pub proof fn law_counters_do_not_touch_the_registry(
    state: GuardianState,
    cell: int,
    usage: WorkerUsage,
)
    requires
        state.wf(),
        0 <= cell < state.cells.len(),
    ensures
        state.updated(cell, usage).wf(),
        state.updated(cell, usage).registry == state.registry,
        state.updated(cell, usage).cells[cell] == usage,
{
}

/// Inspecting the workers keeps who is registered and who has to be stopped, and
/// doing so again changes nothing more.
pub proof fn law_inspection_keeps_verdicts(state: GuardianState)
    requires
        state.wf(),
    ensures
        state.inspected().wf(),
        state.inspected().registry == state.registry,
        state.inspected().due() == state.due(),
        state.inspected().status_text() == state.status_text(),
        state.inspected().inspected() == state.inspected(),
{
    let after = state.inspected();
    let n = state.registry.len() as int;
    assert(state.registry.take(n) =~= state.registry);
    lemma_inspected_alike(state, n);
    assert(after.inspected().cells =~= after.cells) by {
        assert forall|c: int| 0 <= c < after.cells.len() implies after.inspected().cells[c]
            == after.cells[c] by {
            crate::laws::law_nothing_is_said_twice(state.cells[c], Seq::empty());
        }
    }
}

/// After an inspection every registered worker has its phase recorded, and no
/// other counters are touched.
pub proof fn law_inspection_records_phases(state: GuardianState, label: Seq<char>, cell: int)
    requires
        state.wf(),
        state.has(label, cell),
    ensures
        state.inspected().cells[cell].last_phase == state.cells[cell].phase(),
        forall|c: int|
            0 <= c < state.cells.len() && !state.registers(c) ==> #[trigger] state.inspected().cells[c]
                == state.cells[c],
{
    lemma_cell_in_range(state, label, cell);
    lemma_has_registers(state, label, cell);
}

proof fn lemma_has_registers(state: GuardianState, label: Seq<char>, cell: int)
    requires
        state.has(label, cell),
    ensures
        state.registers(cell),
{
    let i = choose|i: int| 0 <= i < state.registry.len() && state.registry[i] == (label, cell);
    assert(state.registry[i].1 == cell);
}

/// Of workers that go on as they are, nothing is said again.
pub proof fn law_notices_are_not_repeated(state: GuardianState)
    requires
        state.wf(),
    ensures
        state.inspected().notices() == state.conservation_notices(),
{
    let n = state.registry.len() as int;
    assert(state.registry.take(n) =~= state.registry);
    lemma_inspected_alike(state, n);
    assert(state.inspected().notices() =~= state.conservation_notices());
}

proof fn lemma_inspected_alike(state: GuardianState, n: int)
    requires
        state.wf(),
        0 <= n <= state.registry.len(),
    ensures
        ({
            let first = state.registry.take(n);
            let cells = state.inspected().cells;
            &&& crate::state::due_among(first, cells) == crate::state::due_among(
                first,
                state.cells,
            )
            &&& crate::state::notices_among(first, cells).len() == 0
            &&& crate::state::lines_among(first, cells) == crate::state::lines_among(
                first,
                state.cells,
            )
            &&& crate::state::cpu_among(first, cells) == crate::state::cpu_among(
                first,
                state.cells,
            )
        }),
    decreases n,
{
    let cells = state.inspected().cells;
    if n == 0 {
        crate::state::lemma_among_none(state.registry.take(0), cells);
        crate::state::lemma_among_none(state.registry.take(0), state.cells);
    } else {
        lemma_inspected_alike(state, n - 1);
        crate::state::lemma_among_next(state.registry, cells, n - 1);
        crate::state::lemma_among_next(state.registry, state.cells, n - 1);
        let (label, cell) = state.registry[n - 1];
        assert(state.registers(cell));
        assert(cells[cell] == state.cells[cell].inspected());
        crate::laws::law_nothing_is_said_twice(state.cells[cell], label);
        crate::laws::law_recorded_phase_only_silences(
            state.cells[cell],
            state.cells[cell].phase(),
            0,
        );
    }
}

/// The guardian watches all workers together: what they use and what is charged
/// beside it is spoken of exactly when it is more than 80 % of what the system
/// has. Of allowances from two to the power of 53 on, fractions lie too close
/// for that.
pub proof fn law_worker_cpu_is_watched(state: GuardianState)
    requires
        0 < state.conservation.system_cpus,
        state.conservation.allowed() < crate::binary64::LIMIT,
    ensures
        state.conservation_notices().len() == 1 <==> state.conservation.total_cpu_ms
            + state.worker_cpu_ms() > state.conservation.allowed(),
        state.conservation_notices().len() == 1 <==> !state.aggregate().within_limits(),
{
    crate::laws::law_breach_shows_in_fraction(state.aggregate());
}

/// What a worker uses counts against the limit on all, one for one.
pub proof fn law_each_worker_counts(
    state: GuardianState,
    label: Seq<char>,
    cell: int,
    usage: WorkerUsage,
)
    requires
        state.wf(),
        state.has(label, cell),
    ensures
        state.updated(cell, usage).worker_cpu_ms() + state.cells[cell].cpu_ms
            == state.worker_cpu_ms() + usage.cpu_ms,
        state.worker_cpu_ms() >= state.cells[cell].cpu_ms,
{
    let n = state.registry.len() as int;
    let i = choose|i: int| 0 <= i < n && state.registry[i] == (label, cell);
    assert(state.registry.take(n) =~= state.registry);
    lemma_cell_in_range(state, label, cell);
    lemma_cpu_moves(state, i, usage, n);
}

proof fn lemma_cpu_moves(state: GuardianState, i: int, usage: WorkerUsage, n: int)
    requires
        state.wf(),
        0 <= i < state.registry.len(),
        0 <= n <= state.registry.len(),
    ensures
        ({
            let cell = state.registry[i].1;
            let before = crate::state::cpu_among(state.registry.take(n), state.cells);
            let after = crate::state::cpu_among(
                state.registry.take(n),
                state.cells.update(cell, usage),
            );
            if i < n {
                after + state.cells[cell].cpu_ms == before + usage.cpu_ms && before
                    >= state.cells[cell].cpu_ms
            } else {
                after == before
            }
        }),
    decreases n,
{
    let cell = state.registry[i].1;
    if n > 0 {
        lemma_cpu_moves(state, i, usage, n - 1);
        crate::state::lemma_among_next(state.registry, state.cells, n - 1);
        crate::state::lemma_among_next(state.registry, state.cells.update(cell, usage), n - 1);
        let last = state.registry[n - 1].1;
        assert(0 <= last < state.cells.len());
        if n - 1 < i {
            assert(state.registry[n - 1].1 != state.registry[i].1);
        } else if i < n - 1 {
            assert(state.registry[i].1 != state.registry[n - 1].1);
        }
    }
}

/// Budgets are per window: when one ends, what registered workers used of CPU and
/// network is forgotten, and so is all that counts against the limit on them.
pub proof fn law_windows_start_anew(
    state: GuardianState,
    ms: nat,
    label: Seq<char>,
    cell: int,
)
    requires
        state.wf(),
        state.has(label, cell),
        state.window_ends_within(ms),
    ensures
        ({
            let after = state.elapsed(ms);
            &&& after.wf()
            &&& after.registry == state.registry
            &&& after.cells[cell].cpu_ms == 0
            &&& after.cells[cell].network_bytes == 0
            &&& after.cells[cell].peak_heap == state.cells[cell].peak_heap
            &&& after.cells[cell].open_files == state.cells[cell].open_files
            &&& after.worker_cpu_ms() == 0
            &&& after.aggregate().total_cpu_ms == 0
            &&& after.conservation_notices().len() == 0
        }),
{
    let after = state.elapsed(ms);
    let n = state.registry.len() as int;
    lemma_cell_in_range(state, label, cell);
    lemma_has_registers(state, label, cell);
    assert(state.registry.take(n) =~= state.registry);
    lemma_cpu_forgotten(state, ms, n);
    crate::laws::law_reset_forgets_charges(state.conservation, 0);
    ResourcePhase::lemma_thresholds();
    assert(after.aggregate() == state.conservation.reset());
}

proof fn lemma_cpu_forgotten(state: GuardianState, ms: nat, n: int)
    requires
        state.wf(),
        state.window_ends_within(ms),
        0 <= n <= state.registry.len(),
    ensures
        crate::state::cpu_among(state.registry.take(n), state.elapsed(ms).cells) == 0,
    decreases n,
{
    if n > 0 {
        lemma_cpu_forgotten(state, ms, n - 1);
        crate::state::lemma_among_next(state.registry, state.elapsed(ms).cells, n - 1);
        assert(state.registers(state.registry[n - 1].1));
    }
}

/// A worker that spent its CPU or network budget only is not stopped in the next
/// window, unless it spends it again.
pub proof fn law_next_window_forgives(
    state: GuardianState,
    ms: nat,
    label: Seq<char>,
    cell: int,
)
    requires
        state.wf(),
        state.has(label, cell),
        state.window_ends_within(ms),
        state.cells[cell].memory_units() < ResourcePhase::threshold(100),
        state.cells[cell].file_units() < ResourcePhase::threshold(100),
    ensures
        !state.elapsed(ms).due().contains(label),
{
    let after = state.elapsed(ms);
    law_windows_start_anew(state, ms, label, cell);
    crate::laws::law_unused_dimensions_are_empty(state.cells[cell]);
    lemma_has_registers(state, label, cell);
    lemma_cell_in_range(state, label, cell);
    assert(after.cells[cell] == state.cells[cell].in_new_window());
    ResourcePhase::lemma_thresholds();
    vstd::arithmetic::power2::lemma_pow2_pos(1074);
    law_due_are_registered_and_spent(after, label);
    assert forall|c: int| after.has(label, c) implies c == cell by {
        assert(state.has(label, c));
        law_labels_are_unique(state, label, c, cell);
    }
}

/// Short spans of time add up, and change no counters before the window ends.
pub proof fn law_time_adds_up(state: GuardianState, a: nat, b: nat)
    requires
        !state.window_ends_within(a + b),
    ensures
        state.elapsed(a).elapsed(b) == state.elapsed(a + b),
        state.elapsed(a + b).cells == state.cells,
        state.elapsed(a + b).conservation == state.conservation,
{
}

} // verus!
