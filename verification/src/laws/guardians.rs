//! What every operation on a guardian does to what it knows, and what it says, in
//! terms of the registered workers and their counters.
use crate::budget::ResourceBudget;
use crate::notice::NoticeLevel;
use crate::phase::ResourcePhase;
use crate::state::GuardianState;
use crate::usage::WorkerUsage;
use vstd::prelude::*;

verus! {

/// Whether a worker with its counters in `cell` is among those registered.
pub open spec fn in_use(state: GuardianState, cell: int) -> bool {
    exists|label: Seq<char>| #[trigger] state.registry.contains((label, cell))
}

/// Who is registered, and which handles are held, is what the registry and the list
/// of held cells say.
pub proof fn law_registry_says_who_is_there(state: GuardianState, label: Seq<char>, cell: int)
    ensures
        state.has(label, cell) <==> state.registry.contains((label, cell)),
        state.registers(cell) <==> in_use(state, cell),
        state.tracks(label) <==> exists|c: int| #[trigger] state.registry.contains((label, c)),
        state.holds(cell) <==> 0 <= cell < state.cells.len() && state.held[cell],
        state.is_free(cell) <==> 0 <= cell < state.cells.len() && !state.held[cell] && !in_use(
            state,
            cell,
        ),
{
    if state.registers(cell) {
        let i = choose|i: int|
            0 <= i < state.registry.len() && (#[trigger] state.registry[i]).1 == cell;
        assert(state.registry[i] == (state.registry[i].0, cell));
        assert(state.registry.contains((state.registry[i].0, cell)));
    }
    if in_use(state, cell) {
        let other = choose|other: Seq<char>| #[trigger] state.registry.contains((other, cell));
        let i = choose|i: int|
            0 <= i < state.registry.len() && state.registry[i] == (other, cell);
        assert(state.registry[i].1 == cell);
    }
    if state.tracks(label) {
        let c = choose|c: int| state.has(label, c);
        assert(state.registry.contains((label, c)));
    }
    if exists|c: int| #[trigger] state.registry.contains((label, c)) {
        let c = choose|c: int| #[trigger] state.registry.contains((label, c));
        assert(state.has(label, c));
    }
}

/// The counters of a new worker take the place of none that are held or registered,
/// and no new place where an old one is free.
pub proof fn law_room_is_nobody_elses(state: GuardianState, cell: int, other: int)
    requires
        state.has_room_in(cell),
    ensures
        0 <= cell <= state.cells.len(),
        cell < state.cells.len() ==> !state.held[cell] && !in_use(state, cell),
        0 <= other < state.cells.len() && !state.held[other] && !in_use(state, other) ==> cell
            < state.cells.len(),
{
    law_registry_says_who_is_there(state, Seq::empty(), cell);
    law_registry_says_who_is_there(state, Seq::empty(), other);
}

/// A worker that is registered has the budget it was given, has used nothing, and is
/// the only one under its label, whether or not there was one before. All other
/// workers, counters and handles are as they were.
pub proof fn law_registering_gives_the_budget(
    state: GuardianState,
    label: Seq<char>,
    fresh: int,
    budget: ResourceBudget,
)
    requires
        state.wf(),
        state.unregistered(label).has_room_in(fresh),
    ensures
        ({
            let after = state.registered(label, fresh, WorkerUsage::idle(budget));
            &&& after.cells[fresh].budget == budget
            &&& after.cells[fresh].peak_heap == 0
            &&& after.cells[fresh].cpu_ms == 0
            &&& after.cells[fresh].network_bytes == 0
            &&& after.cells[fresh].open_files == 0
            &&& after.cells[fresh].last_phase == ResourcePhase::Normal
            &&& after.holds(fresh)
            &&& after.registry.contains((label, fresh))
            &&& forall|cell: int| #[trigger]
                after.registry.contains((label, cell)) ==> cell == fresh
            &&& forall|other: Seq<char>, cell: int|
                other != label ==> (#[trigger] after.registry.contains((other, cell))
                    <==> state.registry.contains((other, cell)))
            &&& forall|c: int|
                0 <= c < state.cells.len() && c != fresh ==> #[trigger] after.cells[c]
                    == state.cells[c] && after.held[c] == state.held[c]
            &&& after.cells.len() == state.cells.len() || (after.cells.len() == state.cells.len()
                + 1 && fresh == state.cells.len())
            &&& after.conservation == state.conservation
            &&& after.enabled == state.enabled
            &&& after.window_ms == state.window_ms
            &&& after.elapsed_ms == state.elapsed_ms
        }),
{
    let usage = WorkerUsage::idle(budget);
    let after = state.registered(label, fresh, usage);
    state.lemma_registered(label, fresh, usage);
    assert forall|cell: int| #[trigger] after.registry.contains((label, cell)) implies cell
        == fresh by {
        assert(after.has(label, cell));
    }
    assert(after.has(label, fresh));
    assert forall|other: Seq<char>, cell: int| other != label implies (
    #[trigger] after.registry.contains((other, cell)) <==> state.registry.contains(
        (other, cell),
    )) by {
        assert(after.has(other, cell) == state.has(other, cell));
    }
}

/// Whatever counters a worker is registered with are those behind its handle.
pub proof fn law_registering_keeps_the_counters(
    state: GuardianState,
    label: Seq<char>,
    fresh: int,
    usage: WorkerUsage,
)
    requires
        state.wf(),
        state.unregistered(label).has_room_in(fresh),
    ensures
        state.registered(label, fresh, usage).cells[fresh] == usage,
{
}

/// Unregistering takes out the worker under the label, and leaves all else.
pub proof fn law_unregistering_takes_out_one_label(state: GuardianState, label: Seq<char>)
    requires
        state.wf(),
    ensures
        ({
            let after = state.unregistered(label);
            &&& forall|other: Seq<char>, cell: int| #[trigger]
                after.registry.contains((other, cell)) <==> other != label
                    && state.registry.contains((other, cell))
            &&& after.cells == state.cells
            &&& after.held == state.held
            &&& after.conservation == state.conservation
            &&& after.enabled == state.enabled
            &&& after.window_ms == state.window_ms
            &&& after.elapsed_ms == state.elapsed_ms
        }),
{
    let after = state.unregistered(label);
    state.lemma_unregistered(label);
    assert forall|other: Seq<char>, cell: int| #[trigger]
        after.registry.contains((other, cell)) <==> other != label && state.registry.contains(
            (other, cell),
        ) by {
        if other == label {
            if after.registry.contains((other, cell)) {
                assert(after.has(label, cell));
                assert(after.tracks(label));
            }
        } else {
            assert(after.has(other, cell) == state.has(other, cell));
        }
    }
}

/// Giving up a handle concerns that handle alone.
pub proof fn law_releasing_gives_up_one_handle(state: GuardianState, cell: int, other: int)
    requires
        state.wf(),
        state.holds(cell),
        0 <= other < state.cells.len(),
    ensures
        ({
            let after = state.released(cell);
            &&& !after.holds(cell)
            &&& other != cell ==> after.holds(other) == state.holds(other)
            &&& after.registry == state.registry
            &&& after.cells == state.cells
            &&& after.conservation == state.conservation
            &&& after.enabled == state.enabled
            &&& after.window_ms == state.window_ms
            &&& after.elapsed_ms == state.elapsed_ms
        }),
{
}

/// Changing counters changes those behind the handle, and no others.
pub proof fn law_changing_counters_changes_one_cell(
    state: GuardianState,
    cell: int,
    usage: WorkerUsage,
    other: int,
)
    requires
        0 <= cell < state.cells.len(),
    ensures
        ({
            let after = state.updated(cell, usage);
            &&& after.cells[cell] == usage
            &&& after.cells.len() == state.cells.len()
            &&& 0 <= other < state.cells.len() && other != cell ==> after.cells[other]
                == state.cells[other]
            &&& after.held == state.held
            &&& after.registry == state.registry
            &&& after.conservation == state.conservation
            &&& after.enabled == state.enabled
            &&& after.window_ms == state.window_ms
            &&& after.elapsed_ms == state.elapsed_ms
        }),
{
}

/// An inspection records the phase of every registered worker, and changes nothing
/// else.
pub proof fn law_inspection_leaves_all_else(state: GuardianState, cell: int)
    requires
        0 <= cell < state.cells.len(),
    ensures
        ({
            let after = state.inspected();
            let (old_cell, new_cell) = (state.cells[cell], after.cells[cell]);
            &&& in_use(state, cell) ==> new_cell.last_phase == old_cell.phase()
            &&& !in_use(state, cell) ==> new_cell.last_phase == old_cell.last_phase
            &&& new_cell.peak_heap == old_cell.peak_heap
            &&& new_cell.cpu_ms == old_cell.cpu_ms
            &&& new_cell.network_bytes == old_cell.network_bytes
            &&& new_cell.open_files == old_cell.open_files
            &&& new_cell.budget == old_cell.budget
            &&& after.cells.len() == state.cells.len()
            &&& after.held == state.held
            &&& after.registry == state.registry
            &&& after.conservation == state.conservation
            &&& after.enabled == state.enabled
            &&& after.window_ms == state.window_ms
            &&& after.elapsed_ms == state.elapsed_ms
        }),
{
    law_registry_says_who_is_there(state, Seq::empty(), cell);
}

/// A window ends once as much time has passed as it lasts; whole windows are taken
/// off the time that has passed. Then registered workers have used no CPU and no
/// network, and nothing is charged. Nothing else changes, then or before.
pub proof fn law_windows_end_on_time(state: GuardianState, ms: nat, cell: int)
    requires
        0 <= cell < state.cells.len(),
    ensures
        ({
            let after = state.elapsed(ms);
            let ends = state.elapsed_ms + ms >= state.window_ms;
            let (old_cell, new_cell) = (state.cells[cell], after.cells[cell]);
            &&& state.window_ends_within(ms) == ends
            &&& !ends ==> after.elapsed_ms == state.elapsed_ms + ms
            &&& ends && state.window_ms > 0 ==> after.elapsed_ms < state.window_ms && exists|n: nat|
                state.elapsed_ms + ms == #[trigger] (n * state.window_ms) + after.elapsed_ms
            &&& state.window_ms == 0 ==> after.elapsed_ms == 0
            &&& ends && in_use(state, cell) ==> new_cell.cpu_ms == 0 && new_cell.network_bytes == 0
            &&& !ends || !in_use(state, cell) ==> new_cell == old_cell
            &&& new_cell.peak_heap == old_cell.peak_heap
            &&& new_cell.open_files == old_cell.open_files
            &&& new_cell.budget == old_cell.budget
            &&& new_cell.last_phase == old_cell.last_phase
            &&& after.conservation.total_cpu_ms == if ends {
                0
            } else {
                state.conservation.total_cpu_ms
            }
            &&& after.conservation.system_cpus == state.conservation.system_cpus
            &&& after.cells.len() == state.cells.len()
            &&& after.held == state.held
            &&& after.registry == state.registry
            &&& after.enabled == state.enabled
            &&& after.window_ms == state.window_ms
        }),
{
    law_registry_says_who_is_there(state, Seq::empty(), cell);
    if state.window_ms > 0 {
        let passed = (state.elapsed_ms + ms) as int;
        let window = state.window_ms as int;
        vstd::arithmetic::div_mod::lemma_fundamental_div_mod(passed, window);
        vstd::arithmetic::div_mod::lemma_mod_bound(passed, window);
        vstd::arithmetic::div_mod::lemma_div_pos_is_pos(passed, window);
        let n = (passed / window) as nat;
        vstd::arithmetic::mul::lemma_mul_is_commutative(window, passed / window);
        assert(passed == (n * state.window_ms) + passed % window);
    }
}

/// Workers whose counters show no CPU time use none together.
pub proof fn law_idle_workers_use_no_cpu(state: GuardianState)
    requires
        forall|i: int|
            0 <= i < state.registry.len() ==> state.cells[(#[trigger] state.registry[i]).1].cpu_ms
                == 0,
    ensures
        state.worker_cpu_ms() == 0,
{
    let n = state.registry.len() as int;
    assert(state.registry.take(n) =~= state.registry);
    lemma_no_cpu(state, n);
}

proof fn lemma_no_cpu(state: GuardianState, n: int)
    requires
        0 <= n <= state.registry.len(),
        forall|i: int|
            0 <= i < state.registry.len() ==> state.cells[(#[trigger] state.registry[i]).1].cpu_ms
                == 0,
    ensures
        crate::state::cpu_among(state.registry.take(n), state.cells) == 0,
    decreases n,
{
    if n > 0 {
        lemma_no_cpu(state, n - 1);
        crate::state::lemma_among_next(state.registry, state.cells, n - 1);
        assert(state.cells[state.registry[n - 1].1].cpu_ms == 0);
    }
}

/// Against the limit on all workers counts what was charged and what they use.
pub proof fn law_aggregate_is_the_sum(state: GuardianState)
    ensures
        ({
            let sum = state.conservation.total_cpu_ms + state.worker_cpu_ms();
            &&& sum <= u64::MAX ==> state.aggregate().total_cpu_ms == sum
            &&& sum > u64::MAX ==> state.aggregate().total_cpu_ms == u64::MAX
            &&& state.aggregate().system_cpus == state.conservation.system_cpus
        }),
{
}

/// Exactly those workers are to be terminated that are registered and have used up
/// one of their budgets, each of them once.
pub proof fn law_enforcement_stops_who_spent_a_budget(
    state: GuardianState,
    label: Seq<char>,
    cell: int,
)
    requires
        state.wf(),
        state.registry.contains((label, cell)),
        crate::laws::workers::budgets_are_exact(state.cells[cell].budget),
    ensures
        state.due().contains(label) <==> crate::laws::workers::some_budget_reached(
            state.cells[cell],
            100,
        ),
        state.due().no_duplicates(),
{
    assert(state.has(label, cell));
    crate::laws::workers::law_phases_follow_the_counters(state.cells[cell]);
    crate::registry_laws::law_due_are_registered_and_spent(state, label);
    crate::registry_laws::law_due_labels_are_distinct(state);
    assert forall|c: int| state.has(label, c) implies c == cell by {
        crate::registry_laws::law_labels_are_unique(state, label, c, cell);
    }
}

/// Nobody is to be terminated who is not registered.
pub proof fn law_enforcement_stops_registered_workers(state: GuardianState, i: int)
    requires
        0 <= i < state.due().len(),
    ensures
        exists|cell: int| #[trigger]
            state.registry.contains((state.due()[i], cell))
                && state.cells[cell].phase() == ResourcePhase::HardStop,
{
    let label = state.due()[i];
    assert(state.due().contains(label));
    crate::registry_laws::law_due_are_registered_and_spent(state, label);
    let cell = choose|cell: int| #[trigger]
        state.has(label, cell) && state.cells[cell].due_for_stop();
    assert(state.registry.contains((label, cell)));
}

/// The notices of those workers that there is one of, in their order.
pub open spec fn said_of(
    workers: Seq<(Seq<char>, int)>,
    cells: Seq<WorkerUsage>,
) -> Seq<(NoticeLevel, Seq<char>)> {
    workers.filter(|w: (Seq<char>, int)| cells[w.1].notice_of(w.0) is Some).map_values(
        |w: (Seq<char>, int)| cells[w.1].notice_of(w.0)->0,
    )
}

/// What is logged is the notice of every registered worker that there is one of,
/// once each, and then that of the system.
pub proof fn law_every_notice_is_logged_once(state: GuardianState)
    ensures
        state.notices() == said_of(state.registry, state.cells) + state.conservation_notices(),
{
    lemma_said(state.registry, state.cells);
}

proof fn lemma_said(workers: Seq<(Seq<char>, int)>, cells: Seq<WorkerUsage>)
    ensures
        crate::state::notices_among(workers, cells) == said_of(workers, cells),
    decreases workers.len(),
{
    reveal(Seq::filter);
    if workers.len() == 0 {
        assert(said_of(workers, cells) =~= seq![]);
    } else {
        let rest = workers.drop_last();
        lemma_said(rest, cells);
        if cells[workers.last().1].notice_of(workers.last().0) is Some {
            assert(said_of(workers, cells) =~= said_of(rest, cells).push(
                cells[workers.last().1].notice_of(workers.last().0)->0,
            ));
        } else {
            assert(said_of(workers, cells) =~= said_of(rest, cells));
        }
    }
}

/// The system is spoken of exactly when the fraction of its limit is above one, and
/// then with the percentage of 800 ms for every CPU.
pub proof fn law_system_notice_shows_the_percentage(state: GuardianState)
    requires
        state.conservation.system_cpus <= u64::MAX,
    ensures
        ({
            let all = state.aggregate();
            let shown = crate::text::percentage(all.usage_units());
            &&& all.usage_units() > vstd::arithmetic::power2::pow2(1074)
                ==> state.conservation_notices() == seq![
                (
                    NoticeLevel::Warn,
                    "[resource-guardian] CONSERVATION: system CPU at "@ + shown
                        + "% of 80% target"@,
                ),
            ]
            &&& all.usage_units() <= vstd::arithmetic::power2::pow2(1074)
                ==> state.conservation_notices().len() == 0
            &&& crate::laws::texts::shows_percentage(
                shown,
                all.total_cpu_ms,
                800 * state.conservation.system_cpus,
            )
        }),
{
    ResourcePhase::lemma_thresholds();
    crate::laws::system::law_usage_is_a_fraction_of_the_limit(state.aggregate());
}

/// The system is spoken of exactly when what was charged and what all workers use
/// is more than 800 ms for every CPU.
pub proof fn law_system_notice_comes_above_the_limit(state: GuardianState)
    requires
        0 < state.conservation.system_cpus,
        800 * state.conservation.system_cpus < 0x0020_0000_0000_0000,
    ensures
        state.conservation_notices().len() == 1 <==> state.conservation.total_cpu_ms
            + state.worker_cpu_ms() > 800 * state.conservation.system_cpus,
        state.aggregate().within_limits() <==> state.conservation.total_cpu_ms
            + state.worker_cpu_ms() <= 800 * state.conservation.system_cpus,
{
    crate::laws::system::law_limit_is_80_percent_of_all_cpus(state.conservation);
    crate::registry_laws::law_worker_cpu_is_watched(state);
}

/// The status lines of those workers: each has its label and its summary.
pub open spec fn lines_of(
    workers: Seq<(Seq<char>, int)>,
    cells: Seq<WorkerUsage>,
) -> Seq<Seq<char>> {
    workers.map_values(
        |w: (Seq<char>, int)| "\n  "@ + w.0 + "  "@ + cells[w.1].summary_text(),
    )
}

/// The status has one line for every registered worker, and one with the percentage
/// of 800 ms for every CPU. Where there are no workers it says so.
pub proof fn law_status_has_a_line_for_each(state: GuardianState)
    requires
        state.conservation.system_cpus <= u64::MAX,
    ensures
        state.registry.len() == 0 ==> state.status_text()
            == "resource-guardian: no workers tracked"@,
        state.registry.len() > 0 ==> state.status_text() == "resource-guardian status:"@ + lines_of(
            state.registry,
            state.cells,
        ).flatten() + "\n  conservation: CPU at "@ + crate::text::percentage(
            state.aggregate().usage_units(),
        ) + "% of 80% target"@,
        crate::laws::texts::shows_percentage(
            crate::text::percentage(state.aggregate().usage_units()),
            state.aggregate().total_cpu_ms,
            800 * state.conservation.system_cpus,
        ),
{
    crate::laws::system::law_usage_is_a_fraction_of_the_limit(state.aggregate());
    lemma_lines(state.registry, state.cells);
    lines_of(state.registry, state.cells).lemma_flatten_and_flatten_alt_are_equivalent();
}

proof fn lemma_lines(workers: Seq<(Seq<char>, int)>, cells: Seq<WorkerUsage>)
    ensures
        crate::state::lines_among(workers, cells) == lines_of(workers, cells).flatten_alt(),
    decreases workers.len(),
{
    let lines = lines_of(workers, cells);
    if workers.len() > 0 {
        let rest = workers.drop_last();
        lemma_lines(rest, cells);
        assert(lines.drop_last() =~= lines_of(rest, cells));
        assert(crate::state::lines_among(workers, cells) =~= crate::state::lines_among(rest, cells)
            + lines.last());
    }
}

} // verus!
