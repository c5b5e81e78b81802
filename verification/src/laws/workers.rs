//! What holds of a single worker, in terms of its counters and budgets.
use crate::binary64::{Binary64, LIMIT};
use crate::budget::ResourceBudget;
use crate::notice::NoticeLevel;
use crate::phase::ResourcePhase;
use crate::usage::WorkerUsage;
use vstd::prelude::*;

verus! {

/// Whether `used` has reached that many percent of a budget there is.
pub open spec fn reached(used: nat, budget: nat, percent: nat) -> bool {
    budget > 0 && 100 * used >= percent * budget
}

/// Whether the worker has reached that many percent of one of its budgets.
pub open spec fn some_budget_reached(usage: WorkerUsage, percent: nat) -> bool {
    ||| reached(usage.peak_heap as nat, usage.budget.memory as nat, percent)
    ||| reached(usage.cpu_ms as nat, usage.budget.cpu as nat, percent)
    ||| reached(usage.network_bytes as nat, usage.budget.network as nat, percent)
    ||| reached(usage.open_files as nat, usage.budget.file_handles as nat, percent)
}

/// Whether no budget is more than a fourteenth of two to the power of 53, so that
/// fractions of it can be told apart from the percentages at which phases begin.
pub open spec fn budgets_are_exact(budget: ResourceBudget) -> bool {
    &&& 14 * budget.memory <= 0x0020_0000_0000_0000
    &&& 14 * budget.cpu <= 0x0020_0000_0000_0000
    &&& 14 * budget.network <= 0x0020_0000_0000_0000
    &&& 14 * budget.file_handles <= 0x0020_0000_0000_0000
}

/// Whether `phase` is the one that begins at that many percent, or a later one.
pub open spec fn has_begun(phase: ResourcePhase, percent: nat) -> bool {
    match phase {
        ResourcePhase::Normal => false,
        ResourcePhase::Warning => percent <= 70,
        ResourcePhase::Degraded => percent <= 85,
        ResourcePhase::HardStop => percent <= 100,
    }
}

proof fn lemma_dimension(used: nat, budget: nat, percent: nat)
    requires
        14 * budget <= LIMIT,
        percent == 70 || percent == 85 || percent == 100,
    ensures
        has_begun(ResourcePhase::of_units(Binary64::ratio_units(used, budget)), percent)
            <==> reached(used, budget, percent),
{
    if budget == 0 {
        crate::laws::law_empty_budget_is_not_enforced(used);
    } else {
        crate::laws::law_hard_stop_means_spent(used, budget);
        crate::laws::law_degraded_begins_at_85_percent(used, budget);
        crate::laws::law_warning_begins_at_70_percent(used, budget);
    }
}

/// A worker is in the phase that the worst of its four budgets calls for: it is
/// warned of from 70 % on, throttled from 85 % on, and stopped from 100 % on.
pub proof fn law_phases_follow_the_counters(usage: WorkerUsage)
    requires
        budgets_are_exact(usage.budget),
    ensures
        usage.phase() == ResourcePhase::Normal <==> !some_budget_reached(usage, 70),
        usage.phase() == ResourcePhase::Warning <==> some_budget_reached(usage, 70)
            && !some_budget_reached(usage, 85),
        usage.phase() == ResourcePhase::Degraded <==> some_budget_reached(usage, 85)
            && !some_budget_reached(usage, 100),
        usage.phase() == ResourcePhase::HardStop <==> some_budget_reached(usage, 100),
        usage.phase().severity() >= ResourcePhase::Warning.severity() <==> some_budget_reached(
            usage,
            70,
        ),
        usage.phase().severity() >= ResourcePhase::Degraded.severity() <==> some_budget_reached(
            usage,
            85,
        ),
        usage.due_for_stop() <==> some_budget_reached(usage, 100),
{
    crate::laws::law_worst_dimension_decides(usage);
    lemma_every_dimension(usage, 70);
    lemma_every_dimension(usage, 85);
    lemma_every_dimension(usage, 100);
}

proof fn lemma_every_dimension(usage: WorkerUsage, percent: nat)
    requires
        budgets_are_exact(usage.budget),
        percent == 70 || percent == 85 || percent == 100,
    ensures
        has_begun(usage.phase(), percent) <==> some_budget_reached(usage, percent),
{
    crate::laws::law_worst_dimension_decides(usage);
    lemma_dimension(usage.peak_heap as nat, usage.budget.memory as nat, percent);
    lemma_dimension(usage.cpu_ms as nat, usage.budget.cpu as nat, percent);
    lemma_dimension(usage.network_bytes as nat, usage.budget.network as nat, percent);
    lemma_dimension(usage.open_files as nat, usage.budget.file_handles as nat, percent);
}

/// Whether `used` is that many percent of a budget there is, and one part in two
/// to the power of 50 more.
pub open spec fn clearly_reached(used: nat, budget: nat, percent: nat) -> bool {
    budget > 0 && 100 * used * 0x0004_0000_0000_0000 >= percent * budget * 0x0004_0000_0000_0001
}

/// Whether `used` falls short of that many percent of the budget by one part in
/// two to the power of 50; of no budget, it always does.
pub open spec fn clearly_missed(used: nat, budget: nat, percent: nat) -> bool {
    budget == 0 || 100 * used * 0x0004_0000_0000_0001 <= percent * budget * 0x0004_0000_0000_0000
}

proof fn lemma_any_dimension(used: nat, budget: nat, percent: nat)
    requires
        percent == 70 || percent == 85 || percent == 100,
    ensures
        ({
            let phase = ResourcePhase::of_units(Binary64::ratio_units(used, budget));
            &&& clearly_reached(used, budget, percent) ==> has_begun(phase, percent)
            &&& clearly_missed(used, budget, percent) ==> !has_begun(phase, percent)
        }),
{
    if budget == 0 {
        crate::laws::law_empty_budget_is_not_enforced(used);
    } else {
        crate::laws::law_phases_of_any_budget(used, budget, percent);
    }
}

/// Whatever the budgets, a phase has begun once one of them is reached to its
/// percentage, and has not while none is, up to one part in two to the power of 50.
pub proof fn law_phases_follow_any_counters(usage: WorkerUsage, percent: nat)
    requires
        percent == 70 || percent == 85 || percent == 100,
    ensures
        clearly_reached(usage.peak_heap as nat, usage.budget.memory as nat, percent)
            || clearly_reached(usage.cpu_ms as nat, usage.budget.cpu as nat, percent)
            || clearly_reached(usage.network_bytes as nat, usage.budget.network as nat, percent)
            || clearly_reached(usage.open_files as nat, usage.budget.file_handles as nat, percent)
            ==> has_begun(usage.phase(), percent),
        clearly_missed(usage.peak_heap as nat, usage.budget.memory as nat, percent)
            && clearly_missed(usage.cpu_ms as nat, usage.budget.cpu as nat, percent)
            && clearly_missed(usage.network_bytes as nat, usage.budget.network as nat, percent)
            && clearly_missed(usage.open_files as nat, usage.budget.file_handles as nat, percent)
            ==> !has_begun(usage.phase(), percent),
{
    crate::laws::law_worst_dimension_decides(usage);
    lemma_any_dimension(usage.peak_heap as nat, usage.budget.memory as nat, percent);
    lemma_any_dimension(usage.cpu_ms as nat, usage.budget.cpu as nat, percent);
    lemma_any_dimension(usage.network_bytes as nat, usage.budget.network as nat, percent);
    lemma_any_dimension(usage.open_files as nat, usage.budget.file_handles as nat, percent);
}

/// The four fractions are each a counter over its own budget, and the highest is
/// one of them that none exceeds.
pub proof fn law_fractions_are_of_the_counters(usage: WorkerUsage)
    ensures
        crate::laws::numbers::is_fraction(
            usage.memory_units(),
            usage.peak_heap as nat,
            usage.budget.memory as nat,
        ),
        crate::laws::numbers::is_fraction(
            usage.cpu_units(),
            usage.cpu_ms as nat,
            usage.budget.cpu as nat,
        ),
        crate::laws::numbers::is_fraction(
            usage.network_units(),
            usage.network_bytes as nat,
            usage.budget.network as nat,
        ),
        crate::laws::numbers::is_fraction(
            usage.file_units(),
            usage.open_files as nat,
            usage.budget.file_handles as nat,
        ),
        usage.max_units() >= usage.memory_units(),
        usage.max_units() >= usage.cpu_units(),
        usage.max_units() >= usage.network_units(),
        usage.max_units() >= usage.file_units(),
        usage.max_units() == usage.memory_units() || usage.max_units() == usage.cpu_units()
            || usage.max_units() == usage.network_units() || usage.max_units()
            == usage.file_units(),
{
    crate::laws::numbers::law_ratio_is_the_quotient(
        usage.peak_heap as nat,
        usage.budget.memory as nat,
    );
    crate::laws::numbers::law_ratio_is_the_quotient(usage.cpu_ms as nat, usage.budget.cpu as nat);
    crate::laws::numbers::law_ratio_is_the_quotient(
        usage.network_bytes as nat,
        usage.budget.network as nat,
    );
    crate::laws::numbers::law_ratio_is_the_quotient(
        usage.open_files as nat,
        usage.budget.file_handles as nat,
    );
}

/// Of two workers with the same budgets, the one that has used no less of anything
/// is in no milder phase.
pub proof fn law_using_more_is_never_milder(less: WorkerUsage, more: WorkerUsage)
    requires
        less.budget == more.budget,
        less.peak_heap <= more.peak_heap,
        less.cpu_ms <= more.cpu_ms,
        less.network_bytes <= more.network_bytes,
        less.open_files <= more.open_files,
    ensures
        less.max_units() <= more.max_units(),
        less.phase().severity() <= more.phase().severity(),
        less.due_for_stop() ==> more.due_for_stop(),
{
    let budget = less.budget;
    lemma_more(less.peak_heap as nat, more.peak_heap as nat, budget.memory as nat);
    lemma_more(less.cpu_ms as nat, more.cpu_ms as nat, budget.cpu as nat);
    lemma_more(less.network_bytes as nat, more.network_bytes as nat, budget.network as nat);
    lemma_more(less.open_files as nat, more.open_files as nat, budget.file_handles as nat);
    crate::laws::law_phase_is_monotonic(less.max_units(), more.max_units());
}

proof fn lemma_more(used: nat, more: nat, budget: nat)
    requires
        used <= more,
    ensures
        Binary64::ratio_units(used, budget) <= Binary64::ratio_units(more, budget),
{
    if budget > 0 {
        crate::laws::law_ratio_is_monotonic(used, more, budget, budget);
    }
}

/// The summary shows, in this order, what percentage was used of the budgets of
/// memory, CPU, network and files.
pub proof fn law_summary_shows_all_budgets(usage: WorkerUsage) -> (shown: (
    Seq<char>,
    Seq<char>,
    Seq<char>,
    Seq<char>,
))
    ensures
        usage.summary_text() == "mem="@ + shown.0 + "% cpu="@ + shown.1 + "% net="@ + shown.2
            + "% files="@ + shown.3 + "%"@,
        crate::laws::texts::shows_percentage(
            shown.0,
            usage.peak_heap as nat,
            usage.budget.memory as nat,
        ),
        crate::laws::texts::shows_percentage(
            shown.1,
            usage.cpu_ms as nat,
            usage.budget.cpu as nat,
        ),
        crate::laws::texts::shows_percentage(
            shown.2,
            usage.network_bytes as nat,
            usage.budget.network as nat,
        ),
        crate::laws::texts::shows_percentage(
            shown.3,
            usage.open_files as nat,
            usage.budget.file_handles as nat,
        ),
        crate::laws::texts::read_tenths(shown.0) == Binary64::tenths_of(
            Binary64::percent_units(usage.memory_units()),
        ),
        crate::laws::texts::read_tenths(shown.1) == Binary64::tenths_of(
            Binary64::percent_units(usage.cpu_units()),
        ),
        crate::laws::texts::read_tenths(shown.2) == Binary64::tenths_of(
            Binary64::percent_units(usage.network_units()),
        ),
        crate::laws::texts::read_tenths(shown.3) == Binary64::tenths_of(
            Binary64::percent_units(usage.file_units()),
        ),
{
    crate::laws::texts::law_percentages_show_the_fraction(
        usage.peak_heap as nat,
        usage.budget.memory as nat,
    );
    crate::laws::texts::law_percentages_show_the_fraction(
        usage.cpu_ms as nat,
        usage.budget.cpu as nat,
    );
    crate::laws::texts::law_percentages_show_the_fraction(
        usage.network_bytes as nat,
        usage.budget.network as nat,
    );
    crate::laws::texts::law_percentages_show_the_fraction(
        usage.open_files as nat,
        usage.budget.file_handles as nat,
    );
    crate::laws::texts::law_percentages_read_back(usage.memory_units());
    crate::laws::texts::law_percentages_read_back(usage.cpu_units());
    crate::laws::texts::law_percentages_read_back(usage.network_units());
    crate::laws::texts::law_percentages_read_back(usage.file_units());
    (
        crate::text::percentage(usage.memory_units()),
        crate::text::percentage(usage.cpu_units()),
        crate::text::percentage(usage.network_units()),
        crate::text::percentage(usage.file_units()),
    )
}

/// Where a text without the sign ends at a percent sign, it can be told from what
/// follows.
proof fn lemma_split(a: Seq<char>, p: Seq<char>, b: Seq<char>, q: Seq<char>)
    requires
        a + p == b + q,
        forall|i: int| 0 <= i < a.len() ==> #[trigger] a[i] != '%',
        forall|i: int| 0 <= i < b.len() ==> #[trigger] b[i] != '%',
        p.len() > 0 && p[0] == '%',
        q.len() > 0 && q[0] == '%',
    ensures
        a == b,
        p == q,
{
    if a.len() < b.len() {
        assert((b + q)[a.len() as int] == b[a.len() as int]);
        assert((a + p)[a.len() as int] == p[0]);
    } else if b.len() < a.len() {
        assert((a + p)[b.len() as int] == a[b.len() as int]);
        assert((b + q)[b.len() as int] == q[0]);
    }
    lemma_rest(a, p, b, q);
}

proof fn lemma_rest(a: Seq<char>, p: Seq<char>, b: Seq<char>, q: Seq<char>)
    requires
        a + p == b + q,
        a.len() == b.len(),
    ensures
        a == b,
        p == q,
{
    assert(a =~= (a + p).take(a.len() as int));
    assert(b =~= (b + q).take(b.len() as int));
    assert(p =~= (a + p).skip(a.len() as int));
    assert(q =~= (b + q).skip(b.len() as int));
}

proof fn lemma_no_percent_sign(text: Seq<char>)
    requires
        crate::laws::texts::has_one_decimal(text),
    ensures
        forall|i: int| 0 <= i < text.len() ==> #[trigger] text[i] != '%',
{
    let whole = text.take(text.len() - 2);
    assert forall|i: int| 0 <= i < text.len() implies #[trigger] text[i] != '%' by {
        if i < text.len() - 2 {
            assert(whole[i] == text[i]);
            assert(crate::laws::texts::is_digit(whole[i]));
        }
    }
}

/// Workers with the same summary show the same percentage of each budget: whichever
/// of the four differs can be told.
pub proof fn law_summaries_tell_workers_apart(a: WorkerUsage, b: WorkerUsage)
    requires
        a.summary_text() == b.summary_text(),
    ensures
        Binary64::tenths_of(Binary64::percent_units(a.memory_units())) == Binary64::tenths_of(
            Binary64::percent_units(b.memory_units()),
        ),
        Binary64::tenths_of(Binary64::percent_units(a.cpu_units())) == Binary64::tenths_of(
            Binary64::percent_units(b.cpu_units()),
        ),
        Binary64::tenths_of(Binary64::percent_units(a.network_units())) == Binary64::tenths_of(
            Binary64::percent_units(b.network_units()),
        ),
        Binary64::tenths_of(Binary64::percent_units(a.file_units())) == Binary64::tenths_of(
            Binary64::percent_units(b.file_units()),
        ),
{
    let s = law_summary_shows_all_budgets(a);
    let t = law_summary_shows_all_budgets(b);
    let (s3, t3) = (s.3 + "%"@, t.3 + "%"@);
    let (s2, t2) = (s.2 + ("% files="@ + s3), t.2 + ("% files="@ + t3));
    let (s1, t1) = (s.1 + ("% net="@ + s2), t.1 + ("% net="@ + t2));
    let (s0, t0) = (s.0 + ("% cpu="@ + s1), t.0 + ("% cpu="@ + t1));
    lemma_grouped(s);
    lemma_grouped(t);
    lemma_separators();
    lemma_rest("mem="@, s0, "mem="@, t0);
    lemma_part("% cpu="@, s.0, s1, t.0, t1);
    lemma_part("% net="@, s.1, s2, t.1, t2);
    lemma_part("% files="@, s.2, s3, t.2, t3);
    lemma_no_percent_sign(s.3);
    lemma_no_percent_sign(t.3);
    lemma_split(s.3, "%"@, t.3, "%"@);
}

proof fn lemma_grouped(s: (Seq<char>, Seq<char>, Seq<char>, Seq<char>))
    ensures
        "mem="@ + s.0 + "% cpu="@ + s.1 + "% net="@ + s.2 + "% files="@ + s.3 + "%"@ == "mem="@ + (
        s.0 + ("% cpu="@ + (s.1 + ("% net="@ + (s.2 + ("% files="@ + (s.3 + "%"@))))))),
{
    assert("mem="@ + s.0 + "% cpu="@ + s.1 + "% net="@ + s.2 + "% files="@ + s.3 + "%"@ =~= "mem="@
        + (s.0 + ("% cpu="@ + (s.1 + ("% net="@ + (s.2 + ("% files="@ + (s.3 + "%"@))))))));
}

proof fn lemma_separators()
    ensures
        "% cpu="@.len() > 0 && "% cpu="@[0] == '%',
        "% net="@.len() > 0 && "% net="@[0] == '%',
        "% files="@.len() > 0 && "% files="@[0] == '%',
        "%"@.len() > 0 && "%"@[0] == '%',
{
    reveal_strlit("% cpu=");
    reveal_strlit("% net=");
    reveal_strlit("% files=");
    reveal_strlit("%");
}

proof fn lemma_part(
    separator: Seq<char>,
    a: Seq<char>,
    p: Seq<char>,
    b: Seq<char>,
    q: Seq<char>,
)
    requires
        separator.len() > 0 && separator[0] == '%',
        crate::laws::texts::has_one_decimal(a),
        crate::laws::texts::has_one_decimal(b),
        a + (separator + p) == b + (separator + q),
    ensures
        a == b,
        p == q,
{
    lemma_no_percent_sign(a);
    lemma_no_percent_sign(b);
    lemma_split(a, separator + p, b, separator + q);
    lemma_rest(separator, p, separator, q);
}

/// A new worker has used nothing of the budget it was given, and no phase but the
/// normal one is recorded of it.
pub proof fn law_new_workers_have_used_nothing(budget: ResourceBudget)
    ensures
        ({
            let usage = WorkerUsage::idle(budget);
            &&& usage.budget == budget
            &&& usage.peak_heap == 0
            &&& usage.cpu_ms == 0
            &&& usage.network_bytes == 0
            &&& usage.open_files == 0
            &&& usage.last_phase == ResourcePhase::Normal
        }),
{
}

/// An inspection records the phase, and leaves the counters and the budget.
pub proof fn law_inspection_only_records(usage: WorkerUsage)
    ensures
        usage.inspected().last_phase == usage.phase(),
        usage.inspected().phase() == usage.phase(),
        usage.inspected().peak_heap == usage.peak_heap,
        usage.inspected().cpu_ms == usage.cpu_ms,
        usage.inspected().network_bytes == usage.network_bytes,
        usage.inspected().open_files == usage.open_files,
        usage.inspected().budget == usage.budget,
{
}

/// A new window starts the counters of CPU and network anew, and leaves all else.
pub proof fn law_window_resets_only_rates(usage: WorkerUsage)
    ensures
        usage.in_new_window().cpu_ms == 0,
        usage.in_new_window().network_bytes == 0,
        usage.in_new_window().peak_heap == usage.peak_heap,
        usage.in_new_window().open_files == usage.open_files,
        usage.in_new_window().budget == usage.budget,
        usage.in_new_window().last_phase == usage.last_phase,
{
}

/// Whether `phase` lies beyond the one that was recorded.
pub open spec fn beyond(phase: ResourcePhase, recorded: ResourcePhase) -> bool {
    match phase {
        ResourcePhase::Normal => false,
        ResourcePhase::Warning => recorded == ResourcePhase::Normal,
        ResourcePhase::Degraded => recorded == ResourcePhase::Normal || recorded
            == ResourcePhase::Warning,
        ResourcePhase::HardStop => recorded != ResourcePhase::HardStop,
    }
}

/// What is said of a worker that has gone beyond its recorded phase: an error with
/// its summary where it has to be stopped, else a warning that names the phase and
/// the highest percentage. Nothing is said of any other.
pub proof fn law_notices_name_worker_and_phase(usage: WorkerUsage, label: Seq<char>)
    ensures
        usage.notice_of(label) is Some <==> beyond(usage.phase(), usage.last_phase),
        usage.notice_of(label) matches Some(notice) ==> {
            let at = crate::text::percentage(usage.max_units());
            &&& usage.phase() == ResourcePhase::HardStop ==> notice.0 == NoticeLevel::Error
                && notice.1 == "[resource-guardian] HARD STOP '"@ + label + "' — "@
                + usage.summary_text()
            &&& usage.phase() == ResourcePhase::Degraded ==> notice.0 == NoticeLevel::Warn
                && notice.1 == "[resource-guardian] "@ + "DEGRADED"@ + " '"@ + label + "' at "@ + at
                + "% — "@ + usage.summary_text()
            &&& usage.phase() == ResourcePhase::Warning ==> notice.0 == NoticeLevel::Warn
                && notice.1 == "[resource-guardian] "@ + "WARNING"@ + " '"@ + label + "' at "@ + at
                + "% — "@ + usage.summary_text()
        },
{
}

/// A notice names the highest percentage of the four.
pub proof fn law_notices_show_the_worst_budget(usage: WorkerUsage)
    ensures
        ({
            let at = crate::text::percentage(usage.max_units());
            ||| crate::laws::texts::shows_percentage(
                at,
                usage.peak_heap as nat,
                usage.budget.memory as nat,
            )
            ||| crate::laws::texts::shows_percentage(
                at,
                usage.cpu_ms as nat,
                usage.budget.cpu as nat,
            )
            ||| crate::laws::texts::shows_percentage(
                at,
                usage.network_bytes as nat,
                usage.budget.network as nat,
            )
            ||| crate::laws::texts::shows_percentage(
                at,
                usage.open_files as nat,
                usage.budget.file_handles as nat,
            )
        }),
{
    crate::laws::texts::law_percentages_show_the_fraction(
        usage.peak_heap as nat,
        usage.budget.memory as nat,
    );
    crate::laws::texts::law_percentages_show_the_fraction(
        usage.cpu_ms as nat,
        usage.budget.cpu as nat,
    );
    crate::laws::texts::law_percentages_show_the_fraction(
        usage.network_bytes as nat,
        usage.budget.network as nat,
    );
    crate::laws::texts::law_percentages_show_the_fraction(
        usage.open_files as nat,
        usage.budget.file_handles as nat,
    );
}

/// A heap whose peak is over the budget does not grow. Any other is given the least
/// of twice its limit, the budget, and what the machine can address.
pub proof fn law_heap_limit_is_the_least(usage: WorkerUsage, current: usize)
    ensures
        usage.heap_blocked() <==> usage.peak_heap > usage.budget.memory,
        usage.peak_heap > usage.budget.memory ==> usage.next_heap_limit(current) == current,
        usage.peak_heap <= usage.budget.memory ==> {
            let limit = usage.next_heap_limit(current);
            &&& limit <= 2 * current
            &&& limit <= usage.budget.memory
            &&& limit <= usize::MAX
            &&& limit == 2 * current || limit == usage.budget.memory || limit == usize::MAX
        },
        usage.peak_heap <= usage.budget.memory && 2 * current >= usage.budget.memory
            && usage.budget.memory <= usize::MAX ==> usage.next_heap_limit(current)
            == usage.budget.memory,
        usage.peak_heap <= usage.budget.memory && 2 * current <= usage.budget.memory && 2 * current
            <= usize::MAX ==> usage.next_heap_limit(current) == 2 * current,
{
}

/// What is said of a heap near its limit: a warning with both numbers where it is
/// over the budget, and a line with the budget where its limit comes to that.
pub proof fn law_heap_notices_give_the_numbers(usage: WorkerUsage, current: usize)
    ensures
        usage.peak_heap > usage.budget.memory ==> usage.heap_notice(current) == Some(
            (
                NoticeLevel::Warn,
                "[resource-guardian] near-heap-limit: peak="@ + crate::text::digits(
                    usage.peak_heap as nat,
                ) + " budget="@ + crate::text::digits(usage.budget.memory as nat)
                    + " — blocking growth"@,
            ),
        ),
        usage.peak_heap <= usage.budget.memory && 2 * current >= usage.budget.memory
            && usage.budget.memory <= usize::MAX ==> usage.heap_notice(current) == Some(
            (
                NoticeLevel::Info,
                "[resource-guardian] near-heap-limit: capping at budget "@ + crate::text::digits(
                    usage.budget.memory as nat,
                ),
            ),
        ),
        usage.peak_heap <= usage.budget.memory && (2 * current < usage.budget.memory
            || usage.budget.memory > usize::MAX) ==> usage.heap_notice(current) is None,
{
}

} // verus!
