//! What holds of a tracer over a whole run.

use crate::counters::{
    bumped, is_drop_recorded, is_known_table, marked_warned, one_more_drop, snapshot_of,
    zero_counters, DropWarnConfig, TableCounters,
};
use crate::envelope::Envelope;
use crate::writer::{
    failed_health, first_stage, is_wrapped, stage_done, Stage, TableHealth, Verdict,
    WriterContext, WriterModel,
};
use crate::writer_laws::{
    file_contents, law_disabled_table_stays_disabled, law_event_counted_once,
    law_one_line_per_event, law_other_tables_untouched, lines_in, outcome_of, run_event,
    run_stages, Outcomes,
};
use vstd::prelude::*;

verus! {

/// Something that happens in a run to an event that was offered to a collected table, or to a
/// table's file.
pub enum RunStep {
    /// The queue of an event of this table refused it.
    Refused {
        /// The table.
        table: Seq<char>,
        /// Whether the drop was warned of.
        warned: bool,
    },
    /// The writer received an event of this table.
    Handled {
        /// The table.
        table: Seq<char>,
        /// How the work for the event goes.
        outcomes: Outcomes,
        /// The event, serialized.
        json: Seq<u8>,
    },
    /// The writer flushed the file of this table.
    Flushed {
        /// The table.
        table: Seq<char>,
        /// Whether that went well.
        success: bool,
    },
}

/// Whether a table is disabled.
pub open spec fn is_disabled(model: WriterModel, table: Seq<char>) -> bool {
    model.health.dom().contains(table) && model.health[table].disabled
}

/// The state after a step.
pub open spec fn after_step(model: WriterModel, step: RunStep) -> WriterModel {
    match step {
        RunStep::Refused { table, warned } => if model.counters.dom().contains(table) {
            WriterModel {
                counters: model.counters.insert(
                    table,
                    marked_warned(one_more_drop(model.counters[table]), warned),
                ),
                ..model
            }
        } else {
            model
        },
        RunStep::Handled { table, outcomes, json } => run_event(model, table, outcomes).0,
        RunStep::Flushed { table, success } => if success || !model.health.dom().contains(table)
            || model.health[table].disabled {
            model
        } else {
            WriterModel {
                health: model.health.insert(table, failed_health(model.health[table])),
                ..model
            }
        },
    }
}

/// Recording a drop is a step of the run.
pub proof fn law_recorded_drops_are_steps(
    before: WriterModel,
    after: WriterModel,
    table: Seq<char>,
    warn_before: DropWarnConfig,
    warn_after: DropWarnConfig,
    warning: Option<u64>,
)
    requires
        is_drop_recorded(before.counters, after.counters, table, warn_before, warn_after, warning),
        after.health == before.health,
    ensures
        after == after_step(before, RunStep::Refused { table, warned: warning is Some }),
{
}

/// The number of stages that can still follow `stage`.
spec fn stages_left(stage: Stage) -> nat {
    match stage {
        Stage::Serialize => 3,
        Stage::Open => 2,
        Stage::Write => 1,
        Stage::Done(_) => 0,
    }
}

/// Whether `models` and `stages` are what the writer goes through while it carries out the stages
/// of an event of `table`, with these outcomes.
pub open spec fn is_handling(
    models: Seq<WriterModel>,
    stages: Seq<Stage>,
    table: Seq<char>,
    outcomes: Outcomes,
) -> bool {
    &&& 0 < models.len() == stages.len()
    &&& stages[0] == first_stage(models[0].health, table)
    &&& stages.last() is Done
    &&& forall|i: int|
        0 < i < models.len() ==> !(stages[i - 1] is Done) && (#[trigger] models[i], stages[i])
            == stage_done(
            models[i - 1],
            table,
            stages[i - 1],
            outcome_of(outcomes, stages[i - 1]),
        )
}

proof fn lemma_handling(
    models: Seq<WriterModel>,
    stages: Seq<Stage>,
    table: Seq<char>,
    outcomes: Outcomes,
    from: int,
    steps: nat,
)
    requires
        is_handling(models, stages, table, outcomes),
        0 <= from < models.len(),
        stages_left(stages[from]) <= steps,
    ensures
        run_stages(models[from], table, stages[from], outcomes, steps) == (
            models.last(),
            stages.last(),
        ),
    decreases models.len() - from,
{
    if from + 1 < models.len() {
        assert((models[from + 1], stages[from + 1]) == stage_done(
            models[from + 1 - 1],
            table,
            stages[from + 1 - 1],
            outcome_of(outcomes, stages[from + 1 - 1]),
        ));
        lemma_handling(models, stages, table, outcomes, from + 1, (steps - 1) as nat);
    }
}

/// Carrying out the stages of an event is a step of the run, and its verdict is how the event
/// fared in it.
pub proof fn law_handled_events_are_steps(
    models: Seq<WriterModel>,
    stages: Seq<Stage>,
    table: Seq<char>,
    outcomes: Outcomes,
    json: Seq<u8>,
)
    requires
        is_handling(models, stages, table, outcomes),
    ensures
        models.last() == after_step(models[0], RunStep::Handled { table, outcomes, json }),
        stages.last() == run_event(models[0], table, outcomes).1,
{
    lemma_handling(models, stages, table, outcomes, 0, 3);
}

/// Flushing the file of a table that is open and not disabled is a step of the run.
pub proof fn law_flushes_are_steps(
    before: WriterModel,
    after: WriterModel,
    table: Seq<char>,
    success: bool,
)
    requires
        before.health.dom().contains(table),
        !before.health[table].disabled,
        after.counters == before.counters,
        after.health == if success {
            before.health
        } else {
            before.health.insert(table, failed_health(before.health[table]))
        },
    ensures
        after == after_step(before, RunStep::Flushed { table, success }),
{
}

/// The state after the steps of a run.
pub open spec fn after_run(model: WriterModel, steps: Seq<RunStep>) -> WriterModel
    decreases steps.len(),
{
    if steps.len() == 0 {
        model
    } else {
        after_step(after_run(model, steps.drop_last()), steps.last())
    }
}

/// Whether a step refuses an event of `table`.
pub open spec fn refuses(step: RunStep, table: Seq<char>) -> bool {
    step matches RunStep::Refused { table: t, warned } && t == table
}

/// Whether a step handles an event of `table`.
pub open spec fn handles(step: RunStep, table: Seq<char>) -> bool {
    step matches RunStep::Handled { table: t, outcomes, json } && t == table
}

/// The number of steps that refuse an event of `table`.
pub open spec fn refused_count(steps: Seq<RunStep>, table: Seq<char>) -> nat
    decreases steps.len(),
{
    if steps.len() == 0 {
        0
    } else {
        refused_count(steps.drop_last(), table) + if refuses(steps.last(), table) {
            1nat
        } else {
            0
        }
    }
}

/// The number of steps that handle an event of `table` while it is not disabled.
pub open spec fn handled_count(model: WriterModel, steps: Seq<RunStep>, table: Seq<char>) -> nat
    decreases steps.len(),
{
    if steps.len() == 0 {
        0
    } else {
        handled_count(model, steps.drop_last(), table) + if handles(steps.last(), table)
            && !is_disabled(after_run(model, steps.drop_last()), table) {
            1nat
        } else {
            0
        }
    }
}

/// The events of `table`, serialized, whose lines are written, in the order in which they are
/// handled.
pub open spec fn written_events(model: WriterModel, steps: Seq<RunStep>, table: Seq<char>) -> Seq<
    Seq<u8>,
>
    decreases steps.len(),
{
    if steps.len() == 0 {
        Seq::empty()
    } else {
        let earlier = written_events(model, steps.drop_last(), table);
        match steps.last() {
            RunStep::Handled { table: t, outcomes, json } => if t == table && run_event(
                after_run(model, steps.drop_last()),
                t,
                outcomes,
            ).1 == Stage::Done(Verdict::Written) {
                earlier.push(json)
            } else {
                earlier
            },
            _ => earlier,
        }
    }
}

/// The number of events that counters account for.
pub open spec fn accounted(counters: TableCounters) -> int {
    counters.written + counters.dropped + counters.errors
}

proof fn lemma_run(model: WriterModel, steps: Seq<RunStep>, table: Seq<char>)
    requires
        model.counters.dom().contains(table),
        accounted(model.counters[table]) + steps.len() <= u64::MAX,
    ensures
        ({
            let after = after_run(model, steps);
            let c0 = model.counters[table];
            let c1 = after.counters[table];
            &&& after.counters.dom().contains(table)
            &&& c1.written == c0.written + written_events(model, steps, table).len()
            &&& c1.dropped == c0.dropped + refused_count(steps, table)
            &&& accounted(c1) == accounted(c0) + refused_count(steps, table) + handled_count(
                model,
                steps,
                table,
            )
            &&& c0.errors <= c1.errors
            &&& refused_count(steps, table) + handled_count(model, steps, table) <= steps.len()
        }),
    decreases steps.len(),
{
    reveal_with_fuel(run_stages, 4);
    if steps.len() > 0 {
        let earlier = steps.drop_last();
        lemma_run(model, earlier, table);
        let before = after_run(model, earlier);
        if let RunStep::Handled { table: t, outcomes, json } = steps.last() {
            if t != table {
                law_other_tables_untouched(before, t, outcomes, table);
            } else if is_disabled(before, table) {
                law_disabled_table_stays_disabled(before, table, outcomes);
            } else {
                law_event_counted_once(before, table, outcomes);
            }
        }
    }
}

proof fn lemma_tables_stay(model: WriterModel, steps: Seq<RunStep>, table: Seq<char>)
    ensures
        after_run(model, steps).counters.dom().contains(table) == model.counters.dom().contains(
            table,
        ),
    decreases steps.len(),
{
    reveal_with_fuel(run_stages, 4);
    if steps.len() > 0 {
        lemma_tables_stay(model, steps.drop_last(), table);
    }
}

/// Over a run, what is written, dropped and lost to errors adds up to the events that were
/// offered to a table that is not disabled. As many lines are written as are counted.
pub proof fn law_offered_events_are_accounted_for(
    model: WriterModel,
    steps: Seq<RunStep>,
    table: Seq<char>,
)
    requires
        model.counters.dom().contains(table),
        accounted(model.counters[table]) + steps.len() <= u64::MAX,
    ensures
        after_run(model, steps).counters.dom().contains(table),
        accounted(after_run(model, steps).counters[table]) == accounted(model.counters[table])
            + refused_count(steps, table) + handled_count(model, steps, table),
        after_run(model, steps).counters[table].dropped == model.counters[table].dropped
            + refused_count(steps, table),
        after_run(model, steps).counters[table].written == model.counters[table].written
            + written_events(model, steps, table).len(),
{
    lemma_run(model, steps, table);
}

/// The tables of a later snapshot are those of an earlier one, and none of their counts is
/// smaller, short of the end of their range.
pub proof fn law_snapshots_only_grow(model: WriterModel, steps: Seq<RunStep>, table: Seq<char>)
    ensures
        snapshot_of(after_run(model, steps).counters).dom().contains(table) == snapshot_of(
            model.counters,
        ).dom().contains(table),
        model.counters.dom().contains(table) && accounted(model.counters[table]) + steps.len()
            <= u64::MAX ==> {
            let earlier = snapshot_of(model.counters)[table];
            let later = snapshot_of(after_run(model, steps).counters)[table];
            &&& earlier.0 <= later.0
            &&& earlier.1 <= later.1
            &&& earlier.2 <= later.2
        },
{
    lemma_tables_stay(model, steps, table);
    if model.counters.dom().contains(table) && accounted(model.counters[table]) + steps.len()
        <= u64::MAX {
        lemma_run(model, steps, table);
    }
}

/// Over a run, the three numbers that a snapshot shows of a table together grow by exactly the
/// events that were offered to it while it was not disabled: the first by the lines that were
/// written, the second by the events that were refused, and the third by those that were lost.
pub proof fn law_snapshots_account_for_offered_events(
    model: WriterModel,
    steps: Seq<RunStep>,
    table: Seq<char>,
)
    requires
        model.counters.dom().contains(table),
        accounted(model.counters[table]) + steps.len() <= u64::MAX,
    ensures
        snapshot_of(after_run(model, steps).counters).dom().contains(table),
        ({
            let earlier = snapshot_of(model.counters)[table];
            let later = snapshot_of(after_run(model, steps).counters)[table];
            &&& later.0 + later.1 + later.2 == earlier.0 + earlier.1 + earlier.2 + refused_count(
                steps,
                table,
            ) + handled_count(model, steps, table)
            &&& later.0 == earlier.0 + written_events(model, steps, table).len()
            &&& later.1 == earlier.1 + refused_count(steps, table)
        }),
{
    lemma_run(model, steps, table);
}

/// A snapshot of a tracer that started with the known tables has exactly these, whatever
/// happens in the run.
pub proof fn law_snapshots_have_the_known_tables(
    model: WriterModel,
    steps: Seq<RunStep>,
    table: Seq<char>,
)
    requires
        model.counters.dom().contains(table) <==> is_known_table(table),
    ensures
        snapshot_of(after_run(model, steps).counters).dom().contains(table) <==> is_known_table(
            table,
        ),
{
    lemma_tables_stay(model, steps, table);
}

/// Whether all work of a step goes well.
pub open spec fn goes_well(step: RunStep) -> bool {
    match step {
        RunStep::Refused { table, warned } => true,
        RunStep::Handled { table, outcomes, json } => outcomes.serialized && outcomes.opened
            && outcomes.written,
        RunStep::Flushed { table, success } => success,
    }
}

/// The events of `table`, serialized, that the writer received, in order.
pub open spec fn received_events(steps: Seq<RunStep>, table: Seq<char>) -> Seq<Seq<u8>>
    decreases steps.len(),
{
    if steps.len() == 0 {
        Seq::empty()
    } else {
        let earlier = received_events(steps.drop_last(), table);
        match steps.last() {
            RunStep::Handled { table: t, outcomes, json } => if t == table {
                earlier.push(json)
            } else {
                earlier
            },
            _ => earlier,
        }
    }
}

proof fn lemma_smooth_run(model: WriterModel, steps: Seq<RunStep>, table: Seq<char>)
    requires
        model.health == Map::<Seq<char>, TableHealth>::empty(),
        forall|i: int| 0 <= i < steps.len() ==> goes_well(#[trigger] steps[i]),
    ensures
        !is_disabled(after_run(model, steps), table),
        written_events(model, steps, table) == received_events(steps, table),
        after_run(model, steps).health.dom().contains(table) <==> received_events(
            steps,
            table,
        ).len() > 0,
        handled_count(model, steps, table) == received_events(steps, table).len(),
    decreases steps.len(),
{
    reveal_with_fuel(run_stages, 4);
    if steps.len() > 0 {
        let earlier = steps.drop_last();
        lemma_smooth_run(model, earlier, table);
        let before = after_run(model, earlier);
        assert(goes_well(steps[steps.len() - 1]));
        if let RunStep::Handled { table: t, outcomes, json } = steps.last() {
            if t != table {
                law_other_tables_untouched(before, t, outcomes, table);
            } else {
                assert(run_event(before, t, outcomes).1 == Stage::Done(Verdict::Written));
            }
        }
    }
}

/// When a run in which nothing fails has ended, each event that was offered to a collected
/// table is counted as written or as dropped, and none as an error. The table's file holds the
/// events that its queue accepted, one line each, in order. A table without such an event has
/// no file.
pub proof fn law_smooth_run_is_balanced(
    model: WriterModel,
    steps: Seq<RunStep>,
    table: Seq<char>,
)
    requires
        model.health == Map::<Seq<char>, TableHealth>::empty(),
        model.counters.dom().contains(table),
        model.counters[table] == zero_counters(),
        steps.len() <= u64::MAX,
        forall|i: int| 0 <= i < steps.len() ==> goes_well(#[trigger] steps[i]),
        forall|i: int|
            0 <= i < received_events(steps, table).len() ==> !(#[trigger] received_events(
                steps,
                table,
            )[i]).contains(0x0a),
    ensures
        ({
            let after = after_run(model, steps);
            let written = written_events(model, steps, table);
            &&& after.counters[table].written == received_events(steps, table).len()
            &&& after.counters[table].dropped == refused_count(steps, table)
            &&& after.counters[table].errors == 0
            &&& written == received_events(steps, table)
            &&& lines_in(file_contents(written)) == received_events(steps, table)
            &&& after.health.dom().contains(table) <==> after.counters[table].written > 0
        }),
{
    lemma_run(model, steps, table);
    lemma_smooth_run(model, steps, table);
    law_one_line_per_event(received_events(steps, table));
}

/// What tells a line of a trace apart from the others.
pub struct Stamp {
    /// The run ID.
    pub run_id: Seq<char>,
    /// The node identifier.
    pub node_id: Seq<char>,
    /// The sequence number.
    pub seq: u64,
}

/// The stamp of an envelope, if there is one.
pub open spec fn stamp_of<T>(envelope: Option<Envelope<T>>) -> Option<Stamp> {
    match envelope {
        Some(e) => Some(Stamp { run_id: e.run_id@, node_id: e.node_id@, seq: e.seq }),
        None => None,
    }
}

/// Whether a context gives this stamp, and `after` is what it then is.
pub open spec fn is_stamped(
    before: WriterContext,
    after: WriterContext,
    stamp: Option<Stamp>,
) -> bool {
    match stamp {
        Some(s) => {
            &&& s.run_id == before.run_id@
            &&& s.node_id == before.node_id@
            &&& s.seq == before.seq
            &&& after == (WriterContext { seq: bumped(before.seq), ..before })
        },
        None => after == before,
    }
}

/// Wrapping an event stamps it, whatever type it has and whatever the clocks read.
pub proof fn law_wrapping_stamps<T>(
    before: WriterContext,
    after: WriterContext,
    table: &'static str,
    reading: Option<(u64, u32)>,
    elapsed: u128,
    msg: T,
    envelope: Option<Envelope<T>>,
)
    requires
        is_wrapped(before, after, table, reading, elapsed, msg, envelope),
    ensures
        is_stamped(before, after, stamp_of(envelope)),
{
}

/// Whether `contexts` are what the context of a run goes through while it gives these stamps.
pub open spec fn is_numbering(contexts: Seq<WriterContext>, stamps: Seq<Option<Stamp>>) -> bool {
    &&& contexts.len() == stamps.len() + 1
    &&& forall|i: int|
        0 <= i < stamps.len() ==> is_stamped(
            #[trigger] contexts[i],
            contexts[i + 1],
            stamps[i],
        )
}

proof fn lemma_numbering(
    contexts: Seq<WriterContext>,
    stamps: Seq<Option<Stamp>>,
    from: int,
    upto: int,
)
    requires
        is_numbering(contexts, stamps),
        contexts[0].seq + stamps.len() <= u64::MAX,
        0 <= from <= upto <= stamps.len(),
    ensures
        contexts[upto].run_id == contexts[0].run_id,
        contexts[upto].node_id == contexts[0].node_id,
        contexts[from].seq <= contexts[upto].seq <= contexts[0].seq + upto,
        from < upto && stamps[from] is Some ==> contexts[from].seq < contexts[upto].seq,
        (forall|i: int| 0 <= i < upto ==> (#[trigger] stamps[i]) is Some) ==> contexts[upto].seq
            == contexts[0].seq + upto,
    decreases upto,
{
    if upto > 0 {
        let last = upto - 1;
        lemma_numbering(contexts, stamps, if from <= last { from } else { last }, last);
        assert(is_stamped(contexts[last], contexts[last + 1], stamps[last]));
    }
}

/// All lines of a run bear its run and node identifiers, and a later line has a higher sequence
/// number, whatever their tables are.
pub proof fn law_lines_of_a_run_are_told_apart(
    contexts: Seq<WriterContext>,
    stamps: Seq<Option<Stamp>>,
    i: int,
    j: int,
)
    requires
        is_numbering(contexts, stamps),
        contexts[0].seq + stamps.len() <= u64::MAX,
        0 <= i < j < stamps.len(),
        stamps[i] is Some,
        stamps[j] is Some,
    ensures
        stamps[i]->0.run_id == contexts[0].run_id@,
        stamps[i]->0.node_id == contexts[0].node_id@,
        stamps[j]->0.run_id == contexts[0].run_id@,
        stamps[j]->0.node_id == contexts[0].node_id@,
        stamps[i]->0.seq < stamps[j]->0.seq,
{
    lemma_numbering(contexts, stamps, 0, i);
    lemma_numbering(contexts, stamps, i, j);
    assert(is_stamped(contexts[i], contexts[i + 1], stamps[i]));
    assert(is_stamped(contexts[j], contexts[j + 1], stamps[j]));
}

/// Where every event of a run is wrapped, the lines are numbered without gaps.
pub proof fn law_unfailing_lines_are_numbered_without_gaps(
    contexts: Seq<WriterContext>,
    stamps: Seq<Option<Stamp>>,
    i: int,
)
    requires
        is_numbering(contexts, stamps),
        contexts[0].seq + stamps.len() <= u64::MAX,
        0 <= i < stamps.len(),
        forall|k: int| 0 <= k < stamps.len() ==> (#[trigger] stamps[k]) is Some,
    ensures
        stamps[i]->0.seq == contexts[0].seq + i,
{
    lemma_numbering(contexts, stamps, 0, i);
    assert(is_stamped(contexts[i], contexts[i + 1], stamps[i]));
}

}
