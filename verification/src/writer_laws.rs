//! What holds of the background writer over whole events and whole files.

use crate::counters::{bumped, TableCounters};
use crate::writer::{
    file_of, first_stage, fresh_health, line_of, stage_done, Stage, TableHealth, Verdict,
    WriterModel, MAX_CONSECUTIVE_IO_ERRORS,
};
use vstd::prelude::*;

verus! {

/// How the outside work for an event goes, where it is asked for.
pub struct Outcomes {
    /// The event can be serialized.
    pub serialized: bool,
    /// The table's file can be opened.
    pub opened: bool,
    /// The event's line can be written.
    pub written: bool,
}

/// Whether the work of `stage` goes well.
pub open spec fn outcome_of(outcomes: Outcomes, stage: Stage) -> bool {
    match stage {
        Stage::Serialize => outcomes.serialized,
        Stage::Open => outcomes.opened,
        Stage::Write => outcomes.written,
        Stage::Done(_) => true,
    }
}

/// The state and the stage after at most `steps` stages.
pub open spec fn run_stages(
    before: WriterModel,
    table: Seq<char>,
    stage: Stage,
    outcomes: Outcomes,
    steps: nat,
) -> (WriterModel, Stage)
    decreases steps,
{
    if steps == 0 || stage is Done {
        (before, stage)
    } else {
        let (after, next) = stage_done(before, table, stage, outcome_of(outcomes, stage));
        run_stages(after, table, next, outcomes, (steps - 1) as nat)
    }
}

/// The state after an event of `table`, and how its handling ended.
pub open spec fn run_event(before: WriterModel, table: Seq<char>, outcomes: Outcomes) -> (
    WriterModel,
    Stage,
) {
    run_stages(before, table, first_stage(before.health, table), outcomes, 3)
}

/// The state after `n` events of `table` in a row whose lines cannot be written.
pub open spec fn run_failures(before: WriterModel, table: Seq<char>, n: nat) -> WriterModel
    decreases n,
{
    if n == 0 {
        before
    } else {
        run_event(
            run_failures(before, table, (n - 1) as nat),
            table,
            Outcomes { serialized: true, opened: true, written: false },
        ).0
    }
}

/// Every table that reached the error limit is disabled.
pub open spec fn healthy(model: WriterModel) -> bool {
    forall|name: Seq<char>| #[trigger]
        model.health.dom().contains(name) ==> model.health[name].wf()
}

/// The handling of an event ends after at most three stages, and a table that reached the
/// error limit is still disabled after it.
pub proof fn law_event_ends(before: WriterModel, table: Seq<char>, outcomes: Outcomes)
    requires
        healthy(before),
    ensures
        run_event(before, table, outcomes).1 is Done,
        healthy(run_event(before, table, outcomes).0),
{
    reveal_with_fuel(run_stages, 4);
}

/// An event of a counted table that is not disabled is counted exactly once: as written, or
/// as an error. Its line is written exactly if it is counted as written.
pub proof fn law_event_counted_once(before: WriterModel, table: Seq<char>, outcomes: Outcomes)
    requires
        before.counters.dom().contains(table),
        !(before.health.dom().contains(table) && before.health[table].disabled),
    ensures
        ({
            let (after, end) = run_event(before, table, outcomes);
            let c0 = before.counters[table];
            let c1 = after.counters[table];
            let written = end == Stage::Done(Verdict::Written);
            &&& written == (outcomes.serialized && outcomes.written && (outcomes.opened
                || before.health.dom().contains(table)))
            &&& c1 == (if written {
                TableCounters { written: bumped(c0.written), ..c0 }
            } else {
                TableCounters { errors: bumped(c0.errors), ..c0 }
            })
        }),
{
    reveal_with_fuel(run_stages, 4);
}

/// A disabled table stays disabled: its events are discarded, and nothing is counted.
pub proof fn law_disabled_table_stays_disabled(
    before: WriterModel,
    table: Seq<char>,
    outcomes: Outcomes,
)
    requires
        before.health.dom().contains(table),
        before.health[table].disabled,
    ensures
        run_event(before, table, outcomes) == (before, Stage::Done(Verdict::Discarded)),
{
}

/// An event leaves the other tables as they were.
pub proof fn law_other_tables_untouched(
    before: WriterModel,
    table: Seq<char>,
    outcomes: Outcomes,
    other: Seq<char>,
)
    requires
        other != table,
    ensures
        ({
            let after = run_event(before, table, outcomes).0;
            &&& after.health.dom().contains(other) == before.health.dom().contains(other)
            &&& after.counters.dom().contains(other) == before.counters.dom().contains(other)
            &&& before.health.dom().contains(other) ==> after.health[other] == before.health[other]
            &&& before.counters.dom().contains(other) ==> after.counters[other]
                == before.counters[other]
        }),
{
    reveal_with_fuel(run_stages, 4);
}

/// A table is disabled by the tenth failed write in a row, and not before.
pub proof fn law_tenth_failure_disables(before: WriterModel, table: Seq<char>, n: nat)
    requires
        !before.health.dom().contains(table) || before.health[table] == fresh_health(),
        0 < n <= MAX_CONSECUTIVE_IO_ERRORS,
    ensures
        run_failures(before, table, n).health.dom().contains(table),
        run_failures(before, table, n).health[table] == (TableHealth {
            disabled: n == MAX_CONSECUTIVE_IO_ERRORS,
            consecutive_errors: n as u32,
        }),
    decreases n,
{
    reveal_with_fuel(run_stages, 4);
    if n > 1 {
        law_tenth_failure_disables(before, table, (n - 1) as nat);
    } else {
        assert(run_failures(before, table, 0) == before);
    }
}

/// A written line ends a run of errors.
pub proof fn law_write_clears_errors(before: WriterModel, table: Seq<char>, outcomes: Outcomes)
    requires
        run_event(before, table, outcomes).1 == Stage::Done(Verdict::Written),
    ensures
        run_event(before, table, outcomes).0.health.dom().contains(table),
        run_event(before, table, outcomes).0.health[table] == fresh_health(),
{
    reveal_with_fuel(run_stages, 4);
}

/// Different tables are held by different files.
pub proof fn law_tables_have_own_files(a: Seq<char>, b: Seq<char>)
    requires
        file_of(a) == file_of(b),
    ensures
        a == b,
{
    assert(a =~= file_of(a).take(a.len() as int));
    assert(b =~= file_of(b).take(b.len() as int));
}

/// What a file holds after the given serialized events were written to it.
pub open spec fn file_contents(events: Seq<Seq<u8>>) -> Seq<u8>
    decreases events.len(),
{
    if events.len() == 0 {
        Seq::empty()
    } else {
        line_of(events.first()) + file_contents(events.drop_first())
    }
}

/// The number of bytes before the first newline, or all of them if there is none.
pub open spec fn line_len(bytes: Seq<u8>) -> nat
    decreases bytes.len(),
{
    if bytes.len() == 0 || bytes.first() == 0x0a {
        0
    } else {
        1 + line_len(bytes.drop_first())
    }
}

proof fn lemma_line_len(line: Seq<u8>, rest: Seq<u8>)
    requires
        !line.contains(0x0a),
    ensures
        line_len(line_of(line) + rest) == line.len(),
    decreases line.len(),
{
    let all = line_of(line) + rest;
    if line.len() > 0 {
        assert(all.drop_first() =~= line_of(line.drop_first()) + rest);
        lemma_line_len(line.drop_first(), rest);
    }
}

/// The lines of a file, without their newlines.
pub open spec fn lines_in(bytes: Seq<u8>) -> Seq<Seq<u8>>
    decreases bytes.len(),
{
    if bytes.len() == 0 {
        Seq::empty()
    } else {
        let n = line_len(bytes) as int;
        if n >= bytes.len() {
            seq![bytes]
        } else {
            seq![bytes.take(n)] + lines_in(bytes.skip(n + 1))
        }
    }
}

/// A file holds one line per event, in order, provided that no serialized event holds a
/// newline.
pub proof fn law_one_line_per_event(events: Seq<Seq<u8>>)
    requires
        forall|i: int| 0 <= i < events.len() ==> !(#[trigger] events[i]).contains(0x0a),
    ensures
        lines_in(file_contents(events)) == events,
    decreases events.len(),
{
    let bytes = file_contents(events);
    if events.len() > 0 {
        let first = events.first();
        let rest = events.drop_first();
        law_one_line_per_event(rest);
        lemma_line_len(first, file_contents(rest));
        assert(bytes.take(first.len() as int) =~= first);
        assert(bytes.skip(first.len() as int + 1) =~= file_contents(rest));
    }
}

}
