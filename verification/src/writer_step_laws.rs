//! What the writer does with each event, each failure and each reading of the clocks.

use crate::counters::{Counters, TableCounters};
use crate::envelope::Envelope;
use crate::text::hex_u128;
use crate::writer::{
    file_name, json_line, nanos_low_bits, FlushVerdict, LoopAction, Stage, Verdict, Wake,
    WriterContext, WriterState,
};
use vstd::prelude::*;

verus! {

/// A writer starts with no table opened or disabled, so that every event is serialized first.
pub proof fn law_new_writer_takes_every_table(state: WriterState, table: &str, stage: Stage)
    requires
        call_ensures(WriterState::new, (), state),
        call_ensures(WriterState::start_event, (&state, table), stage),
    ensures
        stage is Serialize,
        !state.health().dom().contains(table@),
        state.unflushed() == 0,
{
}

/// An event is discarded at once exactly if its table is disabled.
pub proof fn law_disabled_tables_discard(state: WriterState, table: &str, stage: Stage)
    requires
        call_ensures(WriterState::start_event, (&state, table), stage),
    ensures
        stage == Stage::Done(Verdict::Discarded) <==> state.health().dom().contains(table@)
            && state.health()[table@].disabled,
        stage != Stage::Done(Verdict::Discarded) <==> stage is Serialize,
{
}

/// A stage changes the counts and the health of the event's table only: an event counts as
/// written exactly when its line was, and as an error exactly when a stage failed.
pub proof fn law_stages_are_counted(
    state: &mut WriterState,
    table: &str,
    stage: Stage,
    success: bool,
    counters: &mut Counters,
    next: Stage,
    before: Option<TableCounters>,
    after: Option<TableCounters>,
    other: &str,
    other_before: Option<TableCounters>,
    other_after: Option<TableCounters>,
)
    requires
        call_ensures(
            WriterState::advance_event,
            (state, table, stage, success, counters),
            next,
        ),
        !(stage is Done),
        call_ensures(Counters::get, (&*old(counters), table), before),
        call_ensures(Counters::get, (&*final(counters), table), after),
        call_ensures(Counters::get, (&*old(counters), other), other_before),
        call_ensures(Counters::get, (&*final(counters), other), other_after),
        other@ != table@,
        before matches Some(b) ==> b.written < u64::MAX && b.errors < u64::MAX,
    ensures
        other_after == other_before,
        final(state).health().dom().contains(other@) == old(state).health().dom().contains(other@),
        final(state).health().dom().contains(other@) ==> final(state).health()[other@]
            == old(state).health()[other@],
        before is None ==> after is None,
        before matches Some(b) ==> {
            &&& after matches Some(a)
            &&& a.written == if stage is Write && success {
                b.written + 1
            } else {
                b.written as int
            }
            &&& a.errors == if success {
                b.errors as int
            } else {
                b.errors + 1
            }
            &&& a.dropped == b.dropped
        },
{
}

/// An event that could not be serialized is lost, and its table stays as it is. One that could is
/// written to its table's file, which is opened first where it was not tried before.
pub proof fn law_serialized_events_are_written(
    state: &mut WriterState,
    table: &str,
    success: bool,
    counters: &mut Counters,
    next: Stage,
)
    requires
        call_ensures(
            WriterState::advance_event,
            (state, table, Stage::Serialize, success, counters),
            next,
        ),
    ensures
        final(state).health() == old(state).health(),
        !success <==> next == Stage::Done(Verdict::SerializeFailed),
        success && !old(state).health().dom().contains(table@) <==> next is Open,
        success && old(state).health().dom().contains(table@)
            && !old(state).health()[table@].disabled <==> next is Write,
        success && old(state).health().dom().contains(table@)
            && old(state).health()[table@].disabled <==> next == Stage::Done(Verdict::Discarded),
{
}

/// A file that was opened is written to, and its table has no errors yet. A table whose file
/// cannot be opened is disabled at once.
pub proof fn law_unopened_tables_are_disabled(
    state: &mut WriterState,
    table: &str,
    success: bool,
    counters: &mut Counters,
    next: Stage,
    afterwards: Stage,
)
    requires
        call_ensures(
            WriterState::advance_event,
            (state, table, Stage::Open, success, counters),
            next,
        ),
        call_ensures(WriterState::start_event, (&*final(state), table), afterwards),
    ensures
        success ==> next is Write && afterwards is Serialize,
        success ==> final(state).health().dom().contains(table@)
            && final(state).health()[table@].consecutive_errors == 0,
        !success ==> next == Stage::Done(Verdict::OpenFailed) && afterwards == Stage::Done(
            Verdict::Discarded,
        ),
{
}

/// A line that was written ends a run of errors. One that could not be is one error more in a
/// row, and the tenth disables the table.
pub proof fn law_the_tenth_write_error_in_a_row_disables(
    state: &mut WriterState,
    table: &str,
    success: bool,
    counters: &mut Counters,
    next: Stage,
    afterwards: Stage,
)
    requires
        old(state).health().dom().contains(table@),
        !old(state).health()[table@].disabled,
        old(state).health()[table@].consecutive_errors < 10,
        call_ensures(
            WriterState::advance_event,
            (state, table, Stage::Write, success, counters),
            next,
        ),
        call_ensures(WriterState::start_event, (&*final(state), table), afterwards),
    ensures
        final(state).health().dom().contains(table@),
        success ==> {
            &&& next == Stage::Done(Verdict::Written)
            &&& final(state).health()[table@].consecutive_errors == 0
            &&& afterwards is Serialize
        },
        !success ==> {
            let errors = old(state).health()[table@].consecutive_errors + 1;
            &&& final(state).health()[table@].consecutive_errors == errors
            &&& errors < 10 ==> next == Stage::Done(Verdict::WriteFailed) && afterwards is Serialize
            &&& errors == 10 ==> next == Stage::Done(Verdict::WriteFailedDisabled) && afterwards
                == Stage::Done(Verdict::Discarded)
        },
{
}

/// A flush that fails is one error more in a row, and the tenth disables the table. One that
/// goes well changes nothing.
pub proof fn law_the_tenth_flush_error_in_a_row_disables(
    state: &mut WriterState,
    table: &str,
    success: bool,
    verdict: FlushVerdict,
    afterwards: Stage,
    other: &str,
)
    requires
        old(state).health().dom().contains(table@),
        !old(state).health()[table@].disabled,
        old(state).health()[table@].consecutive_errors < 10,
        call_ensures(WriterState::after_flush, (state, table, success), verdict),
        call_ensures(WriterState::start_event, (&*final(state), table), afterwards),
        other@ != table@,
    ensures
        final(state).health().dom().contains(other@) == old(state).health().dom().contains(other@),
        final(state).health().dom().contains(other@) ==> final(state).health()[other@]
            == old(state).health()[other@],
        success <==> verdict is Flushed,
        success ==> final(state).health()[table@] == old(state).health()[table@],
        !success ==> {
            let errors = old(state).health()[table@].consecutive_errors + 1;
            &&& final(state).health()[table@].consecutive_errors == errors
            &&& errors < 10 ==> verdict is Failed && afterwards is Serialize
            &&& errors == 10 ==> verdict is FailedDisabled && afterwards == Stage::Done(
                Verdict::Discarded,
            )
        },
{
}

/// A stop command ends the writer, an event is handled and counted towards the next flush, and a
/// second without either is used to flush. Nothing else is done when a channel closes.
pub proof fn law_writer_wakes_up_for_what_came_in(
    state: &mut WriterState,
    wake: Wake,
    action: LoopAction,
)
    requires
        call_ensures(WriterState::on_wake, (state, wake), action),
    ensures
        action is DrainAndExit <==> wake == Wake::Control(true),
        action is HandleEvent <==> (wake matches Wake::Received(_, received) && received),
        action is Flush <==> wake is Idle,
        final(state).health() == old(state).health(),
        final(state).unflushed() == if action is HandleEvent {
            old(state).unflushed() + 1
        } else if action is Flush {
            0
        } else {
            old(state).unflushed()
        },
{
}

/// Files are flushed after 1024 events, and after a second.
pub proof fn law_flushes_are_due(state: &mut WriterState, elapsed: u128, due: bool)
    requires
        call_ensures(WriterState::flush_due, (state, elapsed), due),
    ensures
        due <==> old(state).unflushed() >= 1024 || elapsed >= 1_000_000_000,
        due ==> final(state).unflushed() == 0,
        !due ==> final(state).unflushed() == old(state).unflushed(),
        final(state).health() == old(state).health(),
{
}

/// A file is flushed exactly if its table is not disabled.
pub proof fn law_enabled_tables_are_flushed(state: WriterState, i: usize, target: (&str, bool))
    requires
        call_ensures(WriterState::flush_target, (&state, i), target),
    ensures
        state.health().dom().contains(target.0@),
        target.1 <==> !state.health()[target.0@].disabled,
{
}

/// A line is the serialized event and a line feed.
pub proof fn law_lines_end_with_a_line_feed(json: Vec<u8>, line: Vec<u8>)
    requires
        call_ensures(json_line, (json,), line),
    ensures
        line@.len() == json@.len() + 1,
        line@.last() == 10,
        line@.drop_last() == json@,
{
}

/// A table's file bears its name, with the suffix of line-separated JSON.
pub proof fn law_files_bear_the_names_of_their_tables(table: &str, name: String)
    requires
        call_ensures(file_name, (table,), name),
    ensures
        name@ == table@ + seq!['.', 'j', 's', 'o', 'n', 'l'],
{
    reveal_strlit(".jsonl");
    assert(".jsonl"@ =~= seq!['.', 'j', 's', 'o', 'n', 'l']);
}

/// A run starts at number zero, under its own number in hexadecimal and the identifier of the
/// node.
pub proof fn law_run_starts_at_zero(
    run_id: u128,
    node_id: String,
    ctx: WriterContext,
    digits: String,
)
    requires
        call_ensures(WriterContext::new, (run_id, node_id), ctx),
        call_ensures(hex_u128, (run_id,), digits),
    ensures
        ctx.seq == 0,
        ctx.run_id@ == digits@,
        ctx.node_id@ == node_id@,
{
}

/// Each number is taken once, and the next one is one higher, until they start anew.
pub proof fn law_numbers_are_taken_in_order(ctx: &mut WriterContext, seq: u64)
    requires
        call_ensures(WriterContext::next_seq, (ctx,), seq),
    ensures
        seq == old(ctx).seq,
        old(ctx).seq < u64::MAX ==> final(ctx).seq == old(ctx).seq + 1,
        old(ctx).seq == u64::MAX ==> final(ctx).seq == 0,
        final(ctx).run_id == old(ctx).run_id,
        final(ctx).node_id == old(ctx).node_id,
        final(ctx).epoch == old(ctx).epoch,
{
}

/// An envelope holds its event, the event's table, the identifiers and the next number of the
/// run, and the readings of the clocks that it was given.
pub proof fn law_envelopes_hold_what_they_were_given<T>(
    ctx: &mut WriterContext,
    table: &'static str,
    ts: String,
    monotonic_ns: u64,
    msg: T,
    envelope: Envelope<T>,
)
    requires
        call_ensures(
            WriterContext::make_envelope_at::<T>,
            (ctx, table, ts, monotonic_ns, msg),
            envelope,
        ),
    ensures
        envelope.run_id == old(ctx).run_id,
        envelope.node_id == old(ctx).node_id,
        envelope.table@ == table@,
        envelope.seq == old(ctx).seq,
        envelope.ts == ts,
        envelope.monotonic_ns == monotonic_ns,
        envelope.msg == msg,
        old(ctx).seq < u64::MAX ==> final(ctx).seq == old(ctx).seq + 1,
        final(ctx).run_id == old(ctx).run_id,
        final(ctx).node_id == old(ctx).node_id,
{
}

/// There is an envelope exactly for a wall clock between 1970 and 9999, and a number is taken
/// only for one. It holds the event, the identifiers of the run, the number, and the low 64 bits
/// of the nanoseconds since the writer started.
pub proof fn law_envelopes_are_made_of_readings<T>(
    ctx: &mut WriterContext,
    table: &'static str,
    reading: Option<(u64, u32)>,
    elapsed: u128,
    msg: T,
    envelope: Option<Envelope<T>>,
    nanos: u64,
)
    requires
        call_ensures(
            WriterContext::make_envelope_read::<T>,
            (ctx, table, reading, elapsed, msg),
            envelope,
        ),
        call_ensures(nanos_low_bits, (elapsed,), nanos),
    ensures
        envelope is Some <==> (reading matches Some((secs, _)) && secs < 253_402_300_800),
        envelope is None ==> *final(ctx) == *old(ctx),
        envelope matches Some(e) ==> {
            &&& e.run_id == old(ctx).run_id
            &&& e.node_id == old(ctx).node_id
            &&& e.table@ == table@
            &&& e.seq == old(ctx).seq
            &&& e.monotonic_ns == nanos
            &&& e.msg == msg
            &&& old(ctx).seq < u64::MAX ==> final(ctx).seq == old(ctx).seq + 1
            &&& final(ctx).run_id == old(ctx).run_id
            &&& final(ctx).node_id == old(ctx).node_id
        },
{
}

/// Nanoseconds that fit into 64 bits are kept, and others are taken as far as they go.
pub proof fn law_nanoseconds_are_kept_in_64_bits(nanos: u128, low: u64)
    requires
        call_ensures(nanos_low_bits, (nanos,), low),
    ensures
        nanos < 0x1_0000_0000_0000_0000 ==> low == nanos,
        (nanos - low) % 0x1_0000_0000_0000_0000 == 0,
{
}

}
