//! The decisions of the background writer, which receives trace events and writes JSONL files.

use crate::clock::{
    elapsed_nanos, instant_now, is_timestamp, rfc3339_millis, since_unix_epoch, system_now,
    timestamp, timestamp_now, NANOS_PER_SEC, TIMESTAMP_END_SECS,
};
use crate::counters::{bumped, with_error, with_written, Counters, TableCounters};
use crate::envelope::Envelope;
use crate::name_table::NameTable;
use crate::text::{hex_digits, hex_u128};
use crate::tracer::Queue;
use std::time::{Instant, SystemTime};
use vstd::prelude::*;

verus! {

/// The flush interval for buffered writers, in nanoseconds.
pub const FLUSH_INTERVAL_NANOS: u128 = 1_000_000_000;

/// Number of writes before forcing a flush.
pub const WRITES_BEFORE_FLUSH: usize = 1024;

/// Number of consecutive I/O errors before disabling a table.
pub const MAX_CONSECUTIVE_IO_ERRORS: u32 = 10;

/// What every envelope of a run is made with.
pub struct WriterContext {
    /// The run ID, as 32 hexadecimal digits.
    pub run_id: String,
    /// The node identifier.
    pub node_id: String,
    /// The next sequence number.
    pub seq: u64,
    /// When the writer started.
    pub epoch: Instant,
}

/// The low 64 bits of a number of nanoseconds.
pub open spec fn low_bits(nanos: u128) -> u64 {
    (nanos % 0x1_0000_0000_0000_0000) as u64
}

/// The low 64 bits of a number of nanoseconds.
pub fn nanos_low_bits(nanos: u128) -> (low: u64)
    ensures
        low == low_bits(nanos),
{
    (nanos % 0x1_0000_0000_0000_0000) as u64
}

impl WriterContext {
    /// The context of the run `run_id`, which starts now with sequence number zero.
    pub fn new(run_id: u128, node_id: String) -> (ctx: Self)
        ensures
            ctx.run_id@ == hex_digits(run_id as nat, 32),
            ctx.node_id == node_id,
            ctx.seq == 0,
            call_ensures(instant_now, (), ctx.epoch),
    {
        let read = instant_now;
        WriterContext { run_id: hex_u128(run_id), node_id, seq: 0, epoch: read() }
    }

    /// Takes the next sequence number.
    pub fn next_seq(&mut self) -> (seq: u64)
        ensures
            seq == old(self).seq,
            *final(self) == (WriterContext { seq: bumped(old(self).seq), ..*old(self) }),
    {
        let seq = self.seq;
        self.seq = seq.wrapping_add(1);
        seq
    }

    /// The nanoseconds since the writer started, in 64 bits. What the clock reads is left open:
    /// it depends on when the call is made.
    pub fn monotonic_ns(&self) -> (nanos: u64)
        ensures
            exists|elapsed: u128| #[trigger]
                call_ensures(elapsed_nanos, (&self.epoch,), elapsed) && nanos == low_bits(elapsed),
    {
        let since = elapsed_nanos;
        nanos_low_bits(since(&self.epoch))
    }

    /// The present moment as an RFC 3339 timestamp, or `None` where the wall clock stands at a
    /// time that has none. Which moment that is, and so whether it has one, is left open.
    pub fn wall_clock_ts(&self) -> (ts: Option<String>)
        ensures
            exists|now: SystemTime, reading: Option<(u64, u32)>|
                {
                    &&& #[trigger] call_ensures(system_now, (), now)
                    &&& #[trigger] call_ensures(since_unix_epoch, (now,), reading)
                    &&& is_timestamp(ts, reading)
                },
    {
        timestamp_now()
    }

    /// Wraps `msg` with the next sequence number and the given clock readings.
    pub fn make_envelope_at<T>(
        &mut self,
        table: &'static str,
        ts: String,
        monotonic_ns: u64,
        msg: T,
    ) -> (envelope: Envelope<T>)
        ensures
            envelope == (Envelope {
                run_id: old(self).run_id,
                node_id: old(self).node_id,
                table,
                seq: old(self).seq,
                ts,
                monotonic_ns,
                msg,
            }),
            *final(self) == (WriterContext { seq: bumped(old(self).seq), ..*old(self) }),
    {
        Envelope {
            run_id: self.run_id.clone(),
            node_id: self.node_id.clone(),
            table,
            seq: self.next_seq(),
            ts,
            monotonic_ns,
            msg,
        }
    }

    /// Wraps `msg` with the next sequence number and the present time, or returns `None`, and
    /// takes no sequence number, where the wall clock stands at a time that has no timestamp.
    /// What the clocks read is left open.
    pub fn make_envelope<T>(&mut self, table: &'static str, msg: T) -> (envelope: Option<
        Envelope<T>,
    >)
        ensures
            exists|now: SystemTime, reading: Option<(u64, u32)>, elapsed: u128|
                {
                    &&& #[trigger] call_ensures(system_now, (), now)
                    &&& #[trigger] call_ensures(since_unix_epoch, (now,), reading)
                    &&& #[trigger] call_ensures(elapsed_nanos, (&old(self).epoch,), elapsed)
                    &&& is_wrapped(
                        *old(self),
                        *final(self),
                        table,
                        reading,
                        elapsed,
                        msg,
                        envelope,
                    )
                },
    {
        let read = system_now;
        let since_epoch = since_unix_epoch;
        let since_start = elapsed_nanos;
        let reading = since_epoch(read());
        let elapsed: u128 = since_start(&self.epoch);
        self.make_envelope_read(table, reading, elapsed, msg)
    }

    /// Wraps `msg` with the next sequence number and these readings: the seconds and
    /// nanoseconds since the Unix epoch, unless the time lies before it, and the nanoseconds
    /// since the writer started. Returns `None`, and takes no sequence number, for a time that
    /// has no timestamp.
    pub fn make_envelope_read<T>(
        &mut self,
        table: &'static str,
        reading: Option<(u64, u32)>,
        elapsed: u128,
        msg: T,
    ) -> (envelope: Option<Envelope<T>>)
        requires
            reading matches Some((_, nanos)) ==> nanos < NANOS_PER_SEC,
        ensures
            is_wrapped(*old(self), *final(self), table, reading, elapsed, msg, envelope),
    {
        match timestamp(reading) {
            Some(ts) => {
                let nanos: u64 = nanos_low_bits(elapsed);
                Some(self.make_envelope_at(table, ts, nanos, msg))
            },
            None => None,
        }
    }
}

/// Whether `envelope` is what a context makes of `msg` with these readings of the wall clock
/// and of the monotonic clock, and `after` is what the context then is: one sequence number on,
/// or as it was where the wall clock stands at a time that has no timestamp.
pub open spec fn is_wrapped<T>(
    before: WriterContext,
    after: WriterContext,
    table: &'static str,
    reading: Option<(u64, u32)>,
    elapsed: u128,
    msg: T,
    envelope: Option<Envelope<T>>,
) -> bool {
    match reading {
        Some((secs, nanos)) if secs < TIMESTAMP_END_SECS => {
            &&& nanos < NANOS_PER_SEC
            &&& envelope matches Some(e)
            &&& e == (Envelope {
                run_id: before.run_id,
                node_id: before.node_id,
                table,
                seq: before.seq,
                ts: e.ts,
                monotonic_ns: low_bits(elapsed),
                msg,
            })
            &&& e.ts@ == rfc3339_millis(secs, nanos)
            &&& e.ts@.len() == 24 && e.ts@.last() == 'Z'
            &&& after == (WriterContext { seq: bumped(before.seq), ..before })
        },
        _ => envelope is None && after == before,
    }
}

/// What the writer remembers of a table that it has tried to open.
#[derive(Clone, Copy, Debug, PartialEq, Eq, Structural)]
pub struct TableHealth {
    /// If true, this table has been disabled due to repeated I/O errors.
    pub disabled: bool,
    /// Count of consecutive I/O errors for this table.
    pub consecutive_errors: u32,
}

impl TableHealth {
    /// A table that reached the error limit is disabled.
    pub open spec fn wf(self) -> bool {
        self.disabled || self.consecutive_errors < MAX_CONSECUTIVE_IO_ERRORS
    }
}

/// The health of a table whose file has just been opened.
pub open spec fn fresh_health() -> TableHealth {
    TableHealth { disabled: false, consecutive_errors: 0 }
}

/// The health of a table whose file could not be opened.
pub open spec fn unopened_health() -> TableHealth {
    TableHealth { disabled: true, consecutive_errors: 0 }
}

/// The health of a table after one more consecutive I/O error.
pub open spec fn failed_health(health: TableHealth) -> TableHealth {
    TableHealth {
        disabled: health.disabled || health.consecutive_errors + 1 >= MAX_CONSECUTIVE_IO_ERRORS,
        consecutive_errors: (health.consecutive_errors + 1) as u32,
    }
}

/// How the handling of an event ended.
#[derive(Clone, Copy, Debug, PartialEq, Eq, Structural)]
pub enum Verdict {
    /// The table is disabled, so the event was discarded.
    Discarded,
    /// The event could not be serialized.
    SerializeFailed,
    /// The table's file could not be opened, so the table is now disabled.
    OpenFailed,
    /// The event's line was written.
    Written,
    /// The event's line could not be written.
    WriteFailed,
    /// The event's line could not be written, and the table is now disabled.
    WriteFailedDisabled,
}

/// What to do next for an event.
#[derive(Clone, Copy, Debug, PartialEq, Eq, Structural)]
pub enum Stage {
    /// Serialize the event.
    Serialize,
    /// Open the table's file for appending.
    Open,
    /// Write the event's line to the table's file.
    Write,
    /// Nothing more.
    Done(Verdict),
}

/// The health of the tables and their counters.
pub struct WriterModel {
    /// The health of each table that the writer has tried to open.
    pub health: Map<Seq<char>, TableHealth>,
    /// The counters of each counted table.
    pub counters: Map<Seq<char>, TableCounters>,
}

/// Where the handling of an event of `table` starts.
pub open spec fn first_stage(health: Map<Seq<char>, TableHealth>, table: Seq<char>) -> Stage {
    if health.dom().contains(table) && health[table].disabled {
        Stage::Done(Verdict::Discarded)
    } else {
        Stage::Serialize
    }
}

/// The state, and what to do next for an event of `table`, after `stage` has been carried
/// out, with success or without.
pub open spec fn stage_done(
    before: WriterModel,
    table: Seq<char>,
    stage: Stage,
    success: bool,
) -> (WriterModel, Stage) {
    match stage {
        Stage::Serialize => if !success {
            (
                WriterModel { counters: with_error(before.counters, table), ..before },
                Stage::Done(Verdict::SerializeFailed),
            )
        } else if !before.health.dom().contains(table) {
            (before, Stage::Open)
        } else if before.health[table].disabled {
            (before, Stage::Done(Verdict::Discarded))
        } else {
            (before, Stage::Write)
        },
        Stage::Open => if success {
            (
                WriterModel { health: before.health.insert(table, fresh_health()), ..before },
                Stage::Write,
            )
        } else {
            (
                WriterModel {
                    health: before.health.insert(table, unopened_health()),
                    counters: with_error(before.counters, table),
                },
                Stage::Done(Verdict::OpenFailed),
            )
        },
        Stage::Write => if success {
            (
                WriterModel {
                    health: before.health.insert(
                        table,
                        TableHealth { consecutive_errors: 0, ..before.health[table] },
                    ),
                    counters: with_written(before.counters, table),
                },
                Stage::Done(Verdict::Written),
            )
        } else {
            let failed = failed_health(before.health[table]);
            (
                WriterModel {
                    health: before.health.insert(table, failed),
                    counters: with_error(before.counters, table),
                },
                Stage::Done(
                    if failed.disabled {
                        Verdict::WriteFailedDisabled
                    } else {
                        Verdict::WriteFailed
                    },
                ),
            )
        },
        Stage::Done(_) => (before, stage),
    }
}

/// Whether `stage` can follow for an event of `table`: a file is only opened once, and only
/// written to while its table is enabled.
pub open spec fn stage_fits(
    health: Map<Seq<char>, TableHealth>,
    table: Seq<char>,
    stage: Stage,
) -> bool {
    match stage {
        Stage::Open => !health.dom().contains(table),
        Stage::Write => health.dom().contains(table) && !health[table].disabled,
        _ => true,
    }
}

/// The state of the background writer.
pub struct WriterState {
    tables: NameTable<TableHealth>,
    writes_since_flush: usize,
}

impl WriterState {
    /// The health of each table that the writer has tried to open.
    pub closed spec fn health(&self) -> Map<Seq<char>, TableHealth> {
        self.tables@
    }

    /// The tables that the writer has tried to open, in order.
    pub closed spec fn order(&self) -> Seq<Seq<char>> {
        self.tables.order()
    }

    /// The number of events handled since the last flush.
    pub closed spec fn unflushed(&self) -> nat {
        self.writes_since_flush as nat
    }

    /// A table that reached the error limit is disabled, and no more events than call for a
    /// flush are unflushed.
    pub closed spec fn wf(&self) -> bool {
        &&& self.tables.wf()
        &&& self.writes_since_flush <= WRITES_BEFORE_FLUSH
        &&& forall|name: Seq<char>| #[trigger]
            self.tables@.dom().contains(name) ==> self.tables@[name].wf()
    }

    /// What `wf` says of each table.
    pub proof fn lemma_wf(&self)
        requires
            self.wf(),
        ensures
            self.order().no_duplicates(),
            forall|name: Seq<char>| #[trigger]
                self.health().dom().contains(name) <==> self.order().contains(name),
            forall|name: Seq<char>| #[trigger]
                self.health().dom().contains(name) ==> self.health()[name].wf(),
            self.unflushed() <= WRITES_BEFORE_FLUSH,
    {
        self.tables.lemma_order();
    }

    /// A writer that has not opened any file.
    pub fn new() -> (state: Self)
        ensures
            state.wf(),
            state.health() == Map::<Seq<char>, TableHealth>::empty(),
            state.order().len() == 0,
            state.unflushed() == 0,
    {
        WriterState { tables: NameTable::new(), writes_since_flush: 0 }
    }

    /// What to do first for an event of `table`.
    pub fn start_event(&self, table: &str) -> (stage: Stage)
        requires
            self.wf(),
        ensures
            stage == first_stage(self.health(), table@),
            stage_fits(self.health(), table@, stage),
    {
        match self.tables.get(table) {
            Some(health) => {
                if health.disabled {
                    Stage::Done(Verdict::Discarded)
                } else {
                    Stage::Serialize
                }
            },
            None => Stage::Serialize,
        }
    }

    /// Takes note of how `stage` went for an event of `table`, and says what to do next.
    pub fn advance_event(
        &mut self,
        table: &str,
        stage: Stage,
        success: bool,
        counters: &mut Counters,
    ) -> (next: Stage)
        requires
            old(self).wf(),
            old(counters).wf(),
            stage_fits(old(self).health(), table@, stage),
        ensures
            final(self).wf(),
            final(counters).wf(),
            final(counters).order() == old(counters).order(),
            (WriterModel { health: final(self).health(), counters: final(counters)@ }, next)
                == stage_done(
                WriterModel { health: old(self).health(), counters: old(counters)@ },
                table@,
                stage,
                success,
            ),
            stage_fits(final(self).health(), table@, next),
            final(self).unflushed() == old(self).unflushed(),
    {
        match stage {
            Stage::Serialize => {
                if !success {
                    counters.record_error(table);
                    return Stage::Done(Verdict::SerializeFailed);
                }
                match self.tables.get(table) {
                    None => Stage::Open,
                    Some(health) => {
                        if health.disabled {
                            Stage::Done(Verdict::Discarded)
                        } else {
                            Stage::Write
                        }
                    },
                }
            },
            Stage::Open => {
                if success {
                    self.tables.set(table, TableHealth { disabled: false, consecutive_errors: 0 });
                    Stage::Write
                } else {
                    self.tables.set(table, TableHealth { disabled: true, consecutive_errors: 0 });
                    counters.record_error(table);
                    Stage::Done(Verdict::OpenFailed)
                }
            },
            Stage::Write => {
                if success {
                    if let Some(health) = self.tables.get(table) {
                        self.tables.set(table, TableHealth { consecutive_errors: 0, ..health });
                    }
                    counters.record_written(table);
                    Stage::Done(Verdict::Written)
                } else {
                    let mut disabled = false;
                    if let Some(health) = self.tables.get(table) {
                        let consecutive_errors: u32 = health.consecutive_errors + 1;
                        disabled = consecutive_errors >= MAX_CONSECUTIVE_IO_ERRORS;
                        self.tables.set(table, TableHealth { disabled, consecutive_errors });
                    }
                    counters.record_error(table);
                    if disabled {
                        Stage::Done(Verdict::WriteFailedDisabled)
                    } else {
                        Stage::Done(Verdict::WriteFailed)
                    }
                }
            },
            Stage::Done(_) => stage,
        }
    }

    /// The number of tables that the writer has tried to open.
    pub fn table_count(&self) -> (n: usize)
        requires
            self.wf(),
        ensures
            n == self.order().len(),
    {
        self.tables.len()
    }

    /// The `i`-th table that the writer has tried to open, and whether its file is flushed.
    pub fn flush_target(&self, i: usize) -> (target: (&str, bool))
        requires
            self.wf(),
            i < self.order().len(),
        ensures
            target.0@ == self.order()[i as int],
            self.health().dom().contains(target.0@),
            target.1 == !self.health()[target.0@].disabled,
    {
        let (table, health) = self.tables.entry(i);
        (table, !health.disabled)
    }

    /// Takes note of how a flush of `table` went. A failure counts as an I/O error; a success
    /// does not end a run of errors.
    pub fn after_flush(&mut self, table: &str, success: bool) -> (verdict: FlushVerdict)
        requires
            old(self).wf(),
            old(self).health().dom().contains(table@),
            !old(self).health()[table@].disabled,
        ensures
            final(self).wf(),
            final(self).order() == old(self).order(),
            final(self).unflushed() == old(self).unflushed(),
            final(self).health() == (if success {
                old(self).health()
            } else {
                old(self).health().insert(table@, failed_health(old(self).health()[table@]))
            }),
            verdict == (if success {
                FlushVerdict::Flushed
            } else if failed_health(old(self).health()[table@]).disabled {
                FlushVerdict::FailedDisabled
            } else {
                FlushVerdict::Failed
            }),
    {
        if success {
            return FlushVerdict::Flushed;
        }
        let mut disabled = false;
        if let Some(health) = self.tables.get(table) {
            let consecutive_errors: u32 = health.consecutive_errors + 1;
            disabled = consecutive_errors >= MAX_CONSECUTIVE_IO_ERRORS;
            self.tables.set(table, TableHealth { disabled, consecutive_errors });
        }
        if disabled {
            FlushVerdict::FailedDisabled
        } else {
            FlushVerdict::Failed
        }
    }

    /// Decides what to do when the writer wakes up.
    pub fn on_wake(&mut self, wake: Wake) -> (action: LoopAction)
        requires
            old(self).wf(),
            old(self).unflushed() < WRITES_BEFORE_FLUSH,
        ensures
            final(self).wf(),
            final(self).health() == old(self).health(),
            final(self).order() == old(self).order(),
            match wake {
                Wake::Control(true) => {
                    &&& action == LoopAction::DrainAndExit
                    &&& final(self).unflushed() == old(self).unflushed()
                },
                Wake::Received(_, true) => {
                    &&& action == LoopAction::HandleEvent
                    &&& final(self).unflushed() == old(self).unflushed() + 1
                },
                Wake::Idle => {
                    &&& action == LoopAction::Flush
                    &&& final(self).unflushed() == 0
                },
                _ => {
                    &&& action == LoopAction::Nothing
                    &&& final(self).unflushed() == old(self).unflushed()
                },
            },
    {
        match wake {
            Wake::Control(received) => {
                if received {
                    LoopAction::DrainAndExit
                } else {
                    LoopAction::Nothing
                }
            },
            Wake::Received(_, received) => {
                if received {
                    self.writes_since_flush += 1;
                    LoopAction::HandleEvent
                } else {
                    LoopAction::Nothing
                }
            },
            Wake::Idle => {
                self.writes_since_flush = 0;
                LoopAction::Flush
            },
        }
    }

    /// Decides, after a wake-up that was not idle, whether it is time to flush: after enough
    /// events, or when the last flush lies `elapsed` nanoseconds back and the interval is over.
    pub fn flush_due(&mut self, elapsed: u128) -> (due: bool)
        requires
            old(self).wf(),
        ensures
            due == (old(self).unflushed() >= WRITES_BEFORE_FLUSH || elapsed
                >= FLUSH_INTERVAL_NANOS),
            final(self).wf(),
            final(self).health() == old(self).health(),
            final(self).order() == old(self).order(),
            final(self).unflushed() == (if due {
                0
            } else {
                old(self).unflushed()
            }),
            final(self).unflushed() < WRITES_BEFORE_FLUSH,
    {
        if self.writes_since_flush >= WRITES_BEFORE_FLUSH || elapsed >= FLUSH_INTERVAL_NANOS {
            self.writes_since_flush = 0;
            true
        } else {
            false
        }
    }
}

/// How a flush went.
#[derive(Clone, Copy, Debug, PartialEq, Eq, Structural)]
pub enum FlushVerdict {
    /// The file was flushed.
    Flushed,
    /// The file could not be flushed.
    Failed,
    /// The file could not be flushed, and its table is now disabled.
    FailedDisabled,
}

/// Why the writer woke up.
#[derive(Clone, Copy, Debug, PartialEq, Eq, Structural)]
pub enum Wake {
    /// The control channel: a stop command was received, or the channel is closed.
    Control(bool),
    /// An event queue: an event was received, or the queue is closed.
    Received(Queue, bool),
    /// Nothing came in for a whole flush interval.
    Idle,
}

/// What the writer does on waking up.
#[derive(Clone, Copy, Debug, PartialEq, Eq, Structural)]
pub enum LoopAction {
    /// Handle what the peer queue and then the event queue still hold, flush, and exit.
    DrainAndExit,
    /// Handle the event that was received.
    HandleEvent,
    /// Flush every enabled table, and go back to sleep.
    Flush,
    /// Only see whether it is time to flush.
    Nothing,
}

/// The line of a JSONL file that holds a serialized event.
pub open spec fn line_of(json: Seq<u8>) -> Seq<u8> {
    json.push(0x0a)
}

/// The line of a JSONL file that holds the serialized event `json`.
pub fn json_line(json: Vec<u8>) -> (line: Vec<u8>)
    ensures
        line@ == line_of(json@),
{
    let mut line = json;
    line.push(0x0a);
    line
}

/// The name of the file that holds a table.
pub open spec fn file_of(table: Seq<char>) -> Seq<char> {
    table + ".jsonl"@
}

/// The name of the file that holds a table.
pub fn file_name(table: &str) -> (name: String)
    ensures
        name@ == file_of(table@),
{
    let mut name = table.to_owned();
    name.append(".jsonl");
    name
}

}
