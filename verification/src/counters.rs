//! Per-table counters for monitoring trace throughput and drops.

use crate::clock::{elapsed_nanos, instant_now};
use crate::name_table::NameTable;
use std::time::Instant;
use vstd::prelude::*;

verus! {

/// Per-table counters.
#[derive(Clone, Copy, Debug, PartialEq, Eq, Structural)]
pub struct TableCounters {
    /// Events written to the table's file.
    pub written: u64,
    /// Events dropped because their queue was full.
    pub dropped: u64,
    /// Events lost to serialization or I/O errors.
    pub errors: u64,
    /// The last dropped count at which a warning was emitted.
    pub last_warned_dropped: u64,
}

/// The counters of a table of which nothing has happened yet.
pub open spec fn zero_counters() -> TableCounters {
    TableCounters { written: 0, dropped: 0, errors: 0, last_warned_dropped: 0 }
}

impl TableCounters {
    /// No warning was emitted at a dropped count that is still to come.
    pub open spec fn wf(self) -> bool {
        self.last_warned_dropped <= self.dropped
    }

    /// Counters that all stand at zero.
    pub fn new() -> (counters: Self)
        ensures
            counters == zero_counters(),
            counters.wf(),
    {
        TableCounters { written: 0, dropped: 0, errors: 0, last_warned_dropped: 0 }
    }
}

/// Configuration for drop warning thresholds.
pub struct DropWarnConfig {
    /// Emit a warning every N drops.
    pub warn_every_dropped: u64,
    /// Emit a warning at least once per interval, in nanoseconds.
    pub warn_interval_nanos: u128,
    /// Time of the last drop warning (any table).
    pub last_warn_time: Instant,
}

impl DropWarnConfig {
    /// Whether the number of drops alone calls for a warning: at the first drop, and at
    /// every `warn_every_dropped` drops since the last warning.
    pub open spec fn count_due(self, counters: TableCounters) -> bool {
        ||| counters.dropped == 1
        ||| counters.dropped - counters.last_warned_dropped >= self.warn_every_dropped
    }

    /// Whether a drop calls for a warning, `elapsed_nanos` after the last one.
    pub open spec fn warning_due(self, counters: TableCounters, elapsed_nanos: u128) -> bool {
        self.count_due(counters) || elapsed_nanos >= self.warn_interval_nanos
    }

    /// The configuration after a drop: the interval starts anew at `now` when a warning is
    /// emitted.
    pub open spec fn after_drop(
        self,
        counters: TableCounters,
        elapsed_nanos: u128,
        now: Instant,
    ) -> DropWarnConfig {
        if self.warning_due(counters, elapsed_nanos) {
            DropWarnConfig { last_warn_time: now, ..self }
        } else {
            self
        }
    }

    /// Thresholds whose interval starts now.
    pub fn new(warn_every_dropped: u64, warn_interval_secs: u64) -> (config: Self)
        ensures
            config.warn_every_dropped == warn_every_dropped,
            config.warn_interval_nanos == warn_interval_secs * 1_000_000_000,
            call_ensures(instant_now, (), config.last_warn_time),
    {
        let read = instant_now;
        DropWarnConfig {
            warn_every_dropped,
            warn_interval_nanos: (warn_interval_secs as u128) * 1_000_000_000,
            last_warn_time: read(),
        }
    }

    /// Returns true if a warning should be emitted for a drop that `counters` already counts,
    /// `elapsed` nanoseconds after the last warning.
    pub fn should_warn_after(
        &mut self,
        counters: &mut TableCounters,
        elapsed: u128,
        now: Instant,
    ) -> (warn: bool)
        requires
            old(counters).wf(),
        ensures
            warn == old(self).warning_due(*old(counters), elapsed),
            *final(self) == old(self).after_drop(*old(counters), elapsed, now),
            *final(counters) == marked_warned(*old(counters), warn),
            final(counters).wf(),
    {
        // The first drop of a table, every N drops, and at least once per interval.
        if counters.dropped == 1 || counters.dropped - counters.last_warned_dropped
            >= self.warn_every_dropped || elapsed >= self.warn_interval_nanos {
            counters.last_warned_dropped = counters.dropped;
            self.last_warn_time = now;
            return true;
        }
        false
    }

    /// Returns true if a warning should be emitted for this table's drop, which `counters`
    /// already counts.
    pub fn should_warn(&mut self, table: &str, counters: &mut TableCounters) -> (warn: bool)
        requires
            old(counters).wf(),
        ensures
            exists|elapsed: u128, now: Instant|
                {
                    &&& #[trigger] call_ensures(
                        elapsed_nanos,
                        (&old(self).last_warn_time,),
                        elapsed,
                    )
                    &&& #[trigger] call_ensures(instant_now, (), now)
                    &&& warn == old(self).warning_due(*old(counters), elapsed)
                    &&& *final(self) == old(self).after_drop(*old(counters), elapsed, now)
                },
            old(self).count_due(*old(counters)) ==> warn,
            *final(counters) == marked_warned(*old(counters), warn),
            final(counters).wf(),
    {
        let since = elapsed_nanos;
        let read = instant_now;
        let elapsed: u128 = since(&self.last_warn_time);
        let now = read();
        self.should_warn_after(counters, elapsed, now)
    }
}

/// The counters once a warning has been emitted, or not, at their dropped count.
pub open spec fn marked_warned(counters: TableCounters, warned: bool) -> TableCounters {
    if warned {
        TableCounters { last_warned_dropped: counters.dropped, ..counters }
    } else {
        counters
    }
}

/// A count after one more, which wraps around at the end of its range.
pub open spec fn bumped(count: u64) -> u64 {
    if count == u64::MAX {
        0
    } else {
        (count + 1) as u64
    }
}

/// The counters of `table` with one more event written. Unknown tables are not counted.
pub open spec fn with_written(
    counters: Map<Seq<char>, TableCounters>,
    table: Seq<char>,
) -> Map<Seq<char>, TableCounters> {
    if counters.dom().contains(table) {
        counters.insert(
            table,
            TableCounters { written: bumped(counters[table].written), ..counters[table] },
        )
    } else {
        counters
    }
}

/// The counters of `table` with one more event lost to an error. Unknown tables are not
/// counted.
pub open spec fn with_error(
    counters: Map<Seq<char>, TableCounters>,
    table: Seq<char>,
) -> Map<Seq<char>, TableCounters> {
    if counters.dom().contains(table) {
        counters.insert(
            table,
            TableCounters { errors: bumped(counters[table].errors), ..counters[table] },
        )
    } else {
        counters
    }
}

/// The counters with one more drop.
pub open spec fn one_more_drop(counters: TableCounters) -> TableCounters {
    TableCounters { dropped: (counters.dropped + 1) as u64, ..counters }
}

/// The (written, dropped, errors) counts of every counted table.
pub open spec fn snapshot_of(counters: Map<Seq<char>, TableCounters>) -> Map<
    Seq<char>,
    (u64, u64, u64),
> {
    counters.map_values(|c: TableCounters| (c.written, c.dropped, c.errors))
}

/// Whether a drop of an event of `table` was recorded, by readings of the clock taken at the
/// drop: it is counted, and `warning` is the dropped count if it should be warned of. Unknown
/// tables are not counted.
pub open spec fn is_drop_recorded(
    before: Map<Seq<char>, TableCounters>,
    after: Map<Seq<char>, TableCounters>,
    table: Seq<char>,
    warn_before: DropWarnConfig,
    warn_after: DropWarnConfig,
    warning: Option<u64>,
) -> bool {
    if before.dom().contains(table) {
        let counted = one_more_drop(before[table]);
        &&& warning matches Some(dropped) ==> dropped == counted.dropped
        &&& after == before.insert(table, marked_warned(counted, warning is Some))
        &&& exists|elapsed: u128, now: Instant|
            {
                &&& #[trigger] call_ensures(elapsed_nanos, (&warn_before.last_warn_time,), elapsed)
                &&& #[trigger] call_ensures(instant_now, (), now)
                &&& (warning is Some) == warn_before.warning_due(counted, elapsed)
                &&& warn_after == warn_before.after_drop(counted, elapsed, now)
            }
    } else {
        warning is None && after == before && warn_after == warn_before
    }
}

/// The tables that are counted.
pub open spec fn is_known_table(name: Seq<char>) -> bool {
    ||| name == "peer_message"@
    ||| name == "block_advertised"@
    ||| name == "block_gossiped"@
    ||| name == "block_verified"@
    ||| name == "tx_pushed"@
    ||| name == "tx_verified"@
    ||| name == "tx_added_to_mempool"@
    ||| name == "tx_gossiped"@
    ||| name == "tx_rejected"@
}

/// The sum of a count over the tables in `order`.
pub open spec fn total(
    order: Seq<Seq<char>>,
    counters: Map<Seq<char>, TableCounters>,
    count: spec_fn(TableCounters) -> u64,
) -> nat
    decreases order.len(),
{
    if order.len() == 0 {
        0
    } else {
        total(order.drop_last(), counters, count) + count(counters[order.last()]) as nat
    }
}

/// Whether anything happened to the events of a table.
pub open spec fn is_active(counters: TableCounters) -> bool {
    counters.written > 0 || counters.dropped > 0 || counters.errors > 0
}

/// The tables in `order` to whose events anything happened.
pub open spec fn active_tables(
    order: Seq<Seq<char>>,
    counters: Map<Seq<char>, TableCounters>,
) -> Seq<Seq<char>>
    decreases order.len(),
{
    if order.len() == 0 {
        Seq::empty()
    } else if is_active(counters[order.last()]) {
        active_tables(order.drop_last(), counters).push(order.last())
    } else {
        active_tables(order.drop_last(), counters)
    }
}

/// A snapshot of tracer statistics.
#[derive(Clone, Debug)]
pub struct TracerStats {
    /// Per-table counts of (written, dropped, errors).
    pub tables: NameTable<(u64, u64, u64)>,
}

impl Default for TracerStats {
    fn default() -> (stats: Self)
        ensures
            stats.tables.wf(),
            stats.tables@ == Map::<Seq<char>, (u64, u64, u64)>::empty(),
    {
        TracerStats { tables: NameTable::new() }
    }
}

/// One table's line in a shutdown summary.
#[derive(Clone, Debug)]
pub struct TableSummary {
    /// The table.
    pub table: String,
    /// Events written to the table's file.
    pub written: u64,
    /// Events dropped because their queue was full.
    pub dropped: u64,
    /// Events lost to serialization or I/O errors.
    pub errors: u64,
}

/// What a tracer reports when it shuts down.
#[derive(Clone, Debug)]
pub struct ShutdownSummary {
    /// The tables to whose events anything happened.
    pub tables: Vec<TableSummary>,
    /// Events written, over all tables.
    pub total_written: u64,
    /// Events dropped, over all tables.
    pub total_dropped: u64,
    /// Events lost to errors, over all tables.
    pub total_errors: u64,
}

/// The counters of every counted table.
#[derive(Clone, Debug)]
pub struct Counters {
    table: NameTable<TableCounters>,
}

impl Counters {
    /// The counters of each counted table.
    pub closed spec fn view(&self) -> Map<Seq<char>, TableCounters> {
        self.table@
    }

    /// The counted tables, in the order in which they are reported.
    pub closed spec fn order(&self) -> Seq<Seq<char>> {
        self.table.order()
    }

    /// The counters of every table are well-formed.
    pub closed spec fn wf(&self) -> bool {
        &&& self.table.wf()
        &&& forall|name: Seq<char>| #[trigger]
            self.table@.dom().contains(name) ==> self.table@[name].wf()
    }

    /// Each counted table is reported once, and its counters are well-formed.
    pub proof fn lemma_order(&self)
        requires
            self.wf(),
        ensures
            self.order().no_duplicates(),
            forall|name: Seq<char>| #[trigger]
                self@.dom().contains(name) <==> self.order().contains(name),
            forall|name: Seq<char>| #[trigger] self@.dom().contains(name) ==> self@[name].wf(),
    {
        self.table.lemma_order();
    }

    /// No tables.
    pub fn empty() -> (counters: Self)
        ensures
            counters.wf(),
            counters@ == Map::<Seq<char>, TableCounters>::empty(),
            counters.order().len() == 0,
    {
        Counters { table: NameTable::new() }
    }

    /// The known tables, with all counters at zero.
    pub fn known() -> (counters: Self)
        ensures
            counters.wf(),
            forall|name: Seq<char>| #[trigger]
                counters@.dom().contains(name) <==> is_known_table(name),
            forall|name: Seq<char>| #[trigger]
                counters@.dom().contains(name) ==> counters@[name] == zero_counters(),
    {
        let mut table = NameTable::new();
        table.set("peer_message", TableCounters::new());
        table.set("block_advertised", TableCounters::new());
        table.set("block_gossiped", TableCounters::new());
        table.set("block_verified", TableCounters::new());
        table.set("tx_pushed", TableCounters::new());
        table.set("tx_verified", TableCounters::new());
        table.set("tx_added_to_mempool", TableCounters::new());
        table.set("tx_gossiped", TableCounters::new());
        table.set("tx_rejected", TableCounters::new());
        Counters { table }
    }

    /// The counters of a table, if it is counted.
    pub fn get(&self, table: &str) -> (counters: Option<TableCounters>)
        requires
            self.wf(),
        ensures
            counters == (if self@.dom().contains(table@) {
                Some(self@[table@])
            } else {
                None
            }),
    {
        self.table.get(table)
    }

    /// Counts an event of `table` that was written.
    pub fn record_written(&mut self, table: &str)
        requires
            old(self).wf(),
        ensures
            final(self).wf(),
            final(self)@ == with_written(old(self)@, table@),
            final(self).order() == old(self).order(),
    {
        if let Some(c) = self.table.get(table) {
            let written = c.written.wrapping_add(1);
            self.table.set(table, TableCounters { written, ..c });
        }
    }

    /// Counts an event of `table` that was lost to an error.
    pub fn record_error(&mut self, table: &str)
        requires
            old(self).wf(),
        ensures
            final(self).wf(),
            final(self)@ == with_error(old(self)@, table@),
            final(self).order() == old(self).order(),
    {
        if let Some(c) = self.table.get(table) {
            let errors = c.errors.wrapping_add(1);
            self.table.set(table, TableCounters { errors, ..c });
        }
    }

    /// Counts a drop of an event of `table`, `elapsed` nanoseconds after the last warning, and
    /// returns the dropped count if it should be warned of.
    pub fn record_dropped_after(
        &mut self,
        table: &str,
        drop_warn: &mut DropWarnConfig,
        elapsed: u128,
        now: Instant,
    ) -> (warning: Option<u64>)
        requires
            old(self).wf(),
            old(self)@.dom().contains(table@) ==> old(self)@[table@].dropped < u64::MAX,
        ensures
            final(self).wf(),
            final(self).order() == old(self).order(),
            if old(self)@.dom().contains(table@) {
                let counted = one_more_drop(old(self)@[table@]);
                let warned = old(drop_warn).warning_due(counted, elapsed);
                &&& warning == (if warned {
                    Some(counted.dropped)
                } else {
                    None
                })
                &&& final(self)@ == old(self)@.insert(table@, marked_warned(counted, warned))
                &&& *final(drop_warn) == old(drop_warn).after_drop(counted, elapsed, now)
            } else {
                &&& warning is None
                &&& final(self)@ == old(self)@
                &&& *final(drop_warn) == *old(drop_warn)
            },
    {
        match self.table.get(table) {
            Some(c) => {
                let mut counted = TableCounters { dropped: c.dropped + 1, ..c };
                let warned = drop_warn.should_warn_after(&mut counted, elapsed, now);
                self.table.set(table, counted);
                if warned {
                    Some(counted.dropped)
                } else {
                    None
                }
            },
            None => None,
        }
    }

    /// Counts a drop of an event of `table`, and returns the dropped count if it should be
    /// warned of.
    pub fn record_dropped(&mut self, table: &str, drop_warn: &mut DropWarnConfig) -> (warning:
        Option<u64>)
        requires
            old(self).wf(),
            old(self)@.dom().contains(table@) ==> old(self)@[table@].dropped < u64::MAX,
        ensures
            final(self).wf(),
            final(self).order() == old(self).order(),
            is_drop_recorded(
                old(self)@,
                final(self)@,
                table@,
                *old(drop_warn),
                *final(drop_warn),
                warning,
            ),
    {
        match self.table.get(table) {
            Some(c) => {
                let mut counted = TableCounters { dropped: c.dropped + 1, ..c };
                let warned = drop_warn.should_warn(table, &mut counted);
                self.table.set(table, counted);
                if warned {
                    Some(counted.dropped)
                } else {
                    None
                }
            },
            None => None,
        }
    }

    /// The (written, dropped, errors) counts of every counted table.
    pub fn snapshot(&self) -> (stats: TracerStats)
        requires
            self.wf(),
        ensures
            stats.tables.wf(),
            stats.tables@ == snapshot_of(self@),
    {
        let mut stats = TracerStats::default();
        let n = self.table.len();
        proof {
            self.table.lemma_order();
        }
        let ghost order = self.table.order();
        let mut i: usize = 0;
        while i < n
            invariant
                self.table.wf(),
                stats.tables.wf(),
                i <= n,
                n == order.len(),
                order == self.table.order(),
                order.no_duplicates(),
                forall|name: Seq<char>| #[trigger]
                    stats.tables@.dom().contains(name) <==> order.take(i as int).contains(name),
                forall|name: Seq<char>| #[trigger]
                    stats.tables@.dom().contains(name) ==> self.table@.dom().contains(name)
                        && stats.tables@[name] == (
                        self.table@[name].written,
                        self.table@[name].dropped,
                        self.table@[name].errors,
                    ),
            decreases n - i,
        {
            let (name, c) = self.table.entry(i);
            stats.tables.set(name, (c.written, c.dropped, c.errors));
            proof {
                assert forall|other: Seq<char>|
                    order.take(i + 1).contains(other) <==> order.take(i as int).contains(other)
                        || other == name@ by {
                    assert(order.take(i + 1)[i as int] == name@);
                }
            }
            i += 1;
        }
        proof {
            assert(order.take(n as int) =~= order);
        }
        stats
    }

    /// What to report at shutdown: the tables to whose events anything happened, and the
    /// totals over all tables.
    pub fn shutdown_summary(&self) -> (summary: ShutdownSummary)
        requires
            self.wf(),
            total(self.order(), self@, |c: TableCounters| c.written) <= u64::MAX,
            total(self.order(), self@, |c: TableCounters| c.dropped) <= u64::MAX,
            total(self.order(), self@, |c: TableCounters| c.errors) <= u64::MAX,
        ensures
            summary.total_written == total(self.order(), self@, |c: TableCounters| c.written),
            summary.total_dropped == total(self.order(), self@, |c: TableCounters| c.dropped),
            summary.total_errors == total(self.order(), self@, |c: TableCounters| c.errors),
            summary.tables@.len() == active_tables(self.order(), self@).len(),
            forall|i: int|
                0 <= i < summary.tables@.len() ==> {
                    let row = #[trigger] summary.tables@[i];
                    let name = active_tables(self.order(), self@)[i];
                    &&& row.table@ == name
                    &&& row.written == self@[name].written
                    &&& row.dropped == self@[name].dropped
                    &&& row.errors == self@[name].errors
                },
    {
        let n = self.table.len();
        let ghost order = self.order();
        let ghost written = |c: TableCounters| c.written;
        let ghost dropped = |c: TableCounters| c.dropped;
        let ghost errors = |c: TableCounters| c.errors;
        let mut tables: Vec<TableSummary> = Vec::new();
        let mut total_written: u64 = 0;
        let mut total_dropped: u64 = 0;
        let mut total_errors: u64 = 0;
        let mut i: usize = 0;
        while i < n
            invariant
                self.table.wf(),
                i <= n,
                n == order.len(),
                order == self.table.order(),
                written == (|c: TableCounters| c.written),
                dropped == (|c: TableCounters| c.dropped),
                errors == (|c: TableCounters| c.errors),
                total(order, self@, written) <= u64::MAX,
                total(order, self@, dropped) <= u64::MAX,
                total(order, self@, errors) <= u64::MAX,
                total_written == total(order.take(i as int), self@, written),
                total_dropped == total(order.take(i as int), self@, dropped),
                total_errors == total(order.take(i as int), self@, errors),
                tables@.len() == active_tables(order.take(i as int), self@).len(),
                forall|k: int|
                    0 <= k < tables@.len() ==> {
                        let row = #[trigger] tables@[k];
                        let name = active_tables(order.take(i as int), self@)[k];
                        &&& row.table@ == name
                        &&& row.written == self@[name].written
                        &&& row.dropped == self@[name].dropped
                        &&& row.errors == self@[name].errors
                    },
            decreases n - i,
        {
            let (name, c) = self.table.entry(i);
            proof {
                assert(order.take(i + 1).drop_last() =~= order.take(i as int));
                lemma_total_prefix(order, self@, written, i + 1);
                lemma_total_prefix(order, self@, dropped, i + 1);
                lemma_total_prefix(order, self@, errors, i + 1);
            }
            if c.written > 0 || c.dropped > 0 || c.errors > 0 {
                tables.push(
                    TableSummary {
                        table: name.to_owned(),
                        written: c.written,
                        dropped: c.dropped,
                        errors: c.errors,
                    },
                );
            }
            total_written += c.written;
            total_dropped += c.dropped;
            total_errors += c.errors;
            i += 1;
        }
        assert(order.take(n as int) =~= order);
        ShutdownSummary { tables, total_written, total_dropped, total_errors }
    }
}

proof fn lemma_total_prefix(
    order: Seq<Seq<char>>,
    counters: Map<Seq<char>, TableCounters>,
    count: spec_fn(TableCounters) -> u64,
    i: int,
)
    requires
        0 <= i <= order.len(),
    ensures
        total(order.take(i), counters, count) <= total(order, counters, count),
    decreases order.len(),
{
    if i == order.len() {
        assert(order.take(i) =~= order);
    } else {
        lemma_total_prefix(order.drop_last(), counters, count, i);
        assert(order.drop_last().take(i) =~= order.take(i));
    }
}

}
