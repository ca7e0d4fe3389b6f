//! What the counters of a tracer show.

use crate::counters::{
    active_tables, is_active, total, Counters, DropWarnConfig, ShutdownSummary,
    TableCounters, TableSummary, TracerStats,
};
use crate::name_table::NameTable;
use std::time::Instant;
use vstd::prelude::*;

verus! {

/// The row of a table in a snapshot shows its written, its dropped and its lost events, as the
/// counters have them. A table that is not counted has no row.
pub proof fn law_snapshot_shows_the_counters(
    counters: Counters,
    table: &str,
    counted: Option<TableCounters>,
    stats: TracerStats,
    row: Option<(u64, u64, u64)>,
)
    requires
        call_ensures(Counters::get, (&counters, table), counted),
        call_ensures(Counters::snapshot, (&counters,), stats),
        call_ensures(NameTable::<(u64, u64, u64)>::get, (&stats.tables, table), row),
    ensures
        counted is None <==> row is None,
        counted matches Some(c) ==> {
            &&& row matches Some(shown)
            &&& shown.0 == c.written
            &&& shown.1 == c.dropped
            &&& shown.2 == c.errors
        },
{
}

/// At the start nine tables are counted, and nothing has happened to any of them.
pub proof fn law_known_tables_start_at_zero(
    counters: Counters,
    table: &str,
    counted: Option<TableCounters>,
)
    requires
        call_ensures(Counters::known, (), counters),
        call_ensures(Counters::get, (&counters, table), counted),
    ensures
        counted is Some <==> {
            ||| table@ == "peer_message"@
            ||| table@ == "block_advertised"@
            ||| table@ == "block_gossiped"@
            ||| table@ == "block_verified"@
            ||| table@ == "tx_pushed"@
            ||| table@ == "tx_verified"@
            ||| table@ == "tx_added_to_mempool"@
            ||| table@ == "tx_gossiped"@
            ||| table@ == "tx_rejected"@
        },
        counted matches Some(c) ==> c.written == 0 && c.dropped == 0 && c.errors == 0
            && c.last_warned_dropped == 0,
{
    assert(counters@.dom().contains(table@) == counters@.dom().contains(table@));
}

/// Counting an event as written raises that count of its table by one, or starts it anew at the
/// end of its range, and leaves all other counts as they are.
pub proof fn law_written_events_are_counted(
    counters: &mut Counters,
    table: &str,
    other: &str,
    before: Option<TableCounters>,
    after: Option<TableCounters>,
    other_before: Option<TableCounters>,
    other_after: Option<TableCounters>,
)
    requires
        call_ensures(Counters::record_written, (counters, table), ()),
        call_ensures(Counters::get, (&*old(counters), table), before),
        call_ensures(Counters::get, (&*final(counters), table), after),
        call_ensures(Counters::get, (&*old(counters), other), other_before),
        call_ensures(Counters::get, (&*final(counters), other), other_after),
        other@ != table@,
    ensures
        other_after == other_before,
        before is None ==> after is None,
        before matches Some(b) ==> {
            &&& after matches Some(a)
            &&& b.written < u64::MAX ==> a.written == b.written + 1
            &&& b.written == u64::MAX ==> a.written == 0
            &&& a.dropped == b.dropped
            &&& a.errors == b.errors
            &&& a.last_warned_dropped == b.last_warned_dropped
        },
{
}

/// Counting an event as lost raises that count of its table by one, or starts it anew at the
/// end of its range, and leaves all other counts as they are.
pub proof fn law_lost_events_are_counted(
    counters: &mut Counters,
    table: &str,
    other: &str,
    before: Option<TableCounters>,
    after: Option<TableCounters>,
    other_before: Option<TableCounters>,
    other_after: Option<TableCounters>,
)
    requires
        call_ensures(Counters::record_error, (counters, table), ()),
        call_ensures(Counters::get, (&*old(counters), table), before),
        call_ensures(Counters::get, (&*final(counters), table), after),
        call_ensures(Counters::get, (&*old(counters), other), other_before),
        call_ensures(Counters::get, (&*final(counters), other), other_after),
        other@ != table@,
    ensures
        other_after == other_before,
        before is None ==> after is None,
        before matches Some(b) ==> {
            &&& after matches Some(a)
            &&& b.errors < u64::MAX ==> a.errors == b.errors + 1
            &&& b.errors == u64::MAX ==> a.errors == 0
            &&& a.written == b.written
            &&& a.dropped == b.dropped
            &&& a.last_warned_dropped == b.last_warned_dropped
        },
{
}

/// Counting a drop raises that count of its table by one. It is warned of at the first drop of
/// the table, when enough drops were not warned of, and when the interval since the last warning
/// is over; a warning says how many were dropped, and the count and the interval start anew.
pub proof fn law_drops_are_counted_and_warned_of(
    counters: &mut Counters,
    table: &str,
    warn: &mut DropWarnConfig,
    elapsed: u128,
    now: Instant,
    warning: Option<u64>,
    other: &str,
    before: Option<TableCounters>,
    after: Option<TableCounters>,
    other_before: Option<TableCounters>,
    other_after: Option<TableCounters>,
)
    requires
        call_ensures(
            Counters::record_dropped_after,
            (counters, table, warn, elapsed, now),
            warning,
        ),
        call_ensures(Counters::get, (&*old(counters), table), before),
        call_ensures(Counters::get, (&*final(counters), table), after),
        call_ensures(Counters::get, (&*old(counters), other), other_before),
        call_ensures(Counters::get, (&*final(counters), other), other_after),
        other@ != table@,
        before matches Some(b) ==> b.dropped < u64::MAX,
    ensures
        other_after == other_before,
        before is None ==> after is None && warning is None && *final(warn) == *old(warn),
        before matches Some(b) ==> {
            &&& after matches Some(a)
            &&& a.dropped == b.dropped + 1
            &&& a.written == b.written
            &&& a.errors == b.errors
            &&& warning is Some <==> {
                ||| b.dropped == 0
                ||| b.dropped + 1 - b.last_warned_dropped >= old(warn).warn_every_dropped
                ||| elapsed >= old(warn).warn_interval_nanos
            }
            &&& warning matches Some(dropped) ==> {
                &&& dropped == b.dropped + 1
                &&& a.last_warned_dropped == dropped
                &&& final(warn).last_warn_time == now
            }
            &&& warning is None ==> {
                &&& a.last_warned_dropped == b.last_warned_dropped
                &&& final(warn).last_warn_time == old(warn).last_warn_time
            }
            &&& final(warn).warn_every_dropped == old(warn).warn_every_dropped
            &&& final(warn).warn_interval_nanos == old(warn).warn_interval_nanos
        },
{
}

/// Counting a drop by the present time raises that count of its table by one, and warns of the
/// first drop of a table, and when enough drops were not warned of, whatever the time is.
pub proof fn law_drops_are_counted_now(
    counters: &mut Counters,
    table: &str,
    warn: &mut DropWarnConfig,
    warning: Option<u64>,
    other: &str,
    before: Option<TableCounters>,
    after: Option<TableCounters>,
    other_before: Option<TableCounters>,
    other_after: Option<TableCounters>,
)
    requires
        call_ensures(Counters::record_dropped, (counters, table, warn), warning),
        call_ensures(Counters::get, (&*old(counters), table), before),
        call_ensures(Counters::get, (&*final(counters), table), after),
        call_ensures(Counters::get, (&*old(counters), other), other_before),
        call_ensures(Counters::get, (&*final(counters), other), other_after),
        other@ != table@,
        before matches Some(b) ==> b.dropped < u64::MAX,
    ensures
        other_after == other_before,
        before is None ==> after is None && warning is None,
        before matches Some(b) ==> {
            &&& after matches Some(a)
            &&& a.dropped == b.dropped + 1
            &&& a.written == b.written
            &&& a.errors == b.errors
            &&& b.dropped == 0 ==> warning is Some
            &&& b.dropped + 1 - b.last_warned_dropped >= old(warn).warn_every_dropped ==> warning
                is Some
            &&& warning matches Some(dropped) ==> dropped == b.dropped + 1
                && a.last_warned_dropped == dropped
            &&& warning is None ==> a.last_warned_dropped == b.last_warned_dropped
        },
{
}

/// A drop that is already counted is warned of at the first drop of its table, when enough drops
/// were not warned of, and when the interval since the last warning is over.
pub proof fn law_warnings_are_due(
    warn: &mut DropWarnConfig,
    counters: &mut TableCounters,
    elapsed: u128,
    now: Instant,
    warned: bool,
)
    requires
        call_ensures(DropWarnConfig::should_warn_after, (warn, counters, elapsed, now), warned),
    ensures
        warned <==> {
            ||| old(counters).dropped == 1
            ||| old(counters).dropped - old(counters).last_warned_dropped
                >= old(warn).warn_every_dropped
            ||| elapsed >= old(warn).warn_interval_nanos
        },
        warned ==> final(counters).last_warned_dropped == old(counters).dropped,
        warned ==> final(warn).last_warn_time == now,
        !warned ==> *final(counters) == *old(counters) && *final(warn) == *old(warn),
        final(counters).written == old(counters).written,
        final(counters).dropped == old(counters).dropped,
        final(counters).errors == old(counters).errors,
{
}

/// The thresholds are those that were asked for, with the seconds counted in nanoseconds.
pub proof fn law_thresholds_are_kept(every: u64, secs: u64, warn: DropWarnConfig)
    requires
        call_ensures(DropWarnConfig::new, (every, secs), warn),
    ensures
        warn.warn_every_dropped == every,
        warn.warn_interval_nanos == secs * 1_000_000_000,
{
}

/// The sum of a count over the rows of a summary.
pub open spec fn row_sum(rows: Seq<TableSummary>, count: spec_fn(TableSummary) -> int) -> int {
    rows.fold_left(0int, |sum: int, row: TableSummary| sum + count(row))
}

proof fn lemma_row_sum(
    rows: Seq<TableSummary>,
    order: Seq<Seq<char>>,
    counters: Map<Seq<char>, TableCounters>,
    count: spec_fn(TableSummary) -> int,
    counted: spec_fn(TableCounters) -> u64,
)
    requires
        rows.len() == active_tables(order, counters).len(),
        forall|i: int|
            0 <= i < rows.len() ==> count(#[trigger] rows[i]) == counted(
                counters[active_tables(order, counters)[i]],
            ),
        forall|c: TableCounters| !is_active(c) ==> #[trigger] counted(c) == 0,
    ensures
        row_sum(rows, count) == total(order, counters, counted),
    decreases order.len(),
{
    if order.len() > 0 {
        let rest = order.drop_last();
        let active = active_tables(order, counters);
        let earlier = active_tables(rest, counters);
        if is_active(counters[order.last()]) {
            let shorter = rows.drop_last();
            assert(active.last() == order.last());
            assert(rows[rows.len() - 1] == rows.last());
            assert forall|i: int| 0 <= i < shorter.len() implies count(#[trigger] shorter[i])
                == counted(counters[earlier[i]]) by {
                assert(shorter[i] == rows[i]);
                assert(active[i] == earlier[i]);
            }
            lemma_row_sum(shorter, rest, counters, count, counted);
        } else {
            lemma_row_sum(rows, rest, counters, count, counted);
        }
    }
}

proof fn lemma_active_tables(
    order: Seq<Seq<char>>,
    counters: Map<Seq<char>, TableCounters>,
    name: Seq<char>,
)
    ensures
        active_tables(order, counters).contains(name) <==> order.contains(name) && is_active(
            counters[name],
        ),
    decreases order.len(),
{
    if order.len() > 0 {
        let rest = order.drop_last();
        let earlier = active_tables(rest, counters);
        lemma_active_tables(rest, counters, name);
        assert(order =~= rest.push(order.last()));
        if rest.contains(name) {
            let i = choose|i: int| 0 <= i < rest.len() && rest[i] == name;
            assert(order[i] == name);
        }
        if order.contains(name) && name != order.last() {
            let i = choose|i: int| 0 <= i < order.len() && order[i] == name;
            assert(rest[i] == name);
        }
        if name == order.last() {
            assert(order[order.len() - 1] == name);
        }
        if is_active(counters[order.last()]) {
            let all = earlier.push(order.last());
            if earlier.contains(name) {
                let i = choose|i: int| 0 <= i < earlier.len() && earlier[i] == name;
                assert(all[i] == name);
            }
            if all.contains(name) && name != order.last() {
                let i = choose|i: int| 0 <= i < all.len() && all[i] == name;
                assert(earlier[i] == name);
            }
            if name == order.last() {
                assert(all[all.len() - 1] == name);
            }
        }
    }
}

/// The summary at shutdown has a row for each table to whose events anything happened, with its
/// counts, and none for another. Its totals are the sums of the rows.
pub proof fn law_summary_reports_what_happened(
    counters: Counters,
    summary: ShutdownSummary,
    table: &str,
    counted: Option<TableCounters>,
)
    requires
        counters.wf(),
        call_ensures(Counters::shutdown_summary, (&counters,), summary),
        call_ensures(Counters::get, (&counters, table), counted),
    ensures
        (exists|i: int| 0 <= i < summary.tables@.len() && (#[trigger] summary.tables@[i]).table@
            == table@) <==> (counted matches Some(c) && (c.written > 0 || c.dropped > 0 || c.errors
            > 0)),
        forall|i: int|
            0 <= i < summary.tables@.len() && (#[trigger] summary.tables@[i]).table@ == table@
                ==> (counted matches Some(c) && summary.tables@[i].written == c.written
                && summary.tables@[i].dropped == c.dropped && summary.tables@[i].errors
                == c.errors),
        summary.total_written == row_sum(
            summary.tables@,
            |row: TableSummary| row.written as int,
        ),
        summary.total_dropped == row_sum(
            summary.tables@,
            |row: TableSummary| row.dropped as int,
        ),
        summary.total_errors == row_sum(summary.tables@, |row: TableSummary| row.errors as int),
{
    let rows = summary.tables@;
    let order = counters.order();
    let active = active_tables(order, counters@);
    counters.lemma_order();
    lemma_active_tables(order, counters@, table@);
    assert(counters@.dom().contains(table@) <==> order.contains(table@));
    lemma_row_sum(
        rows,
        order,
        counters@,
        |row: TableSummary| row.written as int,
        |c: TableCounters| c.written,
    );
    lemma_row_sum(
        rows,
        order,
        counters@,
        |row: TableSummary| row.dropped as int,
        |c: TableCounters| c.dropped,
    );
    lemma_row_sum(
        rows,
        order,
        counters@,
        |row: TableSummary| row.errors as int,
        |c: TableCounters| c.errors,
    );
    if active.contains(table@) {
        let i = choose|i: int| 0 <= i < active.len() && active[i] == table@;
        assert(rows[i].table@ == table@);
    }
    assert forall|i: int| 0 <= i < rows.len() && (#[trigger] rows[i]).table@
        == table@ implies counters@.dom().contains(table@) && is_active(counters@[table@]) by {
        assert(active[i] == table@);
        assert(active.contains(table@));
    }
}

/// A value that was set for a name is found under it, and what other names have stays.
pub proof fn law_values_are_found_under_their_names<V: Copy>(
    table: &mut NameTable<V>,
    name: &str,
    value: V,
    other: &str,
    found: Option<V>,
    before: Option<V>,
    after: Option<V>,
)
    requires
        call_ensures(NameTable::<V>::set, (table, name, value), ()),
        call_ensures(NameTable::<V>::get, (&*final(table), name), found),
        call_ensures(NameTable::<V>::get, (&*old(table), other), before),
        call_ensures(NameTable::<V>::get, (&*final(table), other), after),
        other@ != name@,
    ensures
        found == Some(value),
        after == before,
{
}

}
