//! What a tracer collects, and where its events go.

use crate::clock::timestamp;
use crate::config::TracerConfig;
use crate::counters::{Counters, DropWarnConfig, TableCounters, TracerStats};
use crate::name_table::NameTable;
use crate::peer_tx::{MessageInfo, PeerError, PeerTx, SendOutcome};
use crate::schema::{PeerMessage, TxGossiped};
use crate::trace_event::TraceEvent;
use crate::tracer::{
    queue_for, Offer, Queue, StopActions, Tracer, TracerHandle, TracerStart, WriteOutcome,
};
use vstd::prelude::*;

verus! {

/// A configuration is accepted exactly if both queues and the list of transaction IDs can hold
/// something. What is reported is the first that cannot.
pub proof fn law_capacities_are_checked(config: TracerConfig, checked: Result<(), String>)
    requires
        call_ensures(TracerConfig::validate, (&config,), checked),
    ensures
        checked is Ok <==> config.peer_message_queue_size > 0 && config.event_queue_size > 0
            && config.max_txids_per_event > 0,
        config.peer_message_queue_size == 0 ==> (checked matches Err(message) && message@
            == "peer_message_queue_size must be > 0"@),
        config.peer_message_queue_size > 0 && config.event_queue_size == 0 ==> (
        checked matches Err(message) && message@ == "event_queue_size must be > 0"@),
        config.peer_message_queue_size > 0 && config.event_queue_size > 0
            && config.max_txids_per_event == 0 ==> (checked matches Err(message) && message@
            == "max_txids_per_event must be > 0"@),
{
}

/// A tracer collects exactly if its configuration is enabled, which is refused only for what is
/// wrong with it. Without a list it collects all tables, and with one exactly those in the list.
/// It starts with nothing counted.
pub proof fn law_tracer_collects_what_is_configured<P>(
    config: TracerConfig,
    run_id: u128,
    checked: Result<(), String>,
    started: Result<TracerStart<P>, String>,
    table: &str,
    collecting: bool,
    enabled: bool,
    counted: Option<TableCounters>,
)
    requires
        call_ensures(TracerConfig::validate, (&config,), checked),
        call_ensures(Tracer::<P>::from_config_for_run, (&config, run_id), started),
        started matches Ok(start) ==> {
            &&& call_ensures(Tracer::<P>::is_collecting, (&start.tracer,), collecting)
            &&& call_ensures(Tracer::<P>::is_table_enabled, (&start.tracer, table), enabled)
            &&& call_ensures(Counters::get, (&start.counters, table), counted)
        },
    ensures
        started is Err <==> config.enabled && checked is Err,
        started matches Err(message) ==> (checked matches Err(fault) && message@ == fault@),
        started matches Ok(start) ==> {
            &&& collecting == config.enabled
            &&& enabled <==> config.enabled && (config.tables@.len() == 0 || exists|i: int|
                0 <= i < config.tables@.len() && (#[trigger] config.tables@[i])@ == table@)
            &&& counted matches Some(c) ==> config.enabled && c.written == 0 && c.dropped == 0
                && c.errors == 0
            &&& start.seat is Some <==> config.enabled
            &&& start.seat matches Some(seat) ==> {
                &&& seat.run_id == run_id
                &&& seat.node_id@ == config.node_id@
                &&& seat.trace_dir@ == config.trace_dir@
                &&& seat.peer_rx.tx().capacity() == config.peer_message_queue_size
                &&& seat.event_rx.tx().capacity() == config.event_queue_size
            }
            &&& start.drop_warn is Some <==> config.enabled
            &&& start.drop_warn matches Some(warn) ==> {
                &&& warn.warn_every_dropped == config.warn_every_dropped
                &&& warn.warn_interval_nanos == config.warn_interval_secs * 1_000_000_000
            }
        },
{
    if let Ok(start) = started {
        if config.enabled {
            let filter = start.tracer.filter();
            if config.tables@.len() > 0 {
                assert(filter.contains(config.tables@[0]@));
            } else {
                assert(filter =~= Set::<Seq<char>>::empty());
            }
        }
        assert(start.counters@.dom().contains(table@) == start.counters@.dom().contains(table@));
    }
}

/// A noop tracer collects nothing.
pub proof fn law_noop_tracer_collects_nothing<P>(
    tracer: Tracer<P>,
    table: &str,
    collecting: bool,
    enabled: bool,
)
    requires
        call_ensures(Tracer::<P>::noop, (), tracer),
        call_ensures(Tracer::<P>::is_collecting, (&tracer,), collecting),
        call_ensures(Tracer::<P>::is_table_enabled, (&tracer, table), enabled),
    ensures
        !collecting,
        !enabled,
{
}

/// Peer messages go through the one queue, and all other events through the other.
pub proof fn law_queues_are_told_by_the_table(table: &str, queue: Queue)
    requires
        call_ensures(queue_for, (table,), queue),
    ensures
        queue is Peer <==> table@ == "peer_message"@,
        queue is Event <==> table@ != "peer_message"@,
{
}

/// An event is offered to the queue of its table, through the tracer's own end of it, exactly if
/// its table is enabled.
pub proof fn law_events_are_offered_to_their_queue<P, T: TraceEvent, F: FnOnce() -> P>(
    tracer: Tracer<P>,
    table: &str,
    enabled: bool,
    queue: Queue,
    f: F,
    offer: Offer<P>,
)
    requires
        table@ == T::table_name(),
        call_ensures(Tracer::<P>::is_table_enabled, (&tracer, table), enabled),
        call_ensures(queue_for, (table,), queue),
        call_ensures(Tracer::<P>::offer::<T, F>, (&tracer, f), offer),
    ensures
        offer is NotCollected <==> !enabled,
        offer matches Offer::Queued(q, receipt) ==> {
            &&& q == queue
            &&& receipt.tx() == tracer.tx(queue)
            &&& receipt.message().table@ == table@
            &&& call_ensures(f, (), receipt.message().payload)
        },
        offer matches Offer::Refused(q, refusal) ==> {
            &&& q == queue
            &&& refusal.tx() == tracer.tx(queue)
            &&& refusal.message().table@ == table@
            &&& call_ensures(f, (), refusal.message().payload)
        },
{
}

/// Writing an event leaves all counts as they are, but for the dropped events of its table where
/// its queue refused it. A warning says how many were dropped.
pub proof fn law_only_refused_events_are_counted_as_dropped<P, T: TraceEvent, F: FnOnce() -> P>(
    tracer: Tracer<P>,
    counters: &mut Counters,
    warn: &mut DropWarnConfig,
    f: F,
    outcome: WriteOutcome<P>,
    table: &str,
    before: Option<TableCounters>,
    after: Option<TableCounters>,
    enabled: bool,
)
    requires
        call_ensures(Tracer::<P>::write_lazy::<T, F>, (&tracer, counters, warn, f), outcome),
        call_ensures(Counters::get, (&*old(counters), table), before),
        call_ensures(Counters::get, (&*final(counters), table), after),
        table@ == T::table_name() ==> call_ensures(
            Tracer::<P>::is_table_enabled,
            (&tracer, table),
            enabled,
        ),
        before matches Some(b) ==> b.dropped < u64::MAX,
    ensures
        table@ == T::table_name() ==> (outcome is NotCollected <==> !enabled),
        !(outcome is Dropped) || table@ != T::table_name() ==> after == before,
        outcome matches WriteOutcome::Dropped(_, warning) ==> (table@ == T::table_name() ==> {
            &&& before is None ==> after is None && warning is None
            &&& before matches Some(b) ==> {
                &&& after matches Some(a)
                &&& a.dropped == b.dropped + 1
                &&& a.written == b.written
                &&& a.errors == b.errors
                &&& warning matches Some(dropped) ==> dropped == a.dropped
                &&& b.dropped == 0 ==> warning is Some
            }
        }),
{
}

/// The statistics of a tracer that collects are the counters, and those of one that does not are
/// empty.
pub proof fn law_statistics_are_the_counters<P>(
    tracer: Tracer<P>,
    counters: Counters,
    collecting: bool,
    stats: TracerStats,
    table: &str,
    row: Option<(u64, u64, u64)>,
    counted: Option<TableCounters>,
)
    requires
        call_ensures(Tracer::<P>::is_collecting, (&tracer,), collecting),
        call_ensures(Tracer::<P>::snapshot, (&tracer, &counters), stats),
        call_ensures(NameTable::<(u64, u64, u64)>::get, (&stats.tables, table), row),
        call_ensures(Counters::get, (&counters, table), counted),
    ensures
        !collecting ==> row is None,
        collecting ==> (row is Some <==> counted is Some),
        collecting ==> (counted matches Some(c) ==> (row matches Some(shown) && shown.0 == c.written
            && shown.1 == c.dropped && shown.2 == c.errors)),
{
}

/// A tracer that was started is stopped once: the first call sends the command and waits for the
/// writer, and a second one has nothing left to do. One that collects nothing has nothing to
/// stop.
pub proof fn law_tracer_is_stopped_once<P>(
    config: TracerConfig,
    run_id: u128,
    start: TracerStart<P>,
    handle: &mut TracerHandle,
    again: &mut TracerHandle,
    first: StopActions,
    second: StopActions,
)
    requires
        call_ensures(
            Tracer::<P>::from_config_for_run,
            (&config, run_id),
            Ok::<TracerStart<P>, String>(start),
        ),
        *old(handle) == start.handle,
        call_ensures(TracerHandle::stop, (handle,), first),
        *old(again) == *final(handle),
        call_ensures(TracerHandle::stop, (again,), second),
    ensures
        first.send_stop == config.enabled,
        first.join_writer == config.enabled,
        !second.send_stop,
        !second.join_writer,
{
}

/// A gossip event counts all transaction IDs, holds as many of the first ones as it may, and
/// says whether some are missing.
pub proof fn law_gossiped_ids_are_capped(txids: Vec<String>, max: usize, event: TxGossiped)
    requires
        call_ensures(TxGossiped::new, (txids, max), event),
    ensures
        event.tx_count == txids@.len(),
        event.txids@.len() == if txids@.len() <= max {
            txids@.len() as int
        } else {
            max as int
        },
        event.txids@.is_prefix_of(txids@),
        event.truncated <==> event.txids@.len() < event.tx_count,
{
}

/// A message that was sent is traced as outbound, with all that is known of it, and no other is
/// traced. Each failure is reported as what it is.
pub proof fn law_sent_messages_are_traced<E>(
    peer_addr: String,
    tx: PeerTx,
    outcome: SendOutcome<E>,
    info: MessageInfo,
    finished: (Result<(), PeerError<E>>, Option<PeerMessage>),
)
    requires
        call_ensures(PeerTx::new, (peer_addr,), tx),
        call_ensures(PeerTx::finish_send::<E>, (&tx, outcome, info), finished),
    ensures
        finished.0 is Ok <==> outcome is Sent,
        finished.1 is Some <==> outcome is Sent,
        outcome matches SendOutcome::Failed(e) ==> finished.0 == Err::<(), PeerError<E>>(
            PeerError::Serialization(e),
        ),
        outcome is TimedOut ==> finished.0 == Err::<(), PeerError<E>>(
            PeerError::ConnectionSendTimeout,
        ),
        finished.1 matches Some(event) ==> {
            &&& event.direction@ == "out"@
            &&& event.command@ == info.command@
            &&& event.peer_addr@ == peer_addr@
            &&& event.message_bytes == info.message_bytes
            &&& event.block_hash == info.block_hash
            &&& event.block_height == info.block_height
        },
{
}

/// A reading of the wall clock has a timestamp exactly from the start of 1970 to the end of
/// 9999.
pub proof fn law_timestamps_end_with_the_year_9999(
    reading: Option<(u64, u32)>,
    text: Option<String>,
)
    requires
        call_ensures(timestamp, (reading,), text),
    ensures
        text is Some <==> (reading matches Some((secs, nanos)) && secs < 253_402_300_800),
{
}

}
